use vstd::prelude::*;
use vstd::string::*;
use vstd::utf8::*;

use crate::crypto::RoomKey;

verus! {

/// Whether `c` is a character of the Bitcoin base58 alphabet,
/// `123456789ABCDEFGHJKLMNPQRSTUVWXYZabcdefghijkmnopqrstuvwxyz`.
pub open spec fn is_base58_char(c: char) -> bool {
    ||| ('1' <= c && c <= '9')
    ||| ('A' <= c && c <= 'H')
    ||| ('J' <= c && c <= 'N')
    ||| ('P' <= c && c <= 'Z')
    ||| ('a' <= c && c <= 'k')
    ||| ('m' <= c && c <= 'z')
}

/// Every character of `text` is in the base58 alphabet.
pub open spec fn all_base58(text: Seq<char>) -> bool {
    forall|i: int| 0 <= i < text.len() ==> #[trigger] is_base58_char(text[i])
}

/// Whether `c` has the Unicode `White_Space` property, which `str::trim` removes.
pub open spec fn is_unicode_whitespace(c: char) -> bool {
    ||| ('\u{9}' <= c && c <= '\u{d}')
    ||| c == ' '
    ||| c == '\u{85}'
    ||| c == '\u{a0}'
    ||| c == '\u{1680}'
    ||| ('\u{2000}' <= c && c <= '\u{200a}')
    ||| c == '\u{2028}'
    ||| c == '\u{2029}'
    ||| c == '\u{202f}'
    ||| c == '\u{205f}'
    ||| c == '\u{3000}'
}

/// `text` without its leading whitespace.
pub open spec fn trim_start(text: Seq<char>) -> Seq<char>
    decreases text.len(),
{
    if text.len() > 0 && is_unicode_whitespace(text[0]) {
        trim_start(text.drop_first())
    } else {
        text
    }
}

/// `text` without its trailing whitespace.
pub open spec fn trim_end(text: Seq<char>) -> Seq<char>
    decreases text.len(),
{
    if text.len() > 0 && is_unicode_whitespace(text.last()) {
        trim_end(text.drop_last())
    } else {
        text
    }
}

/// `text` without its leading and trailing whitespace.
pub open spec fn spec_trim(text: Seq<char>) -> Seq<char> {
    trim_end(trim_start(text))
}

/// The LEB128 encoding of `n` that postcard writes for lengths: seven bits per byte,
/// least significant first, the high bit set on every byte but the last.
pub open spec fn varint(n: nat) -> Seq<u8>
    decreases n,
{
    if n < 128 {
        seq![n as u8]
    } else {
        seq![(n % 128 + 128) as u8] + varint(n / 128)
    }
}

/// The postcard encoding of a ticket: the 32 key bytes as they are, then the room name
/// and the document ticket, each as its length in a varint followed by its bytes.
pub open spec fn postcard_ticket_bytes(key: Seq<u8>, name: Seq<char>, doc: Seq<u8>) -> Seq<u8> {
    key + (varint(encode_utf8(name).len()) + (encode_utf8(name) + (varint(doc.len()) + doc)))
}

/// The base58 text (Bitcoin alphabet) that `bs58` computes for `bytes`.
pub uninterp spec fn bs58_encoding(bytes: Seq<u8>) -> Seq<char>;

/// The bytes that `bs58` decodes from `text`, where every character is in the alphabet.
pub uninterp spec fn bs58_decoding(text: Seq<char>) -> Seq<u8>;

/// The key, room name and document ticket that postcard decodes from `bytes`, if any.
pub uninterp spec fn postcard_ticket_decoding(bytes: Seq<u8>) -> Option<(Seq<u8>, Seq<char>, Seq<u8>)>;

#[verifier::external_type_specification]
#[verifier::external_body]
pub struct ExBs58DecodeError(bs58::decode::Error);

#[verifier::external_type_specification]
#[verifier::external_body]
pub struct ExPostcardError(postcard::Error);

/// Calls `str::trim`, which std documents as removing leading and trailing characters
/// with the Unicode `White_Space` property.
#[verifier::external_body]
fn trim(text: &str) -> (t: &str)
    ensures
        t@ == spec_trim(text@),
{
    text.trim()
}

/// Calls `bs58::encode(..).into_string()`. Per the source of bs58 0.5, every output
/// character is taken from the Bitcoin alphabet, and decoding gives back the input, so
/// no other input has the same encoding.
#[verifier::external_body]
fn bs58_encode(bytes: &[u8]) -> (text: String)
    ensures
        text@ == bs58_encoding(bytes@),
        all_base58(text@),
        forall|other: Seq<u8>| #[trigger] bs58_encoding(other) == text@ ==> other == bytes@,
{
    bs58::encode(bytes).into_string()
}

/// Calls `bs58::decode(..).into_vec()`. Per the source of bs58 0.5, it fails exactly when
/// some character is outside the Bitcoin alphabet (the output vector is always large
/// enough), and it gives back the bytes whose encoding the text is.
#[verifier::external_body]
fn bs58_decode(text: &str) -> (r: Result<Vec<u8>, bs58::decode::Error>)
    ensures
        r is Ok <==> all_base58(text@),
        r matches Ok(b) ==> b@ == bs58_decoding(text@),
        forall|b: Seq<u8>| #[trigger] bs58_encoding(b) == text@ ==> r is Ok && r->Ok_0@ == b,
{
    bs58::decode(text).into_vec()
}

/// Calls `postcard::to_allocvec` on the tuple of key, room name and document ticket.
/// Per the source of postcard 1.1 the allocating flavor never fails, an array is written
/// byte by byte without a length, and a string or a byte vector as a varint length then
/// its bytes.
#[verifier::external_body]
fn postcard_encode(key: &[u8; 32], name: &String, doc: &Vec<u8>) -> (r: Result<Vec<u8>, postcard::Error>)
    ensures
        r is Ok,
        r matches Ok(b) ==> b@ == postcard_ticket_bytes(key@, name@, doc@),
{
    postcard::to_allocvec(&(key, name, doc))
}

/// Calls `postcard::from_bytes` for a tuple of key, room name and document ticket.
/// Stated: fewer bytes than the shortest encoding fail, and the encoding of a tuple
/// decodes to that tuple. What other inputs decode to is left to the name
/// `postcard_ticket_decoding`.
#[verifier::external_body]
fn postcard_decode(bytes: &[u8]) -> (r: Result<([u8; 32], String, Vec<u8>), postcard::Error>)
    ensures
        r is Ok <==> postcard_ticket_decoding(bytes@) is Some,
        r matches Ok(t) ==> postcard_ticket_decoding(bytes@) == Some((t.0@, t.1@, t.2@)),
        bytes@.len() < 34 ==> r is Err,
        forall|k: Seq<u8>, n: Seq<char>, d: Seq<u8>|
            k.len() == 32 && #[trigger] postcard_ticket_bytes(k, n, d) == bytes@ ==> r is Ok
                && r->Ok_0.0@ == k && r->Ok_0.1@ == n && r->Ok_0.2@ == d,
{
    postcard::from_bytes::<([u8; 32], String, Vec<u8>)>(bytes)
}

/// Why a ticket could not be read.
#[derive(Debug, PartialEq, Eq, Structural)]
pub enum TicketError {
    /// The text holds a character outside the base58 alphabet.
    Base58,
    /// The bytes do not hold a ticket.
    Format,
}

/// An invitation to a room: its key, its name, and the serialized ticket of its document.
#[derive(Clone, Debug)]
pub struct RoomTicket {
    pub room_key: RoomKey,
    pub room_name: String,
    pub doc_ticket: Vec<u8>,
}

impl View for RoomTicket {
    type V = (Seq<u8>, Seq<char>, Seq<u8>);

    open spec fn view(&self) -> (Seq<u8>, Seq<char>, Seq<u8>) {
        (self.room_key@, self.room_name@, self.doc_ticket@)
    }
}

/// The varint encoding can be read back: equal streams that start with two varints
/// start with the same varint and go on the same way.
pub proof fn varint_prefix_unique(a: nat, b: nat, x: Seq<u8>, y: Seq<u8>)
    requires
        varint(a) + x == varint(b) + y,
    ensures
        a == b,
        x == y,
    decreases a,
{
    let l = varint(a) + x;
    let r = varint(b) + y;
    assert(l[0] == r[0]);
    if a < 128 {
        assert(l[0] == a);
        if b >= 128 {
            assert(r[0] == b % 128 + 128);
        } else {
            assert(r[0] == b);
        }
        assert(l.drop_first() =~= x);
        assert(r.drop_first() =~= y);
    } else {
        assert(l[0] == a % 128 + 128);
        if b < 128 {
            assert(r[0] == b);
        } else {
            assert(r[0] == b % 128 + 128);
        }
        assert(a % 128 == b % 128);
        assert(l.drop_first() =~= varint(a / 128) + x);
        assert(r.drop_first() =~= varint(b / 128) + y);
        varint_prefix_unique(a / 128, b / 128, x, y);
        assert(a == (a / 128) * 128 + a % 128);
        assert(b == (b / 128) * 128 + b % 128);
    }
}

/// Two tickets with the same postcard encoding are the same ticket.
pub proof fn ticket_bytes_injective(k1: Seq<u8>, n1: Seq<char>, d1: Seq<u8>, k2: Seq<u8>, n2: Seq<char>, d2: Seq<u8>)
    requires
        k1.len() == 32,
        k2.len() == 32,
        postcard_ticket_bytes(k1, n1, d1) == postcard_ticket_bytes(k2, n2, d2),
    ensures
        k1 == k2,
        n1 == n2,
        d1 == d2,
{
    broadcast use encode_utf8_decode_utf8;
    let e1 = encode_utf8(n1);
    let e2 = encode_utf8(n2);
    let t1 = varint(e1.len()) + (e1 + (varint(d1.len()) + d1));
    let t2 = varint(e2.len()) + (e2 + (varint(d2.len()) + d2));
    let all = postcard_ticket_bytes(k1, n1, d1);
    assert(all.take(32) =~= k1);
    assert(postcard_ticket_bytes(k2, n2, d2).take(32) =~= k2);
    assert(all.skip(32) =~= t1);
    assert(postcard_ticket_bytes(k2, n2, d2).skip(32) =~= t2);
    varint_prefix_unique(e1.len(), e2.len(), e1 + (varint(d1.len()) + d1), e2 + (varint(d2.len()) + d2));
    let r1 = e1 + (varint(d1.len()) + d1);
    let r2 = e2 + (varint(d2.len()) + d2);
    assert(r1.take(e1.len() as int) =~= e1);
    assert(r2.take(e2.len() as int) =~= e2);
    assert(decode_utf8(e1) == n1);
    assert(decode_utf8(e2) == n2);
    assert(r1.skip(e1.len() as int) =~= varint(d1.len()) + d1);
    assert(r2.skip(e2.len() as int) =~= varint(d2.len()) + d2);
    varint_prefix_unique(d1.len(), d2.len(), d1, d2);
}

/// The postcard encoding of a ticket starts with the 32 key bytes, ends with the document
/// ticket, and has exactly the length of its parts: key, name length, name, ticket length,
/// ticket.
pub proof fn ticket_bytes_layout(key: Seq<u8>, name: Seq<char>, doc: Seq<u8>)
    requires
        key.len() == 32,
    ensures
        postcard_ticket_bytes(key, name, doc).len() == 32 + varint(encode_utf8(name).len()).len()
            + encode_utf8(name).len() + varint(doc.len()).len() + doc.len(),
        postcard_ticket_bytes(key, name, doc).take(32) == key,
        postcard_ticket_bytes(key, name, doc).skip(postcard_ticket_bytes(key, name, doc).len() - doc.len()) == doc,
        postcard_ticket_bytes(key, name, doc).skip(32) == varint(encode_utf8(name).len()) + (encode_utf8(name)
            + (varint(doc.len()) + doc)),
{
    let b = postcard_ticket_bytes(key, name, doc);
    assert(b.take(32) =~= key);
    assert(b.skip(b.len() - doc.len()) =~= doc);
    assert(b.skip(32) =~= varint(encode_utf8(name).len()) + (encode_utf8(name) + (varint(doc.len()) + doc)));
}

/// A varint is never empty; a length below 128 is the single byte of that value, and a
/// larger one starts with its low seven bits with the high bit set.
pub proof fn varint_shape(n: nat)
    ensures
        varint(n).len() >= 1,
        n < 128 ==> varint(n) == seq![n as u8],
        n >= 128 ==> varint(n)[0] == n % 128 + 128 && varint(n).skip(1) == varint(n / 128),
    decreases n,
{
    if n >= 128 {
        varint_shape(n / 128);
        assert(varint(n).skip(1) =~= varint(n / 128));
    }
}

/// Base58 text has no whitespace at either end, so trimming leaves it as it is: the text
/// that [`RoomTicket::encode`] returns is what [`RoomTicket::decode`] reads after trimming.
pub proof fn base58_text_is_trimmed(text: Seq<char>)
    requires
        all_base58(text),
    ensures
        spec_trim(text) == text,
{
    if text.len() > 0 {
        assert(is_base58_char(text[0]));
        assert(is_base58_char(text[text.len() - 1]));
    }
}

/// Every base58 character is an ASCII letter or digit, and none of them is one of the
/// look-alikes `0`, `O`, `I` and `l`.
pub proof fn base58_chars_are_unambiguous(c: char)
    requires
        is_base58_char(c),
    ensures
        ('0' <= c && c <= '9') || ('A' <= c && c <= 'Z') || ('a' <= c && c <= 'z'),
        c != '0' && c != 'O' && c != 'I' && c != 'l',
{
}

impl RoomTicket {
    /// The postcard encoding of this ticket.
    pub open spec fn wire_bytes(&self) -> Seq<u8> {
        postcard_ticket_bytes(self.room_key@, self.room_name@, self.doc_ticket@)
    }

    /// This ticket in postcard's wire format.
    pub fn to_bytes(&self) -> (bytes: Vec<u8>)
        ensures
            bytes@ == self.wire_bytes(),
            bytes@ == postcard_ticket_bytes(self.room_key@, self.room_name@, self.doc_ticket@),
            bytes@.take(32) == self.room_key@,
            bytes@.skip(bytes@.len() - self.doc_ticket@.len()) == self.doc_ticket@,
    {
        match postcard_encode(&self.room_key, &self.room_name, &self.doc_ticket) {
            Ok(bytes) => {
                proof { ticket_bytes_layout(self.room_key@, self.room_name@, self.doc_ticket@); }
                bytes
            },
            Err(_) => {
                proof { assert(false); }
                Vec::new()
            },
        }
    }

    /// The ticket that `bytes` hold in postcard's wire format.
    pub fn from_bytes(bytes: &[u8]) -> (r: Result<RoomTicket, TicketError>)
        ensures
            r is Ok <==> postcard_ticket_decoding(bytes@) is Some,
            r matches Ok(t) ==> postcard_ticket_decoding(bytes@) == Some(t@),
            r matches Err(e) ==> e == TicketError::Format,
            bytes@.len() < 34 ==> r is Err,
            forall|k: Seq<u8>, n: Seq<char>, d: Seq<u8>|
                k.len() == 32 && #[trigger] postcard_ticket_bytes(k, n, d) == bytes@ ==> r is Ok
                    && r->Ok_0@ == (k, n, d),
    {
        match postcard_decode(bytes) {
            Ok((room_key, room_name, doc_ticket)) => Ok(RoomTicket { room_key, room_name, doc_ticket }),
            Err(_) => Err(TicketError::Format),
        }
    }

    /// The invite text of this ticket: its postcard encoding in base58. Only base58
    /// characters occur in it, and no other ticket has the same text.
    pub fn encode(&self) -> (r: Result<String, TicketError>)
        ensures
            r is Ok,
            r matches Ok(text) ==> text@ == bs58_encoding(self.wire_bytes()),
            r matches Ok(text) ==> text@ == bs58_encoding(
                postcard_ticket_bytes(self.room_key@, self.room_name@, self.doc_ticket@),
            ),
            r matches Ok(text) ==> all_base58(text@),
            r matches Ok(text) ==> spec_trim(text@) == bs58_encoding(
                postcard_ticket_bytes(self.room_key@, self.room_name@, self.doc_ticket@),
            ),
            r matches Ok(text) ==> forall|k: Seq<u8>, n: Seq<char>, d: Seq<u8>|
                k.len() == 32 && #[trigger] bs58_encoding(postcard_ticket_bytes(k, n, d)) == text@
                    ==> (k, n, d) == self@,
    {
        let bytes = self.to_bytes();
        let text = bs58_encode(bytes.as_slice());
        proof {
            assert forall|k: Seq<u8>, n: Seq<char>, d: Seq<u8>|
                k.len() == 32 && #[trigger] bs58_encoding(postcard_ticket_bytes(k, n, d)) == text@
                implies (k, n, d) == self@ by {
                assert(postcard_ticket_bytes(k, n, d) == bytes@);
                ticket_bytes_injective(k, n, d, self.room_key@, self.room_name@, self.doc_ticket@);
            }
            base58_text_is_trimmed(text@);
        }
        Ok(text)
    }

    /// The ticket that the invite text `text` holds, ignoring whitespace around it.
    pub fn decode(text: &str) -> (r: Result<RoomTicket, TicketError>)
        ensures
            !all_base58(spec_trim(text@)) ==> r == Err::<RoomTicket, TicketError>(TicketError::Base58),
            all_base58(spec_trim(text@)) ==> match postcard_ticket_decoding(bs58_decoding(spec_trim(text@))) {
                Some(v) => r is Ok && r->Ok_0@ == v,
                None => r == Err::<RoomTicket, TicketError>(TicketError::Format),
            },
            forall|k: Seq<u8>, n: Seq<char>, d: Seq<u8>|
                k.len() == 32 && #[trigger] bs58_encoding(postcard_ticket_bytes(k, n, d)) == spec_trim(text@)
                    ==> r is Ok && r->Ok_0@ == (k, n, d),
    {
        let trimmed = trim(text);
        match bs58_decode(trimmed) {
            Err(_) => Err(TicketError::Base58),
            Ok(bytes) => {
                let r = RoomTicket::from_bytes(bytes.as_slice());
                proof {
                    assert forall|k: Seq<u8>, n: Seq<char>, d: Seq<u8>|
                        k.len() == 32 && #[trigger] bs58_encoding(postcard_ticket_bytes(k, n, d)) == spec_trim(text@)
                        implies r is Ok && r->Ok_0@ == (k, n, d) by {
                        assert(bytes@ == postcard_ticket_bytes(k, n, d));
                    }
                }
                r
            },
        }
    }
}

} // verus!
