use vstd::prelude::*;
use vstd::string::*;
use vstd::utf8::*;
use vstd::std_specs::cmp::PartialEqSpec;
use vstd::std_specs::convert::FromSpec;

use crate::bytes::bytes_eq;
use crate::crypto::RoomKey;

verus! {

/// The 32-byte identifier of the shared document that indexes a room.
#[derive(Clone, Copy, Debug, Eq)]
pub struct NamespaceId {
    bytes: [u8; 32],
}

impl View for NamespaceId {
    type V = [u8; 32];

    closed spec fn view(&self) -> [u8; 32] {
        self.bytes
    }
}

impl From<[u8; 32]> for NamespaceId {
    fn from(bytes: [u8; 32]) -> (id: NamespaceId)
        ensures
            id@ == bytes,
    {
        NamespaceId { bytes }
    }
}

impl vstd::std_specs::convert::FromSpecImpl<[u8; 32]> for NamespaceId {
    open spec fn obeys_from_spec() -> bool {
        true
    }

    closed spec fn from_spec(bytes: [u8; 32]) -> NamespaceId {
        NamespaceId { bytes }
    }
}

impl PartialEq for NamespaceId {
    fn eq(&self, other: &NamespaceId) -> (same: bool) {
        bytes_eq(self.bytes.as_slice(), other.bytes.as_slice())
    }
}

impl vstd::std_specs::cmp::PartialEqSpecImpl for NamespaceId {
    open spec fn obeys_eq_spec() -> bool {
        true
    }

    closed spec fn eq_spec(&self, other: &NamespaceId) -> bool {
        self.bytes@ == other.bytes@
    }
}

impl NamespaceId {
    /// The identifier's bytes.
    pub fn as_bytes(&self) -> (b: &[u8; 32])
        ensures
            *b == self@,
    {
        &self.bytes
    }

    /// An identifier is its bytes: the identifier made from `bytes` holds them, two
    /// identifiers with the same bytes are the same, and `==` compares their bytes.
    pub proof fn view_determines(a: NamespaceId, b: NamespaceId, bytes: [u8; 32])
        ensures
            <NamespaceId as FromSpec<[u8; 32]>>::from_spec(bytes)@ == bytes,
            a@ == b@ ==> a == b,
            a.eq_spec(&b) <==> a@ == b@,
    {
        broadcast use vstd::array::group_array_axioms;
        if a.bytes@ == b.bytes@ {
            assert(a.bytes == b.bytes);
        }
    }
}

/// A room this node has created or joined.
#[derive(Clone, Debug)]
pub struct Room {
    pub name: String,
    pub key: RoomKey,
    pub doc_id: [u8; 32],
}

impl Room {
    /// The room called `name`, encrypted with `key`, indexed by the document `doc_id`.
    pub fn new(name: String, key: RoomKey, doc_id: NamespaceId) -> (room: Room)
        ensures
            room.name == name,
            room.key == key,
            room.doc_id == doc_id@,
    {
        Room { name, key, doc_id: *doc_id.as_bytes() }
    }

    /// The identifier of the document that indexes this room.
    pub fn namespace_id(&self) -> (id: NamespaceId)
        ensures
            id@ == self.doc_id,
    {
        NamespaceId::from(self.doc_id)
    }
}

/// No two rooms of `rooms` share a name.
pub open spec fn distinct_names(rooms: Seq<Room>) -> bool {
    forall|i: int, j: int| 0 <= i < j < rooms.len() ==> rooms[i].name@ != rooms[j].name@
}

/// The rooms of `rooms` by name; a later room wins over an earlier one of the same name.
pub open spec fn rooms_by_name(rooms: Seq<Room>) -> Map<Seq<char>, Room>
    decreases rooms.len(),
{
    if rooms.len() == 0 {
        Map::empty()
    } else {
        rooms_by_name(rooms.drop_last()).insert(rooms.last().name@, rooms.last())
    }
}

proof fn lemma_rooms_by_name_keys(rooms: Seq<Room>, k: Seq<char>)
    ensures
        rooms_by_name(rooms).contains_key(k) <==> exists|i: int| 0 <= i < rooms.len() && #[trigger] rooms[i].name@ == k,
    decreases rooms.len(),
{
    if rooms.len() > 0 {
        let init = rooms.drop_last();
        lemma_rooms_by_name_keys(init, k);
        if rooms_by_name(init).contains_key(k) {
            let i = choose|i: int| 0 <= i < init.len() && #[trigger] init[i].name@ == k;
            assert(rooms[i].name@ == k);
        }
        if exists|i: int| 0 <= i < rooms.len() && #[trigger] rooms[i].name@ == k {
            let i = choose|i: int| 0 <= i < rooms.len() && #[trigger] rooms[i].name@ == k;
            if i < rooms.len() - 1 {
                assert(init[i].name@ == k);
            }
        }
    }
}

proof fn lemma_rooms_by_name_value(rooms: Seq<Room>, i: int)
    requires
        distinct_names(rooms),
        0 <= i < rooms.len(),
    ensures
        rooms_by_name(rooms).contains_key(rooms[i].name@),
        rooms_by_name(rooms)[rooms[i].name@] == rooms[i],
    decreases rooms.len(),
{
    if i < rooms.len() - 1 {
        let init = rooms.drop_last();
        assert(init[i] == rooms[i]);
        lemma_rooms_by_name_value(init, i);
    }
}

proof fn lemma_rooms_by_name_update(rooms: Seq<Room>, i: int, room: Room)
    requires
        distinct_names(rooms),
        0 <= i < rooms.len(),
        rooms[i].name@ == room.name@,
    ensures
        rooms_by_name(rooms.update(i, room)) == rooms_by_name(rooms).insert(room.name@, room),
    decreases rooms.len(),
{
    let updated = rooms.update(i, room);
    let init = rooms.drop_last();
    if i == rooms.len() - 1 {
        assert(updated.drop_last() =~= init);
        assert(rooms_by_name(updated) =~= rooms_by_name(rooms).insert(room.name@, room));
    } else {
        assert(updated.drop_last() =~= init.update(i, room));
        lemma_rooms_by_name_update(init, i, room);
        assert(rooms.last().name@ != room.name@);
        assert(rooms_by_name(updated) =~= rooms_by_name(rooms).insert(room.name@, room));
    }
}

proof fn lemma_rooms_by_name_len(rooms: Seq<Room>)
    requires
        distinct_names(rooms),
    ensures
        rooms_by_name(rooms).dom().finite(),
        rooms_by_name(rooms).dom().len() == rooms.len(),
    decreases rooms.len(),
{
    if rooms.len() > 0 {
        let init = rooms.drop_last();
        lemma_rooms_by_name_len(init);
        lemma_rooms_by_name_keys(init, rooms.last().name@);
        assert(!rooms_by_name(init).contains_key(rooms.last().name@)) by {
            if exists|i: int| 0 <= i < init.len() && #[trigger] init[i].name@ == rooms.last().name@ {
                let i = choose|i: int| 0 <= i < init.len() && #[trigger] init[i].name@ == rooms.last().name@;
                assert(rooms[i].name@ == rooms[rooms.len() - 1].name@);
            }
        }
    }
}

/// The same bytes of UTF-8 are the same text.
proof fn lemma_same_bytes_same_text(a: &str, b: &str)
    requires
        a.spec_bytes() == b.spec_bytes(),
    ensures
        a@ == b@,
{
    broadcast use encode_utf8_decode_utf8;
    assert(decode_utf8(encode_utf8(a@)) == a@);
    assert(decode_utf8(encode_utf8(b@)) == b@);
}

/// The rooms this node knows, each under its name.
pub struct RoomRegistry {
    rooms: Vec<Room>,
}

impl View for RoomRegistry {
    type V = Map<Seq<char>, Room>;

    closed spec fn view(&self) -> Map<Seq<char>, Room> {
        rooms_by_name(self.rooms@)
    }
}

impl Default for RoomRegistry {
    fn default() -> (registry: RoomRegistry)
        ensures
            registry@ == Map::<Seq<char>, Room>::empty(),
    {
        RoomRegistry { rooms: Vec::new() }
    }
}

impl RoomRegistry {
    #[verifier::type_invariant]
    closed spec fn names_distinct(self) -> bool {
        distinct_names(self.rooms@)
    }

    /// The position of the room called `name`, if there is one.
    fn position(&self, name: &str) -> (pos: Option<usize>)
        ensures
            match pos {
                Some(i) => i < self.rooms@.len() && self.rooms@[i as int].name@ == name@,
                None => forall|i: int| 0 <= i < self.rooms@.len() ==> self.rooms@[i].name@ != name@,
            },
    {
        let mut i: usize = 0;
        while i < self.rooms.len()
            invariant
                i <= self.rooms@.len(),
                forall|j: int| 0 <= j < i ==> self.rooms@[j].name@ != name@,
            decreases self.rooms@.len() - i,
        {
            let candidate = self.rooms[i].name.as_str();
            if bytes_eq(candidate.as_bytes(), name.as_bytes()) {
                proof { lemma_same_bytes_same_text(candidate, name); }
                return Some(i);
            }
            proof {
                if candidate@ == name@ {
                    assert(candidate.spec_bytes() == name.spec_bytes());
                }
            }
            i = i + 1;
        }
        None
    }

    /// Records `room` under its name, replacing a room of the same name.
    pub fn insert(&mut self, room: Room)
        ensures
            final(self)@ == old(self)@.insert(room.name@, room),
    {
        proof { use_type_invariant(&*self); }
        let pos = self.position(room.name.as_str());
        let mut rooms: Vec<Room> = Vec::new();
        std::mem::swap(&mut rooms, &mut self.rooms);
        let ghost before = rooms@;
        match pos {
            Some(i) => {
                proof { lemma_rooms_by_name_update(before, i as int, room); }
                rooms.set(i, room);
                assert(rooms@ == before.update(i as int, room));
            },
            None => {
                rooms.push(room);
                assert(rooms@.drop_last() =~= before);
            },
        }
        assert(distinct_names(rooms@));
        self.rooms = rooms;
    }

    /// The room called `name`, if this registry has one.
    pub fn get(&self, name: &str) -> (found: Option<&Room>)
        ensures
            match found {
                Some(room) => self@.contains_key(name@) && *room == self@[name@],
                None => !self@.contains_key(name@),
            },
    {
        proof {
            use_type_invariant(self);
            lemma_rooms_by_name_keys(self.rooms@, name@);
        }
        match self.position(name) {
            Some(i) => {
                proof { lemma_rooms_by_name_value(self.rooms@, i as int); }
                Some(&self.rooms[i])
            },
            None => None,
        }
    }

    /// Every room of this registry, each once, in no particular order.
    pub fn list(&self) -> (rooms: Vec<&Room>)
        ensures
            self@.dom().finite(),
            rooms@.len() == self@.dom().len(),
            forall|i: int| 0 <= i < rooms@.len() ==> #[trigger] self@.contains_key(rooms@[i].name@)
                && self@[rooms@[i].name@] == *rooms@[i],
            forall|i: int, j: int| 0 <= i < j < rooms@.len() ==> rooms@[i].name@ != rooms@[j].name@,
    {
        proof {
            use_type_invariant(self);
            lemma_rooms_by_name_len(self.rooms@);
        }
        let mut out: Vec<&Room> = Vec::new();
        let mut i: usize = 0;
        while i < self.rooms.len()
            invariant
                i <= self.rooms@.len(),
                distinct_names(self.rooms@),
                out@.len() == i,
                forall|j: int| 0 <= j < i ==> *out@[j] == self.rooms@[j],
            decreases self.rooms@.len() - i,
        {
            out.push(&self.rooms[i]);
            i = i + 1;
        }
        proof {
            assert forall|j: int| 0 <= j < out@.len() implies #[trigger] self@.contains_key(out@[j].name@)
                && self@[out@[j].name@] == *out@[j] by {
                lemma_rooms_by_name_value(self.rooms@, j);
            }
        }
        out
    }
}

/// After recording `room`, looking up its name finds `room`, and looking up any other
/// name finds what it found before.
pub proof fn lookup_after_insert(registry: Map<Seq<char>, Room>, room: Room, name: Seq<char>)
    ensures
        registry.insert(room.name@, room).contains_key(room.name@),
        registry.insert(room.name@, room)[room.name@] == room,
        name != room.name@ ==> (registry.insert(room.name@, room).contains_key(name)
            <==> registry.contains_key(name)),
        name != room.name@ && registry.contains_key(name) ==> registry.insert(room.name@, room)[name]
            == registry[name],
{
}

/// Recording two rooms of the same name leaves only the second: the registry is as if
/// the first had never been recorded.
pub proof fn second_insert_overwrites(registry: Map<Seq<char>, Room>, first: Room, second: Room)
    requires
        first.name@ == second.name@,
    ensures
        registry.insert(first.name@, first).insert(second.name@, second) == registry.insert(second.name@, second),
{
    assert(registry.insert(first.name@, first).insert(second.name@, second) =~= registry.insert(second.name@, second));
}

/// Recording a room of a new name adds one room to the registry; recording one of a
/// known name keeps the number of rooms.
pub proof fn insert_room_count(registry: Map<Seq<char>, Room>, room: Room)
    requires
        registry.dom().finite(),
    ensures
        registry.contains_key(room.name@) ==> registry.insert(room.name@, room).dom().len() == registry.dom().len(),
        !registry.contains_key(room.name@) ==> registry.insert(room.name@, room).dom().len() == registry.dom().len() + 1,
{
    assert(registry.insert(room.name@, room).dom() =~= registry.dom().insert(room.name@));
}

} // verus!
