# haul-core

The verified core of haul, a tool for private encrypted file rooms shared between
peers.

- `src/` is the library, checked by Verus:
  - `keys`: document keys of a room index (`file/<path>`, `member/<node id>`) and reading a
    path back from a key;
  - `crypto`: room keys and the ChaCha20-Poly1305 frame (nonce, then ciphertext and tag)
    in which blobs are stored;
  - `room`: rooms and the registry of rooms by name;
  - `ticket`: invite tickets, written in postcard's wire format and then in base58;
  - `identity`, `node`: the decisions a starting node takes on its key file and on its
    relay connection;
  - `index`, `command`, `constants`, `bytes`: file entries, room commands, names and
    byte helpers.
- `app/` is the command line program around it: networking, files on disk, serde forms of
  the library's types.
- `tests/` runs the library.
