use haul_core::crypto::generate_room_key;
use haul_core::room::{NamespaceId, Room, RoomRegistry};

fn make_namespace() -> NamespaceId {
    NamespaceId::from([42u8; 32])
}

#[test]
fn room_namespace_id_roundtrip() {
    let ns = make_namespace();
    let room = Room::new("myroom".to_string(), generate_room_key(), ns);
    assert_eq!(room.namespace_id(), ns);
}

#[test]
fn registry_insert_and_get() {
    let mut reg = RoomRegistry::default();
    let room = Room::new("alpha".to_string(), generate_room_key(), make_namespace());
    reg.insert(room.clone());
    let found = reg.get("alpha").expect("alpha was just inserted");
    assert_eq!(found.name, "alpha");
    assert_eq!(found.doc_id, room.doc_id);
}

#[test]
fn registry_get_missing_returns_none() {
    let reg = RoomRegistry::default();
    assert!(reg.get("no-such-room").is_none());
}

#[test]
fn registry_insert_overwrites() {
    let mut reg = RoomRegistry::default();
    let key1 = generate_room_key();
    let key2 = generate_room_key();
    reg.insert(Room::new("r".to_string(), key1, make_namespace()));
    reg.insert(Room::new("r".to_string(), key2, make_namespace()));
    assert_eq!(reg.get("r").expect("r was inserted twice").key, key2);
}

#[test]
fn registry_list_all() {
    let mut reg = RoomRegistry::default();
    reg.insert(Room::new("a".to_string(), generate_room_key(), make_namespace()));
    reg.insert(Room::new("b".to_string(), generate_room_key(), make_namespace()));
    let names: Vec<_> = reg.list().into_iter().map(|r| r.name.as_str()).collect();
    assert_eq!(names.len(), 2);
    assert!(names.contains(&"a"));
    assert!(names.contains(&"b"));
}

#[test]
fn registry_overwrite_keeps_one_entry() {
    let mut reg = RoomRegistry::default();
    reg.insert(Room::new("r".to_string(), [1u8; 32], NamespaceId::from([1u8; 32])));
    reg.insert(Room::new("s".to_string(), [2u8; 32], NamespaceId::from([2u8; 32])));
    reg.insert(Room::new("r".to_string(), [3u8; 32], NamespaceId::from([3u8; 32])));
    assert_eq!(reg.list().len(), 2);
    let r = reg.get("r").expect("r is there");
    assert_eq!(r.key, [3u8; 32]);
    assert_eq!(r.doc_id, [3u8; 32]);
    assert_eq!(reg.get("s").expect("s is there").key, [2u8; 32]);
    assert!(reg.get("rs").is_none());
    assert!(reg.get("").is_none());
}

#[test]
fn registry_names_compare_exactly() {
    let mut reg = RoomRegistry::default();
    reg.insert(Room::new("caf\u{e9}".to_string(), [1u8; 32], make_namespace()));
    assert!(reg.get("caf\u{e9}").is_some());
    assert!(reg.get("cafe").is_none());
    assert!(reg.get("Caf\u{e9}").is_none());
}

#[test]
fn namespace_id_bytes_and_equality() {
    let a = NamespaceId::from([5u8; 32]);
    let mut other = [5u8; 32];
    assert_eq!(a.as_bytes(), &other);
    other[31] = 6;
    assert_ne!(a, NamespaceId::from(other));
    assert_eq!(a, NamespaceId::from([5u8; 32]));
}
