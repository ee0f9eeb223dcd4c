use haul_core::identity::{decide_key_file, secret_key_from_file, KeyFileDecision, KeyFileRead};
use haul_core::index::FileEntry;
use haul_core::node::{relay_wait_step, RelayWait, RELAY_WAIT_MS};

#[test]
fn key_file_of_32_bytes_is_used() {
    let bytes: Vec<u8> = (0u8..32).collect();
    let mut expected = [0u8; 32];
    expected.copy_from_slice(&bytes);
    assert_eq!(decide_key_file(&KeyFileRead::Found(bytes)), KeyFileDecision::UseKey(expected));
}

#[test]
fn key_file_of_wrong_length_is_corrupt() {
    assert_eq!(decide_key_file(&KeyFileRead::Found(vec![1u8; 31])), KeyFileDecision::Corrupt);
    assert_eq!(decide_key_file(&KeyFileRead::Found(vec![1u8; 33])), KeyFileDecision::Corrupt);
    assert_eq!(decide_key_file(&KeyFileRead::Found(vec![])), KeyFileDecision::Corrupt);
    assert_eq!(secret_key_from_file(&[2u8; 32]), Some([2u8; 32]));
    assert_eq!(secret_key_from_file(&[2u8; 5]), None);
}

#[test]
fn missing_key_file_is_created_other_errors_pass() {
    assert_eq!(decide_key_file(&KeyFileRead::NotFound), KeyFileDecision::CreateKey);
    assert_eq!(decide_key_file(&KeyFileRead::Failed), KeyFileDecision::PassError);
}

#[test]
fn relay_wait_steps() {
    assert_eq!(relay_wait_step(true, 0), RelayWait::Ready);
    assert_eq!(relay_wait_step(true, 50_000), RelayWait::Ready);
    assert_eq!(relay_wait_step(false, 0), RelayWait::KeepWaiting);
    assert_eq!(relay_wait_step(false, RELAY_WAIT_MS - 1), RelayWait::KeepWaiting);
    assert_eq!(relay_wait_step(false, RELAY_WAIT_MS), RelayWait::TimedOut);
}

#[test]
fn file_entry_keeps_fields() {
    let e = FileEntry::new("ab12".to_string(), 40, 1700000000, "node9".to_string());
    assert_eq!(e.blob_hash, "ab12");
    assert_eq!(e.size, 40);
    assert_eq!(e.modified, 1700000000);
    assert_eq!(e.from_node, "node9");
}
