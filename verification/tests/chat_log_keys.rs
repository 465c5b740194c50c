use std::cmp::Ordering;

use nextdb_server::chat_log::{
    ChatLogIndexEntry, chat_log_message_key, chat_log_ref_key, chat_log_room_prefix,
    compare_index_order, compare_message_order, index_covers_data_file, index_path_for_bucket,
    trim_trailing_newline,
};
use nextdb_server::model::Message;

fn message(room_id: &str, id: &str, lsn: u64, created_at_ms: u64) -> Message {
    Message {
        id: id.to_string(),
        room_id: room_id.to_string(),
        sender_id: "user-a".to_string(),
        body: id.to_string(),
        attachments: Vec::new(),
        created_at_ms,
        lsn,
        path: format!("rooms/{room_id}/messages/{id}"),
    }
}

fn entry(offset: u64, len: u64) -> ChatLogIndexEntry {
    ChatLogIndexEntry { lsn: offset + 1, created_at_ms: 0, id: format!("m{offset}"), offset, len }
}

#[test]
fn messages_order_by_lsn_else_by_time_and_id() {
    assert_eq!(compare_message_order(&message("r", "b", 2, 9), &message("r", "a", 3, 1)), Ordering::Less);
    assert_eq!(compare_message_order(&message("r", "b", 0, 5), &message("r", "a", 3, 5)), Ordering::Greater);
    assert_eq!(compare_message_order(&message("r", "a", 0, 5), &message("r", "a", 0, 5)), Ordering::Equal);
    assert_eq!(compare_message_order(&message("r", "a", 0, 4), &message("r", "z", 0, 5)), Ordering::Less);
    let left = entry(0, 1);
    let right = entry(1, 1);
    assert_eq!(compare_index_order(&left, &right), Ordering::Less);
}

#[test]
fn message_keys_list_a_room_newest_first() {
    let key = chat_log_message_key(&message("r", "m", 5, 7));
    let mut expected = b"r\0".to_vec();
    expected.extend_from_slice(format!("{:020}", u64::MAX - 5).as_bytes());
    expected.push(0);
    expected.extend_from_slice(format!("{:020}", u64::MAX - 7).as_bytes());
    expected.push(0);
    expected.extend_from_slice(b"m");
    assert_eq!(key, expected);
    assert!(chat_log_message_key(&message("r", "z", 9, 1)) < chat_log_message_key(&message("r", "a", 8, 99)));
    assert_eq!(chat_log_room_prefix("room"), b"room\0".to_vec());
    assert_eq!(chat_log_ref_key("room", "m1"), b"room\0m1".to_vec());
}

#[test]
fn bucket_index_must_cover_its_data_file() {
    assert!(index_covers_data_file(&vec![], 0));
    assert!(!index_covers_data_file(&vec![], 3));
    assert!(index_covers_data_file(&vec![entry(4, 2), entry(0, 4)], 6));
    assert!(!index_covers_data_file(&vec![entry(0, 4), entry(5, 1)], 6));
    assert!(!index_covers_data_file(&vec![entry(0, 4)], 6));
    assert!(!index_covers_data_file(&vec![entry(0, 7)], 6));
    assert!(!index_covers_data_file(&vec![entry(0, u64::MAX), entry(u64::MAX, 2)], u64::MAX));
}

#[test]
fn trailing_newline_and_index_path() {
    assert_eq!(trim_trailing_newline(b"abc\n"), b"abc");
    assert_eq!(trim_trailing_newline(b"abc"), b"abc");
    assert_eq!(trim_trailing_newline(b""), b"");
    assert_eq!(index_path_for_bucket("rooms/ab/bucket-3.jsonl"), "rooms/ab/bucket-3.idx");
}
