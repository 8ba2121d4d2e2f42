use student_intro::codec::deserialize_record;
use student_intro::codec::serialize_record;
use student_intro::codec::write_record;
use student_intro::state::StudentIntroAccountState;

fn record(init: bool, name: &str, msg: &str) -> StudentIntroAccountState {
    StudentIntroAccountState { is_initialized: init, name: name.to_string(), msg: msg.to_string() }
}

#[test]
fn serialize_exact_bytes() {
    let bytes = serialize_record(&record(true, "alice", "hello"));
    let mut expected: Vec<u8> = vec![1u8, 5, 0, 0, 0];
    expected.extend_from_slice(b"alice");
    expected.extend_from_slice(&[5, 0, 0, 0]);
    expected.extend_from_slice(b"hello");
    assert_eq!(bytes, expected);
}

#[test]
fn serialize_matches_borsh_layout() {
    // The persisted layout is exactly what borsh produces for
    // (bool, String, String).
    let ours = serialize_record(&record(true, "alice", "hello"));
    let theirs =
        borsh::to_vec(&(true, "alice".to_string(), "hello".to_string())).unwrap();
    assert_eq!(ours, theirs);

    let ours2 = serialize_record(&record(false, "", "héllo wörld ☃"));
    let theirs2 =
        borsh::to_vec(&(false, String::new(), "héllo wörld ☃".to_string())).unwrap();
    assert_eq!(ours2, theirs2);
}

#[test]
fn round_trip_ascii() {
    let r = record(true, "alice", "hello world");
    let back = deserialize_record(&serialize_record(&r)).unwrap();
    assert_eq!(back, r);
}

#[test]
fn round_trip_unicode() {
    let r = record(true, "héllo wörld", "snow: ☃ and music: 𝄞");
    let back = deserialize_record(&serialize_record(&r)).unwrap();
    assert_eq!(back, r);
}

#[test]
fn round_trip_empty_texts() {
    let r = record(false, "", "");
    let back = deserialize_record(&serialize_record(&r)).unwrap();
    assert_eq!(back, r);
}

#[test]
fn round_trip_capacity_sized() {
    // 1 + 4 + 5 + 4 + 986 == 1000, the full fixed capacity.
    let r = record(true, "abcde", &"x".repeat(986));
    let back = deserialize_record(&serialize_record(&r)).unwrap();
    assert_eq!(back, r);
}

#[test]
fn deserialize_ignores_trailing_padding() {
    let r = record(true, "alice", "hello");
    let mut bytes = serialize_record(&r);
    bytes.resize(1000, 0u8);
    let back = deserialize_record(&bytes).unwrap();
    assert_eq!(back, r);
}

#[test]
fn deserialize_rejects_empty() {
    assert!(deserialize_record(&[]).is_none());
}

#[test]
fn deserialize_rejects_bad_flag() {
    let mut bytes = serialize_record(&record(true, "alice", "hello"));
    bytes[0] = 2;
    assert!(deserialize_record(&bytes).is_none());
}

#[test]
fn deserialize_rejects_truncated_length_prefix() {
    assert!(deserialize_record(&[1u8, 5, 0]).is_none());
}

#[test]
fn deserialize_rejects_length_beyond_buffer() {
    // Name length 200 with only five bytes of content behind it.
    let bytes = vec![1u8, 200, 0, 0, 0, b'a', b'b', b'c', b'd', b'e'];
    assert!(deserialize_record(&bytes).is_none());
}

#[test]
fn deserialize_rejects_invalid_utf8() {
    let bytes = vec![1u8, 2, 0, 0, 0, 0xff, 0xfe, 0, 0, 0, 0];
    assert!(deserialize_record(&bytes).is_none());
}

#[test]
fn write_record_keeps_padding() {
    let mut data = vec![9u8; 1000];
    write_record(&mut data, &record(true, "a", "b"));
    let encoded = serialize_record(&record(true, "a", "b"));
    assert_eq!(&data[..encoded.len()], &encoded[..]);
    assert!(data[encoded.len()..].iter().all(|&b| b == 9));
    assert_eq!(data.len(), 1000);
}
