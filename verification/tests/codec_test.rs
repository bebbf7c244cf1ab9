use novelter::codec::{compress_chapters, decompress_chapters};

fn round_trip(paragraphs: Vec<&str>) {
    let input: Vec<String> = paragraphs.iter().map(|s| s.to_string()).collect();
    let packed = compress_chapters(&input).expect("encoding failed");
    let unpacked = decompress_chapters(&packed).expect("decoding failed");
    assert_eq!(unpacked, input);
}

#[test]
fn round_trip_empty_list() {
    round_trip(vec![]);
}

#[test]
fn round_trip_basic_list() {
    round_trip(vec!["first paragraph", "second paragraph", ""]);
}

#[test]
fn round_trip_awkward_text() {
    round_trip(vec!["a \"quoted\" piece", "back\\slash", "tab\there", "ĉapitro unu — §2"]);
}

#[test]
fn payload_is_really_compressed_json() {
    let input: Vec<String> = vec!["aaaaaaaaaaaaaaaaaaaaaaaaaaaaaaaa".repeat(50)];
    let packed = compress_chapters(&input).expect("encoding failed");
    let plain = serde_json::to_vec(&input).expect("json");
    assert_ne!(packed, plain);
    assert!(packed.len() < plain.len());
    let direct = zstd::decode_all(packed.as_slice()).expect("zstd frame");
    assert_eq!(direct, plain);
}

#[test]
fn garbage_payload_is_rejected() {
    assert!(decompress_chapters(&vec![1u8, 2, 3, 4]).is_none());
}
