use dockery::decode::{decode_catalog, decode_created, decode_tags, decode_v2};
use dockery::DecodeError;

#[test]
fn catalog_lists_repositories_in_order() {
    let body = br#"{"repositories":["a","b"]}"#.to_vec();
    let repos = decode_catalog(&body).unwrap();
    assert_eq!(repos, vec![b"a".to_vec(), b"b".to_vec()]);
}

#[test]
fn catalog_absent_field_is_empty() {
    let body = b"{}".to_vec();
    assert_eq!(decode_catalog(&body).unwrap(), Vec::<Vec<u8>>::new());
}

#[test]
fn catalog_null_field_is_empty() {
    let body = br#"{"repositories":null}"#.to_vec();
    assert_eq!(decode_catalog(&body).unwrap(), Vec::<Vec<u8>>::new());
}

#[test]
fn catalog_empty_array() {
    let body = br#"{ "repositories" : [ ] }"#.to_vec();
    assert_eq!(decode_catalog(&body).unwrap(), Vec::<Vec<u8>>::new());
}

#[test]
fn catalog_skips_unknown_members() {
    let body = br#"{"n":7,"x":[{"y":false}],"repositories":["r1"],"z":null}"#.to_vec();
    assert_eq!(decode_catalog(&body).unwrap(), vec![b"r1".to_vec()]);
}

#[test]
fn catalog_rejects_wrong_type() {
    let body = br#"{"repositories":"a"}"#.to_vec();
    assert_eq!(decode_catalog(&body), Err(DecodeError::Body));
}

#[test]
fn catalog_rejects_trailing_garbage() {
    let body = br#"{"repositories":["a"]} x"#.to_vec();
    assert_eq!(decode_catalog(&body), Err(DecodeError::Body));
}

#[test]
fn catalog_rejects_non_object() {
    assert_eq!(decode_catalog(&b"[]".to_vec()), Err(DecodeError::Body));
    assert_eq!(decode_catalog(&b"".to_vec()), Err(DecodeError::Body));
}

#[test]
fn tags_absent_field_is_empty() {
    let body = b" {} ".to_vec();
    assert_eq!(decode_tags(&body).unwrap(), Vec::<Vec<u8>>::new());
}

#[test]
fn tags_lists_tags() {
    let body = br#"{"name":"repo","tags":["v1","latest"]}"#.to_vec();
    assert_eq!(decode_tags(&body).unwrap(), vec![b"v1".to_vec(), b"latest".to_vec()]);
}

#[test]
fn tag_with_escapes() {
    let body = br#"{"tags":["a\"b","A\n"]}"#.to_vec();
    assert_eq!(
        decode_tags(&body).unwrap(),
        vec![b"a\"b".to_vec(), b"A\n".to_vec()]
    );
}

#[test]
fn created_round_trips_the_embedded_document() {
    let body =
        br#"{"history":[{"v1Compatibility":"{\"created\":\"2023-01-01T00:00:00Z\"}"}]}"#.to_vec();
    assert_eq!(
        decode_created(&body).unwrap(),
        b"2023-01-01T00:00:00Z".to_vec()
    );
}

#[test]
fn created_uses_only_the_first_history_entry() {
    let body = br#"{"schemaVersion":1,"history":[{"v1Compatibility":"{\"id\":\"x\",\"created\":\"2020-05-05T01:02:03Z\"}"},{"v1Compatibility":"{\"created\":\"1999-01-01T00:00:00Z\"}"}]}"#
        .to_vec();
    assert_eq!(
        decode_created(&body).unwrap(),
        b"2020-05-05T01:02:03Z".to_vec()
    );
}

#[test]
fn created_fails_on_empty_history() {
    let body = br#"{"history":[]}"#.to_vec();
    assert_eq!(decode_created(&body), Err(DecodeError::Body));
}

#[test]
fn created_fails_on_invalid_embedded_document() {
    let body = br#"{"history":[{"v1Compatibility":"not json"}]}"#.to_vec();
    assert_eq!(decode_created(&body), Err(DecodeError::Body));
}

#[test]
fn v2_extracts_digest_and_sizes() {
    let body = br#"{"schemaVersion":2,"config":{"mediaType":"m","size":7,"digest":"sha256:abc"},"layers":[{"mediaType":"m","size":10,"digest":"sha256:l1"},{"size":32}]}"#
        .to_vec();
    let (digest, sizes) = decode_v2(&body).unwrap();
    assert_eq!(digest, b"sha256:abc".to_vec());
    assert_eq!(sizes, vec![10, 32]);
}

#[test]
fn v2_accepts_empty_layers() {
    let body = br#"{"config":{"digest":"d"},"layers":[]}"#.to_vec();
    let (_, sizes) = decode_v2(&body).unwrap();
    assert_eq!(sizes, Vec::<u64>::new());
}

#[test]
fn v2_fails_without_config_digest() {
    let body = br#"{"config":{},"layers":[]}"#.to_vec();
    assert_eq!(decode_v2(&body), Err(DecodeError::Body));
}

#[test]
fn v2_fails_without_layers() {
    let body = br#"{"config":{"digest":"d"}}"#.to_vec();
    assert_eq!(decode_v2(&body), Err(DecodeError::Body));
}

#[test]
fn v2_fails_on_layer_without_size() {
    let body = br#"{"config":{"digest":"d"},"layers":[{"digest":"x"}]}"#.to_vec();
    assert_eq!(decode_v2(&body), Err(DecodeError::Body));
}

#[test]
fn unicode_escapes_decode_to_utf8() {
    let body = br#"{"tags":["A\u00e9\u4e2d"]}"#.to_vec();
    let tags = decode_tags(&body).unwrap();
    assert_eq!(tags, vec!["A\u{e9}\u{4e2d}".as_bytes().to_vec()]);
}

#[test]
fn raw_utf8_bytes_pass_through() {
    let mut body = b"{\"tags\":[\"".to_vec();
    body.extend_from_slice("\u{e9}".as_bytes());
    body.extend_from_slice(b"\"]}");
    let tags = decode_tags(&body).unwrap();
    assert_eq!(tags, vec!["\u{e9}".as_bytes().to_vec()]);
}

#[test]
fn surrogate_pair_escape_decodes_to_utf8() {
    let body = br#"{"tags":["\ud83d\ude00"]}"#.to_vec();
    let tags = decode_tags(&body).unwrap();
    assert_eq!(tags, vec!["\u{1f600}".as_bytes().to_vec()]);
}

#[test]
fn lone_surrogate_escape_is_malformed() {
    let body = br#"{"tags":["\ud83d"]}"#.to_vec();
    assert!(decode_tags(&body).is_err());
    let body = br#"{"tags":["\ude00"]}"#.to_vec();
    assert!(decode_tags(&body).is_err());
}
