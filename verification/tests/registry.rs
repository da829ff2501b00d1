use dockery::registry::{
    delete_outcome, digest_for_delete, image_id, image_info, layer_total, records_of, DeleteError,
    ImageInfo, ListEntry,
};
use dockery::{probe_ok, DecodeError};

#[test]
fn probe_accepts_2xx_only() {
    assert!(probe_ok(200));
    assert!(probe_ok(299));
    assert!(!probe_ok(199));
    assert!(!probe_ok(301));
    assert!(!probe_ok(500));
}

#[test]
fn image_id_is_first_twelve_of_hash() {
    let digest = b"sha256:0123456789abcdef0123".to_vec();
    assert_eq!(image_id(&digest).unwrap(), b"0123456789ab".to_vec());
}

#[test]
fn image_id_takes_last_colon_segment() {
    let digest = b"a:b:0123456789abcdef".to_vec();
    assert_eq!(image_id(&digest).unwrap(), b"0123456789ab".to_vec());
}

#[test]
fn image_id_exactly_twelve() {
    let digest = b"sha256:0123456789ab".to_vec();
    assert_eq!(image_id(&digest).unwrap(), b"0123456789ab".to_vec());
}

#[test]
fn short_hash_is_a_decode_error() {
    let digest = b"sha256:0123456789a".to_vec();
    assert_eq!(image_id(&digest), Err(DecodeError::Digest));
}

#[test]
fn digest_without_separator_is_a_decode_error() {
    let digest = b"0123456789abcdef".to_vec();
    assert_eq!(image_id(&digest), Err(DecodeError::Digest));
}

#[test]
fn layer_sum_is_exact_beyond_32_bits() {
    let sizes: Vec<u64> = vec![4294967296, 5000000000, 17];
    assert_eq!(layer_total(&sizes), 9294967313u128);
}

#[test]
fn layer_sum_of_maximal_sizes_does_not_wrap() {
    let sizes: Vec<u64> = vec![u64::MAX, u64::MAX];
    assert_eq!(layer_total(&sizes), 2 * (u64::MAX as u128));
}

#[test]
fn image_info_combines_both_manifests() {
    let history =
        br#"{"history":[{"v1Compatibility":"{\"created\":\"2023-01-01T00:00:00Z\"}"}]}"#.to_vec();
    let v2 = br#"{"config":{"digest":"sha256:aabbccddeeff0011"},"layers":[{"size":4294967296},{"size":5000000000}]}"#
        .to_vec();
    let info = image_info(&history, &v2).unwrap();
    assert_eq!(info.image_id, b"aabbccddeeff".to_vec());
    assert_eq!(info.created, b"2023-01-01T00:00:00Z".to_vec());
    assert_eq!(info.size_bytes, 9294967296u128);
}

#[test]
fn image_info_reports_short_digest() {
    let history =
        br#"{"history":[{"v1Compatibility":"{\"created\":\"2023-01-01T00:00:00Z\"}"}]}"#.to_vec();
    let v2 = br#"{"config":{"digest":"sha256:ab"},"layers":[]}"#.to_vec();
    assert_eq!(image_info(&history, &v2), Err(DecodeError::Digest));
}

fn entry(repo: &[u8], tag: &[u8], ok: bool) -> ListEntry {
    ListEntry {
        repository: repo.to_vec(),
        tag: tag.to_vec(),
        info: if ok {
            Ok(ImageInfo {
                image_id: b"0123456789ab".to_vec(),
                created: b"2023-01-01T00:00:00Z".to_vec(),
                size_bytes: 5,
            })
        } else {
            Err(DecodeError::Body)
        },
    }
}

#[test]
fn listing_keeps_every_successful_pair() {
    let rows = records_of(vec![entry(b"a", b"v1", true), entry(b"b", b"v1", true)]);
    assert_eq!(rows.len(), 2);
    assert_eq!(rows[0].repository, b"a".to_vec());
    assert_eq!(rows[1].repository, b"b".to_vec());
    assert_eq!(rows[0].tag, b"v1".to_vec());
    assert_eq!(rows[0].size_bytes, 5);
}

#[test]
fn listing_skips_a_failed_pair_and_keeps_the_rest() {
    let rows = records_of(vec![entry(b"a", b"v1", false), entry(b"b", b"v1", true)]);
    assert_eq!(rows.len(), 1);
    assert_eq!(rows[0].repository, b"b".to_vec());
    assert_eq!(rows[0].tag, b"v1".to_vec());
}

#[test]
fn listing_two_repositories_end_to_end() {
    let catalog = br#"{"repositories":["a","b"]}"#.to_vec();
    let tags_body = br#"{"tags":["v1"]}"#.to_vec();
    let history =
        br#"{"history":[{"v1Compatibility":"{\"created\":\"2023-01-01T00:00:00Z\"}"}]}"#.to_vec();
    let good_v2 =
        br#"{"config":{"digest":"sha256:0123456789abcdef"},"layers":[{"size":3}]}"#.to_vec();
    let bad_v2 = b"not json".to_vec();

    let repos = dockery::decode::decode_catalog(&catalog).unwrap();
    assert_eq!(repos.len(), 2);
    let mut entries = Vec::new();
    for repo in &repos {
        let tags = dockery::decode::decode_tags(&tags_body).unwrap();
        for tag in tags {
            // The metadata fetch fails for a:v1 and succeeds for b:v1.
            let v2 = if repo == b"a" { &bad_v2 } else { &good_v2 };
            entries.push(ListEntry {
                repository: repo.clone(),
                tag,
                info: image_info(&history, v2),
            });
        }
    }

    // Both pairs succeed when both manifests decode: with the good body for
    // every pair there would be exactly two records.
    let all_good: Vec<ListEntry> = entries
        .iter()
        .map(|e| ListEntry {
            repository: e.repository.clone(),
            tag: e.tag.clone(),
            info: image_info(&history, &good_v2),
        })
        .collect();
    assert_eq!(records_of(all_good).len(), 2);

    // With a:v1 failing, b:v1 must still be listed.
    let rows = records_of(entries);
    assert_eq!(rows.len(), 1);
    assert_eq!(rows[0].repository, b"b".to_vec());
    assert_eq!(rows[0].tag, b"v1".to_vec());
    assert_eq!(rows[0].image_id, b"0123456789ab".to_vec());
    assert_eq!(rows[0].size_bytes, 3);
}

#[test]
fn missing_digest_header_is_not_found() {
    assert_eq!(digest_for_delete(None), Err(DeleteError::NotFound));
}

#[test]
fn present_digest_header_is_the_delete_target() {
    assert_eq!(
        digest_for_delete(Some(b"sha256:abc".to_vec())),
        Ok(b"sha256:abc".to_vec())
    );
}

#[test]
fn delete_succeeds_on_2xx() {
    assert_eq!(delete_outcome(200), Ok(()));
    assert_eq!(delete_outcome(202), Ok(()));
}

#[test]
fn delete_404_reports_the_status_and_is_repeatable() {
    assert_eq!(delete_outcome(404), Err(DeleteError::Failed(404)));
    assert_eq!(delete_outcome(404), Err(DeleteError::Failed(404)));
    assert_eq!(delete_outcome(500), Err(DeleteError::Failed(500)));
}
