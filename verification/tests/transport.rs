use dockery::transport::{
    accept_manifest_list_v2, accept_manifest_v2, catalog_path, manifests_path, probe_path,
    tags_path,
};

#[test]
fn probe_and_catalog_paths() {
    assert_eq!(probe_path(), b"/v2".to_vec());
    assert_eq!(catalog_path(), b"/v2/_catalog".to_vec());
}

#[test]
fn tag_list_path_embeds_the_repository() {
    assert_eq!(
        tags_path(&b"library/redis".to_vec()),
        b"/v2/library/redis/tags/list".to_vec()
    );
}

#[test]
fn manifest_path_embeds_repository_and_reference() {
    assert_eq!(
        manifests_path(&b"r".to_vec(), &b"v1".to_vec()),
        b"/v2/r/manifests/v1".to_vec()
    );
    assert_eq!(
        manifests_path(&b"r".to_vec(), &b"sha256:abc".to_vec()),
        b"/v2/r/manifests/sha256:abc".to_vec()
    );
}

#[test]
fn accept_header_values() {
    assert_eq!(
        accept_manifest_v2(),
        b"application/vnd.docker.distribution.manifest.v2+json".to_vec()
    );
    assert_eq!(
        accept_manifest_list_v2(),
        b"application/vnd.docker.distribution.manifest.list.v2+json".to_vec()
    );
}
