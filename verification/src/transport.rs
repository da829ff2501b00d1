//! The request lines of the registry's v2 API: the paths of the probe,
//! catalog, tag-list, manifest and delete calls, and the Accept header
//! values the manifest calls carry.  The surrounding application prefixes a
//! path with `http://{endpoint}` and performs the call; what it sends on
//! the wire is exactly what these builders return.

use vstd::prelude::*;

verus! {

/// The bytes of `"/v2"`, the liveness-probe path.
pub open spec fn probe_path_spec() -> Seq<u8> {
    seq![47u8, 118u8, 50u8]
}

/// The bytes of `"/v2/_catalog"`.
pub open spec fn catalog_path_spec() -> Seq<u8> {
    probe_path_spec() + seq![47u8, 95u8, 99u8, 97u8, 116u8, 97u8, 108u8, 111u8, 103u8]
}

/// The bytes of `"/v2/{repo}/tags/list"`.
pub open spec fn tags_path_spec(repo: Seq<u8>) -> Seq<u8> {
    probe_path_spec() + seq![47u8] + repo + seq![
        47u8, 116u8, 97u8, 103u8, 115u8, 47u8, 108u8, 105u8, 115u8, 116u8,
    ]
}

/// The bytes of `"/v2/{repo}/manifests/{reference}"`; the reference is a
/// tag for the fetches and a content digest for the delete.
pub open spec fn manifests_path_spec(repo: Seq<u8>, reference: Seq<u8>) -> Seq<u8> {
    probe_path_spec() + seq![47u8] + repo + seq![
        47u8, 109u8, 97u8, 110u8, 105u8, 102u8, 101u8, 115u8, 116u8, 115u8, 47u8,
    ] + reference
}

/// The bytes of `"application/vnd.docker.distribution.manifest.v2+json"`.
pub open spec fn accept_manifest_v2_spec() -> Seq<u8> {
    seq![
        97u8, 112u8, 112u8, 108u8, 105u8, 99u8, 97u8, 116u8, 105u8, 111u8, 110u8, 47u8, 118u8,
        110u8, 100u8, 46u8, 100u8, 111u8, 99u8, 107u8, 101u8, 114u8, 46u8, 100u8, 105u8, 115u8,
        116u8, 114u8, 105u8, 98u8, 117u8, 116u8, 105u8, 111u8, 110u8, 46u8, 109u8, 97u8, 110u8,
        105u8, 102u8, 101u8, 115u8, 116u8, 46u8, 118u8, 50u8, 43u8, 106u8, 115u8, 111u8, 110u8,
    ]
}

/// The bytes of
/// `"application/vnd.docker.distribution.manifest.list.v2+json"`.
pub open spec fn accept_manifest_list_v2_spec() -> Seq<u8> {
    seq![
        97u8, 112u8, 112u8, 108u8, 105u8, 99u8, 97u8, 116u8, 105u8, 111u8, 110u8, 47u8, 118u8,
        110u8, 100u8, 46u8, 100u8, 111u8, 99u8, 107u8, 101u8, 114u8, 46u8, 100u8, 105u8, 115u8,
        116u8, 114u8, 105u8, 98u8, 117u8, 116u8, 105u8, 111u8, 110u8, 46u8, 109u8, 97u8, 110u8,
        105u8, 102u8, 101u8, 115u8, 116u8, 46u8, 108u8, 105u8, 115u8, 116u8, 46u8, 118u8, 50u8,
        43u8, 106u8, 115u8, 111u8, 110u8,
    ]
}

/// Appends every byte of `src` to `dst`.
fn append_bytes(dst: &mut Vec<u8>, src: &Vec<u8>)
    ensures
        final(dst)@ == old(dst)@ + src@,
{
    let ghost pre = dst@;
    let mut k: usize = 0;
    while k < src.len()
        invariant
            k <= src.len(),
            dst@ == pre + src@.take(k as int),
        decreases src.len() - k,
    {
        dst.push(src[k]);
        assert(dst@ =~= pre + src@.take(k as int + 1));
        k = k + 1;
    }
    assert(dst@ =~= pre + src@);
}

/// Builds the probe path `/v2`.
pub fn probe_path() -> (r: Vec<u8>)
    ensures
        r@ == probe_path_spec(),
{
    let v = vec![47u8, 118u8, 50u8];
    assert(v@ =~= probe_path_spec());
    v
}

/// Builds the catalog path `/v2/_catalog`.
pub fn catalog_path() -> (r: Vec<u8>)
    ensures
        r@ == catalog_path_spec(),
{
    let v = vec![47u8, 118u8, 50u8, 47u8, 95u8, 99u8, 97u8, 116u8, 97u8, 108u8, 111u8, 103u8];
    assert(v@ =~= catalog_path_spec());
    v
}

/// Builds the tag-list path `/v2/{repo}/tags/list`.
pub fn tags_path(repo: &Vec<u8>) -> (r: Vec<u8>)
    ensures
        r@ == tags_path_spec(repo@),
{
    let mut v = vec![47u8, 118u8, 50u8, 47u8];
    append_bytes(&mut v, repo);
    let suffix = vec![47u8, 116u8, 97u8, 103u8, 115u8, 47u8, 108u8, 105u8, 115u8, 116u8];
    append_bytes(&mut v, &suffix);
    assert(v@ =~= tags_path_spec(repo@));
    v
}

/// Builds the manifest path `/v2/{repo}/manifests/{reference}`.
pub fn manifests_path(repo: &Vec<u8>, reference: &Vec<u8>) -> (r: Vec<u8>)
    ensures
        r@ == manifests_path_spec(repo@, reference@),
{
    let mut v = vec![47u8, 118u8, 50u8, 47u8];
    append_bytes(&mut v, repo);
    let mid = vec![47u8, 109u8, 97u8, 110u8, 105u8, 102u8, 101u8, 115u8, 116u8, 115u8, 47u8];
    append_bytes(&mut v, &mid);
    append_bytes(&mut v, reference);
    assert(v@ =~= manifests_path_spec(repo@, reference@));
    v
}

/// Builds the Accept header value for the v2 manifest shape.
pub fn accept_manifest_v2() -> (r: Vec<u8>)
    ensures
        r@ == accept_manifest_v2_spec(),
{
    let v = vec![
        97u8, 112u8, 112u8, 108u8, 105u8, 99u8, 97u8, 116u8, 105u8, 111u8, 110u8, 47u8, 118u8,
        110u8, 100u8, 46u8, 100u8, 111u8, 99u8, 107u8, 101u8, 114u8, 46u8, 100u8, 105u8, 115u8,
        116u8, 114u8, 105u8, 98u8, 117u8, 116u8, 105u8, 111u8, 110u8, 46u8, 109u8, 97u8, 110u8,
        105u8, 102u8, 101u8, 115u8, 116u8, 46u8, 118u8, 50u8, 43u8, 106u8, 115u8, 111u8, 110u8,
    ];
    assert(v@ =~= accept_manifest_v2_spec());
    v
}

/// Builds the Accept header value for the manifest-list variant.
pub fn accept_manifest_list_v2() -> (r: Vec<u8>)
    ensures
        r@ == accept_manifest_list_v2_spec(),
{
    let v = vec![
        97u8, 112u8, 112u8, 108u8, 105u8, 99u8, 97u8, 116u8, 105u8, 111u8, 110u8, 47u8, 118u8,
        110u8, 100u8, 46u8, 100u8, 111u8, 99u8, 107u8, 101u8, 114u8, 46u8, 100u8, 105u8, 115u8,
        116u8, 114u8, 105u8, 98u8, 117u8, 116u8, 105u8, 111u8, 110u8, 46u8, 109u8, 97u8, 110u8,
        105u8, 102u8, 101u8, 115u8, 116u8, 46u8, 108u8, 105u8, 115u8, 116u8, 46u8, 118u8, 50u8,
        43u8, 106u8, 115u8, 111u8, 110u8,
    ];
    assert(v@ =~= accept_manifest_list_v2_spec());
    v
}

} // verus!
