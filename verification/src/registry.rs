//! Derived values and decisions of the registry client.
//!
//! The surrounding application performs the HTTP calls and hands the raw
//! pieces — bodies, the digest header, status codes — to the functions
//! here: image ids are derived from content digests, layer sizes are summed
//! exactly, listing rows are assembled with per-image failures skipped, and
//! the outcome of a delete is decided from the header and the status code.

use vstd::prelude::*;

use crate::DecodeError;
use crate::json::COLON;

verus! {

/// Index of the last `:` in `d` strictly before `i`.
pub open spec fn last_colon_before(d: Seq<u8>, i: int) -> Option<int>
    decreases i,
{
    if i <= 0 || i > d.len() {
        None
    } else if d[i - 1] == COLON {
        Some(i - 1)
    } else {
        last_colon_before(d, i - 1)
    }
}

/// The image id of a content digest `algorithm:hex`: the first twelve
/// characters of the part after the last `:`.  A digest without `:`, or
/// with fewer than twelve characters after it, has none.
pub open spec fn image_id_of(d: Seq<u8>) -> Option<Seq<u8>> {
    match last_colon_before(d, d.len() as int) {
        None => None,
        Some(p) => {
            let h = d.subrange(p + 1, d.len() as int);
            if h.len() < 12 {
                None
            } else {
                Some(h.take(12))
            }
        },
    }
}

fn last_colon_before_x(d: &Vec<u8>, i: usize) -> (r: Option<usize>)
    requires
        i <= d.len(),
    ensures
        match r {
            Some(p) => last_colon_before(d@, i as int) == Some(p as int) && p < i,
            None => last_colon_before(d@, i as int) is None,
        },
    decreases i,
{
    if i == 0 {
        None
    } else if d[i - 1] == COLON {
        Some(i - 1)
    } else {
        last_colon_before_x(d, i - 1)
    }
}

/// Derives the image id from a content digest.
pub fn image_id(digest: &Vec<u8>) -> (r: Result<Vec<u8>, DecodeError>)
    ensures
        match r {
            Ok(id) => image_id_of(digest@) == Some(id@),
            Err(e) => image_id_of(digest@) is None && e == DecodeError::Digest,
        },
{
    match last_colon_before_x(digest, digest.len()) {
        None => Err(DecodeError::Digest),
        Some(p) => {
            if digest.len() - (p + 1) < 12 {
                Err(DecodeError::Digest)
            } else {
                let mut id: Vec<u8> = Vec::new();
                let mut k: usize = 0;
                while k < 12
                    invariant
                        k <= 12,
                        p + 13 <= digest.len(),
                        id@.len() == k,
                        forall|m: int| 0 <= m < k ==> id@[m] == digest@[p + 1 + m],
                    decreases 12 - k,
                {
                    id.push(digest[p + 1 + k]);
                    k = k + 1;
                }
                assert(id@ =~= digest@.subrange(p as int + 1, digest@.len() as int).take(12));
                Ok(id)
            }
        },
    }
}

/// The exact sum of a sequence of layer sizes.
pub open spec fn sum_of(l: Seq<u64>) -> int
    decreases l.len(),
{
    if l.len() == 0 {
        0
    } else {
        sum_of(l.drop_last()) + l.last()
    }
}

proof fn lemma_sum_bound(l: Seq<u64>)
    ensures
        0 <= sum_of(l) <= l.len() * u64::MAX,
    decreases l.len(),
{
    if l.len() == 0 {
    } else {
        lemma_sum_bound(l.drop_last());
        assert(sum_of(l) <= (l.len() - 1) * u64::MAX + u64::MAX);
        assert((l.len() - 1) * u64::MAX + u64::MAX == l.len() * u64::MAX) by (nonlinear_arith);
    }
}

/// Sums the layer sizes into an accumulator wide enough that no sequence of
/// `u64` sizes can wrap it.
pub fn layer_total(sizes: &Vec<u64>) -> (r: u128)
    ensures
        r == sum_of(sizes@),
{
    let mut acc: u128 = 0;
    let mut k: usize = 0;
    while k < sizes.len()
        invariant
            k <= sizes.len(),
            acc == sum_of(sizes@.take(k as int)),
        decreases sizes.len() - k,
    {
        proof {
            lemma_sum_bound(sizes@.take(k as int));
            assert(sizes@.take(k as int).len() * u64::MAX <= (u64::MAX as int) * (
            u64::MAX as int)) by (nonlinear_arith)
                requires
                    sizes@.take(k as int).len() <= u64::MAX,
            ;
            assert(sizes@.take(k as int + 1).drop_last() =~= sizes@.take(k as int));
        }
        acc = acc + sizes[k] as u128;
        k = k + 1;
    }
    assert(sizes@.take(sizes@.len() as int) =~= sizes@);
    acc
}

/// Metadata derived from the two manifest fetches of one image.
#[derive(Debug, PartialEq, Eq)]
pub struct ImageInfo {
    /// First twelve characters of the digest's hash part.
    pub image_id: Vec<u8>,
    /// Creation timestamp, as the registry reported it.
    pub created: Vec<u8>,
    /// Exact sum of the layer sizes.
    pub size_bytes: u128,
}

pub struct InfoView {
    pub image_id: Seq<u8>,
    pub created: Seq<u8>,
    pub size_bytes: u128,
}

impl View for ImageInfo {
    type V = InfoView;

    open spec fn view(&self) -> InfoView {
        InfoView { image_id: self.image_id@, created: self.created@, size_bytes: self.size_bytes }
    }
}

/// Derives an image's metadata from its two manifest bodies: the history
/// shape yields the creation time, the v2 shape the digest and the layer
/// sizes.  Both decodes must succeed.
pub fn image_info(history_body: &Vec<u8>, v2_body: &Vec<u8>) -> (r: Result<ImageInfo, DecodeError>)
    ensures
        match r {
            Ok(info) => {
                &&& crate::decode::created_of(history_body@) == Some(info.created@)
                &&& crate::decode::v2_of(v2_body@) matches Some((d, sizes)) && image_id_of(d)
                    == Some(info.image_id@) && info.size_bytes == sum_of(sizes)
            },
            Err(e) => if e == DecodeError::Body {
                crate::decode::created_of(history_body@) is None || crate::decode::v2_of(
                    v2_body@,
                ) is None
            } else {
                &&& e == DecodeError::Digest
                &&& crate::decode::created_of(history_body@) is Some
                &&& (crate::decode::v2_of(v2_body@) matches Some((d, _)) && image_id_of(d) is None)
            },
        },
{
    let created = match crate::decode::decode_created(history_body) {
        Ok(c) => c,
        Err(e) => {
            return Err(e);
        },
    };
    let (digest, sizes) = match crate::decode::decode_v2(v2_body) {
        Ok(p) => p,
        Err(e) => {
            return Err(e);
        },
    };
    let id = match image_id(&digest) {
        Ok(id) => id,
        Err(e) => {
            return Err(e);
        },
    };
    let total = layer_total(&sizes);
    Ok(ImageInfo { image_id: id, created, size_bytes: total })
}

/// One row of the listing.
pub struct ImageRecord {
    pub repository: Vec<u8>,
    pub tag: Vec<u8>,
    pub image_id: Vec<u8>,
    pub created: Vec<u8>,
    pub size_bytes: u128,
}

pub struct RecordView {
    pub repository: Seq<u8>,
    pub tag: Seq<u8>,
    pub image_id: Seq<u8>,
    pub created: Seq<u8>,
    pub size_bytes: u128,
}

impl View for ImageRecord {
    type V = RecordView;

    open spec fn view(&self) -> RecordView {
        RecordView {
            repository: self.repository@,
            tag: self.tag@,
            image_id: self.image_id@,
            created: self.created@,
            size_bytes: self.size_bytes,
        }
    }
}

/// One enumerated (repository, tag) pair together with the outcome of its
/// metadata fetch.
pub struct ListEntry {
    pub repository: Vec<u8>,
    pub tag: Vec<u8>,
    pub info: Result<ImageInfo, DecodeError>,
}

pub struct EntryView {
    pub repository: Seq<u8>,
    pub tag: Seq<u8>,
    pub info: Option<InfoView>,
}

impl View for ListEntry {
    type V = EntryView;

    open spec fn view(&self) -> EntryView {
        EntryView {
            repository: self.repository@,
            tag: self.tag@,
            info: match self.info {
                Ok(i) => Some(i@),
                Err(_) => None,
            },
        }
    }
}

pub open spec fn record_of_entry(e: EntryView, iv: InfoView) -> RecordView {
    RecordView {
        repository: e.repository,
        tag: e.tag,
        image_id: iv.image_id,
        created: iv.created,
        size_bytes: iv.size_bytes,
    }
}

/// The rows that survive: one per entry whose metadata fetch succeeded, in
/// enumeration order; failed entries are skipped, never aborting the rest.
pub open spec fn kept(entries: Seq<EntryView>) -> Seq<RecordView>
    decreases entries.len(),
{
    if entries.len() == 0 {
        Seq::empty()
    } else {
        let rest = kept(entries.drop_last());
        match entries.last().info {
            Some(iv) => rest + seq![record_of_entry(entries.last(), iv)],
            None => rest,
        }
    }
}

/// The number of entries whose metadata fetch succeeded.
pub open spec fn successes(entries: Seq<EntryView>) -> int
    decreases entries.len(),
{
    if entries.len() == 0 {
        0
    } else {
        successes(entries.drop_last()) + if entries.last().info is Some {
            1int
        } else {
            0int
        }
    }
}

/// The listing holds exactly one row per successful entry: a failed pair
/// is skipped without taking any other pair with it.
pub proof fn lemma_one_row_per_success(entries: Seq<EntryView>)
    ensures
        kept(entries).len() == successes(entries),
    decreases entries.len(),
{
    if entries.len() > 0 {
        lemma_one_row_per_success(entries.drop_last());
    }
}

pub open spec fn entry_views(v: Seq<ListEntry>) -> Seq<EntryView> {
    Seq::new(v.len(), |i: int| v[i]@)
}

pub open spec fn record_views(v: Seq<ImageRecord>) -> Seq<RecordView> {
    Seq::new(v.len(), |i: int| v[i]@)
}

/// Assembles the listing rows out of the enumerated entries, keeping
/// exactly the successful ones in order.
pub fn records_of(entries: Vec<ListEntry>) -> (r: Vec<ImageRecord>)
    ensures
        record_views(r@) == kept(entry_views(entries@)),
    decreases entries@.len(),
{
    let ghost orig = entries@;
    let mut entries = entries;
    match entries.pop() {
        None => {
            let r: Vec<ImageRecord> = Vec::new();
            assert(record_views(r@) =~= kept(entry_views(orig)));
            r
        },
        Some(e) => {
            assert(entry_views(orig).drop_last() =~= entry_views(entries@));
            assert(entry_views(orig).last() == e@);
            let mut r = records_of(entries);
            let ghost rv = r@;
            let ListEntry { repository, tag, info } = e;
            match info {
                Ok(i) => {
                    let ImageInfo { image_id, created, size_bytes } = i;
                    r.push(
                        ImageRecord { repository, tag, image_id, created, size_bytes },
                    );
                    assert(record_views(r@) =~= record_views(rv) + seq![
                        record_of_entry(entry_views(orig).last(), e@.info->Some_0),
                    ]);
                },
                Err(_) => {},
            }
            r
        },
    }
}

/// How a delete can fail.
#[derive(Debug, PartialEq, Eq, Structural)]
pub enum DeleteError {
    /// The manifest fetch carried no content-digest header: the tag does
    /// not exist.
    NotFound,
    /// The DELETE call itself was answered with this non-2xx status.
    Failed(u16),
}

/// Resolves the delete target from the `docker-content-digest` response
/// header: an absent header means the image was not found, never an abort.
pub fn digest_for_delete(header: Option<Vec<u8>>) -> (r: Result<Vec<u8>, DeleteError>)
    ensures
        match header {
            Some(d) => r == Ok::<Vec<u8>, DeleteError>(d),
            None => r == Err::<Vec<u8>, DeleteError>(DeleteError::NotFound),
        },
{
    match header {
        Some(d) => Ok(d),
        None => Err(DeleteError::NotFound),
    }
}

/// Decides the outcome of the DELETE call: success exactly on a 2xx
/// status, and otherwise a failure carrying the status code.
pub fn delete_outcome(status: u16) -> (r: Result<(), DeleteError>)
    ensures
        r is Ok <==> crate::is_success_status(status),
        r is Err ==> r == Err::<(), DeleteError>(DeleteError::Failed(status)),
{
    if 200 <= status && status <= 299 {
        Ok(())
    } else {
        Err(DeleteError::Failed(status))
    }
}

} // verus!
