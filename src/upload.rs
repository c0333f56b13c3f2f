use vstd::prelude::*;

use crate::batch::{is_numbered, sizes_sum, EntryState, UploadBatch, UploadStatsResp};
use crate::entry::infos_view;
use crate::resolver::{
    batch_error, lemma_manifest_numbered, listings_view, manifest, resolve_manifest, ResolveError,
    RootListing,
};

verus! {

/// Why a batch could not be submitted.
#[derive(Debug, Clone, Copy, PartialEq, Eq, Structural)]
pub enum UploadError {
    /// The roots could not be resolved.
    Resolve(ResolveError),
    /// The entries' sizes add up to more than a `u64` holds.
    TooLarge,
}

/// Submits a batch: resolves the listings of its roots into a manifest and
/// sets up the batch that dispatches it with at most `concurrency` entries in
/// flight. Returns at once with the number of entries and their total size;
/// no entry has started yet.
pub fn upload_files(listings: &Vec<RootListing>, concurrency: usize) -> (r: Result<(UploadStatsResp, UploadBatch), UploadError>)
    ensures
        ({
            let lv = listings_view(listings@);
            let err = batch_error(lv, lv.len());
            &&& (r matches Err(UploadError::Resolve(_)) <==> err is Some)
            &&& r matches Err(UploadError::Resolve(e)) ==> err == Some(e)
            &&& (r matches Err(UploadError::TooLarge) <==> err is None && sizes_sum(manifest(lv)) > u64::MAX)
            &&& r matches Ok((stats, b)) ==> {
                &&& b.wf()
                &&& b@.entries == manifest(lv)
                &&& b@.concurrency == concurrency
                &&& b@.log.len() == 0
                &&& forall|i: int| 0 <= i < b@.states.len() ==> #[trigger] b@.states[i] == EntryState::Pending
                &&& stats.total_file_numbers == manifest(lv).len()
                &&& stats.total_file_size == sizes_sum(manifest(lv))
            }
        }),
{
    let entries = match resolve_manifest(listings) {
        Ok(m) => m,
        Err(e) => return Err(UploadError::Resolve(e)),
    };
    proof {
        lemma_manifest_numbered(listings_view(listings@));
    }
    let ghost ev = infos_view(entries@);
    match UploadBatch::new(entries, concurrency) {
        Some(b) => {
            let stats = b.stats();
            Ok((stats, b))
        },
        None => {
            assert(is_numbered(ev));
            Err(UploadError::TooLarge)
        },
    }
}

} // verus!
