use vstd::prelude::*;

use crate::batch::{lemma_sizes_prefix, sizes_sum, UploadProgressResp};
use crate::entry::{infos_view, UploadFileInfo, UploadFileInfoView};

verus! {

/// `s` is the snapshot of a demonstration run after entry `i`: the first
/// `i + 1` entries counted, entry `i` shown in flight, and entry `i - 1`
/// reported as failed or succeeded.
pub open spec fn demo_reports(
    s: UploadProgressResp,
    files: Seq<UploadFileInfoView>,
    i: int,
    fail_previous: bool,
) -> bool {
    &&& s.uploaded_file_numbers == i + 1
    &&& s.uploaded_file_size == sizes_sum(files.subrange(0, i + 1))
    &&& infos_view(s.current_files@) == seq![files[i]]
    &&& i == 0 ==> infos_view(s.success_files@) == Seq::<UploadFileInfoView>::empty()
        && infos_view(s.fail_files@) == Seq::<UploadFileInfoView>::empty()
    &&& i > 0 && fail_previous ==> infos_view(s.success_files@) == Seq::<UploadFileInfoView>::empty()
        && infos_view(s.fail_files@) == seq![files[i - 1]]
    &&& i > 0 && !fail_previous ==> infos_view(s.success_files@) == seq![files[i - 1]]
        && infos_view(s.fail_files@) == Seq::<UploadFileInfoView>::empty()
}

/// The sizes of the first `n` entries of `files`.
fn prefix_size(files: &Vec<UploadFileInfo>, n: usize) -> (r: u64)
    requires
        n <= files.len(),
        sizes_sum(infos_view(files@)) <= u64::MAX,
    ensures
        r == sizes_sum(infos_view(files@).subrange(0, n as int)),
{
    let ghost fv = infos_view(files@);
    let mut total: u64 = 0;
    let mut k: usize = 0;
    assert(fv.subrange(0, 0) =~= Seq::<UploadFileInfoView>::empty());
    while k < n
        invariant
            k <= n <= files.len(),
            fv == infos_view(files@),
            sizes_sum(fv) <= u64::MAX,
            total == sizes_sum(fv.subrange(0, k as int)),
        decreases n - k,
    {
        proof {
            lemma_sizes_prefix(fv, k as int);
        }
        total = total + files[k].size;
        k += 1;
    }
    total
}

/// One entry as a vector.
fn single(e: &UploadFileInfo) -> (r: Vec<UploadFileInfo>)
    ensures
        infos_view(r@) == seq![e@],
{
    let mut v: Vec<UploadFileInfo> = Vec::new();
    v.push(e.clone());
    assert(infos_view(v@) =~= seq![e@]);
    v
}

/// The snapshot of a demonstration run after entry `i`, where nothing is
/// sent: `fail_previous` decides how the entry before it is reported.
pub fn demo_snapshot(files: &Vec<UploadFileInfo>, i: usize, fail_previous: bool) -> (r: UploadProgressResp)
    requires
        i < files.len(),
        sizes_sum(infos_view(files@)) <= u64::MAX,
    ensures
        demo_reports(r, infos_view(files@), i as int, fail_previous),
{
    let size = prefix_size(files, i + 1);
    let current = single(&files[i]);
    let mut success_files: Vec<UploadFileInfo> = Vec::new();
    let mut fail_files: Vec<UploadFileInfo> = Vec::new();
    if i > 0 {
        if fail_previous {
            fail_files = single(&files[i - 1]);
        } else {
            success_files = single(&files[i - 1]);
        }
    }
    assert(infos_view(Seq::<UploadFileInfo>::empty()) =~= Seq::<UploadFileInfoView>::empty());
    UploadProgressResp {
        uploaded_file_numbers: i + 1,
        uploaded_file_size: size,
        current_files: current,
        success_files,
        fail_files,
    }
}

/// The last snapshot of a demonstration run: all entries and bytes counted,
/// none in flight, and the last entry, if any, reported as succeeded.
pub fn demo_final_snapshot(files: &Vec<UploadFileInfo>) -> (r: UploadProgressResp)
    requires
        sizes_sum(infos_view(files@)) <= u64::MAX,
    ensures
        r.uploaded_file_numbers == files.len(),
        r.uploaded_file_size == sizes_sum(infos_view(files@)),
        r.current_files@.len() == 0,
        r.fail_files@.len() == 0,
        files.len() == 0 ==> r.success_files@.len() == 0,
        files.len() > 0 ==> infos_view(r.success_files@) == seq![files@.last()@],
{
    let size = prefix_size(files, files.len());
    assert(infos_view(files@).subrange(0, files.len() as int) =~= infos_view(files@));
    let success_files = if files.len() > 0 {
        single(&files[files.len() - 1])
    } else {
        Vec::new()
    };
    UploadProgressResp {
        uploaded_file_numbers: files.len(),
        uploaded_file_size: size,
        current_files: Vec::new(),
        success_files,
        fail_files: Vec::new(),
    }
}

} // verus!
