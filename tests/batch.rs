use file_processor::batch::{ProcessorConfig, UploadBatch};
use file_processor::entry::UploadFileInfo;
use file_processor::resolver::{FsItem, RootListing};
use file_processor::upload::{upload_files, UploadError};

fn entry(id: u64, size: u64) -> UploadFileInfo {
    UploadFileInfo {
        id,
        name: format!("f{id}.bin"),
        relative_path: format!("d/f{id}.bin"),
        size,
        mime_type: "application/octet-stream".to_string(),
        is_directory: false,
    }
}

fn entries(n: u64) -> Vec<UploadFileInfo> {
    (0..n).map(|i| entry(i, 10 * (i + 1))).collect()
}

struct Run {
    ok: usize,
    failed: usize,
    starts: Vec<usize>,
    completions: Vec<usize>,
    max_in_flight: usize,
}

/// Drives a whole batch: starts what it may, then completes the oldest entry
/// in flight with `outcome`, checking each snapshot against the limit.
fn run(batch: &mut UploadBatch, n: usize, limit: usize, outcome: impl Fn(u64) -> bool) -> Run {
    let mut in_flight: Vec<u64> = Vec::new();
    let mut r = Run { ok: 0, failed: 0, starts: vec![0; n], completions: vec![0; n], max_in_flight: 0 };
    loop {
        while let Some((e, snap)) = batch.start_next() {
            r.starts[e.id as usize] += 1;
            assert!(snap.current_files.len() <= limit);
            assert!(snap.current_files.iter().any(|c| c.id == e.id));
            assert!(snap.success_files.is_empty() && snap.fail_files.is_empty());
            in_flight.push(e.id);
        }
        r.max_in_flight = r.max_in_flight.max(batch.in_flight_count());
        if in_flight.is_empty() {
            break;
        }
        let id = in_flight.remove(0);
        let success = outcome(id);
        let snap = batch.complete(id, success).unwrap();
        r.completions[id as usize] += 1;
        assert!(snap.current_files.len() <= limit);
        assert!(snap.current_files.iter().all(|c| c.id != id));
        if success {
            assert_eq!(snap.success_files.len(), 1);
            assert_eq!(snap.success_files[0].id, id);
            assert!(snap.fail_files.is_empty());
            r.ok += 1;
        } else {
            assert_eq!(snap.fail_files.len(), 1);
            assert_eq!(snap.fail_files[0].id, id);
            assert!(snap.success_files.is_empty());
            r.failed += 1;
        }
    }
    r
}

#[test]
fn at_most_two_in_flight_with_limit_two() {
    let mut b = UploadBatch::new(entries(5), 2).unwrap();
    let r = run(&mut b, 5, 2, |_| true);
    assert_eq!(r.max_in_flight, 2);
    assert!(b.is_finished());
}

#[test]
fn start_stops_at_the_limit() {
    let mut b = UploadBatch::new(entries(5), 2).unwrap();
    let (first, s1) = b.start_next().unwrap();
    let (second, s2) = b.start_next().unwrap();
    assert!(b.start_next().is_none());
    assert_eq!((first.id, second.id), (0, 1));
    assert_eq!((s1.uploaded_file_numbers, s1.uploaded_file_size), (1, 10));
    assert_eq!((s2.uploaded_file_numbers, s2.uploaded_file_size), (2, 30));
    assert_eq!(s2.current_files.iter().map(|e| e.id).collect::<Vec<_>>(), vec![0, 1]);
    let done = b.complete(1, false).unwrap();
    assert_eq!(done.current_files.iter().map(|e| e.id).collect::<Vec<_>>(), vec![0]);
    assert_eq!(done.uploaded_file_numbers, 2);
    let (third, _) = b.start_next().unwrap();
    assert_eq!(third.id, 2);
}

#[test]
fn terminal_totals_when_all_succeed() {
    let mut b = UploadBatch::new(entries(4), 3).unwrap();
    let r = run(&mut b, 4, 3, |_| true);
    assert_eq!((r.ok, r.failed), (4, 0));
    let last = b.final_snapshot();
    assert_eq!(last.uploaded_file_numbers, 4);
    assert_eq!(last.uploaded_file_size, 100);
    assert!(last.current_files.is_empty() && last.success_files.is_empty() && last.fail_files.is_empty());
}

#[test]
fn terminal_totals_when_all_fail() {
    let mut b = UploadBatch::new(entries(6), 2).unwrap();
    let r = run(&mut b, 6, 2, |_| false);
    assert_eq!((r.ok, r.failed), (0, 6));
    assert!(b.is_finished());
    assert_eq!(b.stats().total_file_size, 210);
}

#[test]
fn each_entry_starts_and_completes_once() {
    let outcomes: [fn(u64) -> bool; 3] = [|_| true, |_| false, |id| id % 2 == 0];
    for outcome in outcomes {
        let mut b = UploadBatch::new(entries(7), 3).unwrap();
        let r = run(&mut b, 7, 3, outcome);
        assert_eq!(r.starts, vec![1; 7]);
        assert_eq!(r.completions, vec![1; 7]);
        assert_eq!(r.ok + r.failed, 7);
    }
}

#[test]
fn duplicate_or_unknown_completions_change_nothing() {
    let mut b = UploadBatch::new(entries(2), 5).unwrap();
    assert!(b.complete(0, true).is_none());
    b.start_next().unwrap();
    assert!(b.complete(7, true).is_none());
    assert!(b.complete(0, true).is_some());
    assert!(b.complete(0, false).is_none());
    assert!(!b.is_finished());
    assert_eq!(b.in_flight_count(), 0);
}

#[test]
fn empty_batch_is_finished_at_once() {
    let mut b = UploadBatch::new(Vec::new(), 5).unwrap();
    assert!(b.is_finished());
    assert!(b.start_next().is_none());
    let s = b.stats();
    assert_eq!((s.total_file_numbers, s.total_file_size), (0, 0));
}

#[test]
fn zero_limit_starts_nothing() {
    let mut b = UploadBatch::new(entries(3), 0).unwrap();
    assert!(b.start_next().is_none());
}

#[test]
fn new_refuses_unnumbered_entries() {
    let v = vec![entry(0, 1), entry(5, 1)];
    assert!(UploadBatch::new(v, 2).is_none());
}

#[test]
fn new_refuses_sizes_beyond_u64() {
    let v = vec![entry(0, u64::MAX), entry(1, 1)];
    assert!(UploadBatch::new(v, 2).is_none());
    let w = vec![entry(0, u64::MAX - 1), entry(1, 1)];
    assert_eq!(UploadBatch::new(w, 2).unwrap().stats().total_file_size, u64::MAX);
}

#[test]
fn default_concurrency_is_five() {
    assert_eq!(ProcessorConfig::default().concurrent, 5);
}

fn parts(p: &str) -> Vec<String> {
    p.split('/').filter(|s| !s.is_empty()).map(|s| s.to_string()).collect()
}

#[test]
fn submission_acknowledges_counts_and_bytes() {
    let l = RootListing {
        root: parts("/in/docs"),
        items: vec![
            FsItem { path: parts("/in/docs"), is_dir: true, size: 0 },
            FsItem { path: parts("/in/docs/a.txt"), is_dir: false, size: 12 },
            FsItem { path: parts("/in/docs/empty"), is_dir: true, size: 0 },
            FsItem { path: parts("/in/docs/b.pdf"), is_dir: false, size: 30 },
        ],
    };
    let (stats, mut batch) = upload_files(&vec![l], 5).unwrap();
    assert_eq!(stats.total_file_numbers, 3);
    assert_eq!(stats.total_file_size, 42);
    assert_eq!(batch.in_flight_count(), 0);
    let (e, _) = batch.start_next().unwrap();
    assert_eq!(e.relative_path, "docs/a.txt");
}

#[test]
fn submission_reports_resolution_and_size_errors() {
    let bad = RootListing { root: vec![], items: vec![] };
    assert!(matches!(upload_files(&vec![bad], 5), Err(UploadError::Resolve(_))));
    let big = RootListing {
        root: parts("/r"),
        items: vec![
            FsItem { path: parts("/r"), is_dir: true, size: 0 },
            FsItem { path: parts("/r/a"), is_dir: false, size: u64::MAX },
            FsItem { path: parts("/r/b"), is_dir: false, size: 1 },
        ],
    };
    assert!(matches!(upload_files(&vec![big], 5), Err(UploadError::TooLarge)));
}

#[test]
fn completions_in_any_order() {
    let mut b = UploadBatch::new(entries(3), 3).unwrap();
    for _ in 0..3 {
        b.start_next().unwrap();
    }
    let s = b.complete(2, false).unwrap();
    assert_eq!(s.current_files.iter().map(|e| e.id).collect::<Vec<_>>(), vec![0, 1]);
    assert_eq!(s.fail_files[0].id, 2);
    let s = b.complete(0, true).unwrap();
    assert_eq!(s.current_files.iter().map(|e| e.id).collect::<Vec<_>>(), vec![1]);
    assert!(!b.is_finished());
    // An entry whose worker hung is reported as failed once its timeout fires.
    let s = b.complete(1, false).unwrap();
    assert!(s.current_files.is_empty());
    assert_eq!((s.uploaded_file_numbers, s.uploaded_file_size), (3, 60));
    assert!(b.is_finished());
}
