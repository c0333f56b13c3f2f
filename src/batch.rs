use vstd::prelude::*;

use crate::entry::{infos_view, UploadFileInfo, UploadFileInfoView};

verus! {

/// Settings of the upload coordinator.
#[derive(Debug, Clone, Copy)]
pub struct ProcessorConfig {
    /// How many entries may be network-active at once.
    pub concurrent: usize,
}

impl Default for ProcessorConfig {
    fn default() -> (r: Self)
        ensures
            r.concurrent == 5,
    {
        ProcessorConfig { concurrent: 5 }
    }
}

/// The acknowledgment of a submitted batch.
#[derive(Debug, Clone, Copy, PartialEq, Eq, Structural)]
pub struct UploadStatsResp {
    pub total_file_numbers: usize,
    pub total_file_size: u64,
}

/// A progress snapshot, emitted after each lifecycle event.
#[derive(Debug)]
pub struct UploadProgressResp {
    /// Entries dispatched so far.
    pub uploaded_file_numbers: usize,
    /// Bytes of the entries dispatched so far.
    pub uploaded_file_size: u64,
    /// Entries started and not yet completed, in manifest order.
    pub current_files: Vec<UploadFileInfo>,
    /// The entry that has just succeeded, if any.
    pub success_files: Vec<UploadFileInfo>,
    /// The entry that has just failed, if any.
    pub fail_files: Vec<UploadFileInfo>,
}

/// Where an entry stands in its lifecycle.
#[derive(Debug, Clone, Copy, PartialEq, Eq, Structural)]
pub enum EntryState {
    Pending,
    InFlight,
    Succeeded,
    Failed,
}

/// A notification about one entry.
#[derive(Debug, Clone, Copy, PartialEq, Eq, Structural)]
pub enum LifecycleEvent {
    Started(u64),
    /// The entry is done; `true` where it succeeded.
    Completed(u64, bool),
}

pub open spec fn is_started(s: EntryState) -> bool {
    s != EntryState::Pending
}

pub open spec fn is_done(s: EntryState) -> bool {
    s == EntryState::Succeeded || s == EntryState::Failed
}

/// How many states of `s` satisfy `p`.
pub open spec fn count_where(s: Seq<EntryState>, p: spec_fn(EntryState) -> bool) -> nat
    decreases s.len(),
{
    if s.len() == 0 {
        0
    } else {
        count_where(s.drop_last(), p) + if p(s.last()) {
            1nat
        } else {
            0nat
        }
    }
}

/// The sum of the sizes of `s`.
pub open spec fn sizes_sum(s: Seq<UploadFileInfoView>) -> nat
    decreases s.len(),
{
    if s.len() == 0 {
        0
    } else {
        sizes_sum(s.drop_last()) + s.last().size as nat
    }
}

/// Each entry's id is its position.
pub open spec fn is_numbered(e: Seq<UploadFileInfoView>) -> bool {
    forall|i: int| 0 <= i < e.len() ==> (#[trigger] e[i]).id == i as u64
}

/// How many `Started` events for entry `id` the log holds.
pub open spec fn starts(log: Seq<LifecycleEvent>, id: u64) -> nat
    decreases log.len(),
{
    if log.len() == 0 {
        0
    } else {
        starts(log.drop_last(), id) + if log.last() == LifecycleEvent::Started(id) {
            1nat
        } else {
            0nat
        }
    }
}

/// How many `Completed` events for entry `id` the log holds.
pub open spec fn completions(log: Seq<LifecycleEvent>, id: u64) -> nat
    decreases log.len(),
{
    if log.len() == 0 {
        0
    } else {
        completions(log.drop_last(), id) + match log.last() {
            LifecycleEvent::Completed(j, _) => if j == id {
                1nat
            } else {
                0nat
            },
            _ => 0nat,
        }
    }
}

/// The entries whose state among the first `n` is in flight, in order.
pub open spec fn in_flight_upto(e: Seq<UploadFileInfoView>, s: Seq<EntryState>, n: nat) -> Seq<
    UploadFileInfoView,
>
    decreases n,
{
    if n == 0 {
        seq![]
    } else {
        let prev = in_flight_upto(e, s, (n - 1) as nat);
        if s[n - 1] == EntryState::InFlight {
            prev.push(e[n - 1])
        } else {
            prev
        }
    }
}

pub struct UploadBatchView {
    pub entries: Seq<UploadFileInfoView>,
    pub states: Seq<EntryState>,
    pub concurrency: nat,
    /// Every lifecycle event so far, in order.
    pub log: Seq<LifecycleEvent>,
}

impl UploadBatchView {
    pub open spec fn dispatched(self) -> nat {
        count_where(self.states, |s: EntryState| is_started(s))
    }

    pub open spec fn finished(self) -> nat {
        count_where(self.states, |s: EntryState| is_done(s))
    }

    pub open spec fn in_flight_count(self) -> nat {
        count_where(self.states, |s: EntryState| s == EntryState::InFlight)
    }

    pub open spec fn succeeded(self) -> nat {
        count_where(self.states, |s: EntryState| s == EntryState::Succeeded)
    }

    pub open spec fn failed(self) -> nat {
        count_where(self.states, |s: EntryState| s == EntryState::Failed)
    }

    /// The entries started and not yet completed, in manifest order.
    pub open spec fn in_flight(self) -> Seq<UploadFileInfoView> {
        in_flight_upto(self.entries, self.states, self.states.len())
    }

    /// Bytes accounted for: the sizes of the dispatched entries, which are
    /// dispatched in manifest order.
    pub open spec fn bytes(self) -> nat {
        sizes_sum(self.entries.subrange(0, self.dispatched() as int))
    }

    pub open spec fn total_bytes(self) -> nat {
        sizes_sum(self.entries)
    }

    /// Another entry may start: one is pending and a permit is free.
    pub open spec fn can_start(self) -> bool {
        self.in_flight_count() < self.concurrency && self.dispatched() < self.entries.len()
    }

    /// Entry `i` is started.
    pub open spec fn start(self, i: int) -> UploadBatchView {
        UploadBatchView {
            states: self.states.update(i, EntryState::InFlight),
            log: self.log.push(LifecycleEvent::Started(i as u64)),
            ..self
        }
    }

    /// Entry `i` is completed.
    pub open spec fn complete(self, i: int, success: bool) -> UploadBatchView {
        UploadBatchView {
            states: self.states.update(
                i,
                if success {
                    EntryState::Succeeded
                } else {
                    EntryState::Failed
                },
            ),
            log: self.log.push(LifecycleEvent::Completed(i as u64, success)),
            ..self
        }
    }
}

/// `s` reports batch `v` with the given newly succeeded and newly failed
/// entries.
pub open spec fn reports(
    s: UploadProgressResp,
    v: UploadBatchView,
    ok: Seq<UploadFileInfoView>,
    failed: Seq<UploadFileInfoView>,
) -> bool {
    &&& s.uploaded_file_numbers == v.dispatched()
    &&& s.uploaded_file_size == v.bytes()
    &&& infos_view(s.current_files@) == v.in_flight()
    &&& infos_view(s.success_files@) == ok
    &&& infos_view(s.fail_files@) == failed
}

proof fn lemma_count_update(s: Seq<EntryState>, i: int, x: EntryState, p: spec_fn(EntryState) -> bool)
    requires
        0 <= i < s.len(),
    ensures
        count_where(s.update(i, x), p) + (if p(s[i]) {
            1int
        } else {
            0int
        }) == count_where(s, p) + (if p(x) {
            1int
        } else {
            0int
        }),
    decreases s.len(),
{
    if i == s.len() - 1 {
        assert(s.update(i, x).drop_last() =~= s.drop_last());
    } else {
        lemma_count_update(s.drop_last(), i, x, p);
        assert(s.update(i, x).drop_last() =~= s.drop_last().update(i, x));
    }
}

proof fn lemma_count_le_len(s: Seq<EntryState>, p: spec_fn(EntryState) -> bool)
    ensures
        count_where(s, p) <= s.len(),
    decreases s.len(),
{
    if s.len() > 0 {
        lemma_count_le_len(s.drop_last(), p);
    }
}

proof fn lemma_count_full(s: Seq<EntryState>, p: spec_fn(EntryState) -> bool)
    requires
        count_where(s, p) == s.len(),
    ensures
        forall|i: int| 0 <= i < s.len() ==> p(#[trigger] s[i]),
    decreases s.len(),
{
    if s.len() > 0 {
        lemma_count_le_len(s.drop_last(), p);
        lemma_count_full(s.drop_last(), p);
        assert forall|i: int| 0 <= i < s.len() implies p(#[trigger] s[i]) by {
            if i < s.len() - 1 {
                assert(s[i] == s.drop_last()[i]);
            }
        }
    }
}

proof fn lemma_count_split(s: Seq<EntryState>, p: spec_fn(EntryState) -> bool, q: spec_fn(EntryState) -> bool, r: spec_fn(EntryState) -> bool)
    requires
        forall|x: EntryState| #[trigger] p(x) == (q(x) || r(x)),
        forall|x: EntryState| !(#[trigger] q(x) && r(x)),
    ensures
        count_where(s, p) == count_where(s, q) + count_where(s, r),
    decreases s.len(),
{
    if s.len() > 0 {
        lemma_count_split(s.drop_last(), p, q, r);
    }
}

pub(crate) proof fn lemma_sizes_prefix(s: Seq<UploadFileInfoView>, n: int)
    requires
        0 <= n < s.len(),
    ensures
        sizes_sum(s.subrange(0, n + 1)) == sizes_sum(s.subrange(0, n)) + s[n].size,
        sizes_sum(s.subrange(0, n + 1)) <= sizes_sum(s),
    decreases s.len(),
{
    assert(s.subrange(0, n + 1).drop_last() =~= s.subrange(0, n));
    if n + 1 < s.len() {
        lemma_sizes_prefix(s.drop_last(), n);
        assert(s.drop_last().subrange(0, n + 1) =~= s.subrange(0, n + 1));
    } else {
        assert(s.subrange(0, n + 1) =~= s);
    }
}

proof fn lemma_count_none(s: Seq<EntryState>, p: spec_fn(EntryState) -> bool)
    requires
        forall|i: int| 0 <= i < s.len() ==> !p(#[trigger] s[i]),
    ensures
        count_where(s, p) == 0,
    decreases s.len(),
{
    if s.len() > 0 {
        assert forall|i: int| 0 <= i < s.len() - 1 implies !p(#[trigger] s.drop_last()[i]) by {
            assert(s.drop_last()[i] == s[i]);
        }
        lemma_count_none(s.drop_last(), p);
    }
}

proof fn lemma_starts_push(log: Seq<LifecycleEvent>, ev: LifecycleEvent, id: u64)
    ensures
        starts(log.push(ev), id) == starts(log, id) + if ev == LifecycleEvent::Started(id) {
            1nat
        } else {
            0nat
        },
        completions(log.push(ev), id) == completions(log, id) + match ev {
            LifecycleEvent::Completed(j, _) => if j == id {
                1nat
            } else {
                0nat
            },
            _ => 0nat,
        },
{
    assert(log.push(ev).drop_last() =~= log);
}

/// The coordinator and progress aggregator of one batch: it decides which
/// entry starts next under the concurrency limit, takes each completion, and
/// keeps the totals that the snapshots report.
pub struct UploadBatch {
    entries: Vec<UploadFileInfo>,
    states: Vec<EntryState>,
    concurrency: usize,
    dispatched: usize,
    finished: usize,
    in_flight: usize,
    uploaded_size: u64,
    total_size: u64,
    log: Ghost<Seq<LifecycleEvent>>,
}

impl View for UploadBatch {
    type V = UploadBatchView;

    closed spec fn view(&self) -> UploadBatchView {
        UploadBatchView {
            entries: infos_view(self.entries@),
            states: self.states@,
            concurrency: self.concurrency as nat,
            log: self.log@,
        }
    }
}

impl UploadBatch {
    /// The batch's internal invariant.
    pub closed spec fn wf(&self) -> bool {
        let v = self@;
        &&& self.states@.len() == self.entries@.len()
        &&& is_numbered(v.entries)
        &&& self.dispatched == v.dispatched()
        &&& forall|i: int| 0 <= i < self.dispatched ==> is_started(#[trigger] v.states[i])
        &&& forall|i: int| self.dispatched <= i < v.states.len() ==> #[trigger] v.states[i] == EntryState::Pending
        &&& self.finished == v.finished()
        &&& self.in_flight == v.in_flight_count()
        &&& self.in_flight <= self.concurrency
        &&& self.uploaded_size == v.bytes()
        &&& self.total_size == v.total_bytes()
        &&& forall|i: int| 0 <= i < v.states.len() ==> starts(v.log, i as u64) == if is_started(#[trigger] v.states[i]) {
            1nat
        } else {
            0nat
        }
        &&& forall|i: int| 0 <= i < v.states.len() ==> completions(v.log, i as u64) == if is_done(#[trigger] v.states[i]) {
            1nat
        } else {
            0nat
        }
    }

    /// A batch over `entries` with at most `concurrency` entries in flight.
    /// There is none where an entry's id is not its position, or where the
    /// sizes add up to more than a `u64` holds.
    pub fn new(entries: Vec<UploadFileInfo>, concurrency: usize) -> (r: Option<UploadBatch>)
        ensures
            r is Some <==> is_numbered(infos_view(entries@)) && sizes_sum(infos_view(entries@)) <= u64::MAX,
            r matches Some(b) ==> b.wf() && b@.entries == infos_view(entries@)
                && b@.concurrency == concurrency && b@.log.len() == 0
                && forall|i: int| 0 <= i < b@.states.len() ==> #[trigger] b@.states[i] == EntryState::Pending,
    {
        let ghost ev = infos_view(entries@);
        let mut i: usize = 0;
        let mut total: u64 = 0;
        let mut states: Vec<EntryState> = Vec::new();
        assert(ev.subrange(0, 0) =~= Seq::<UploadFileInfoView>::empty());
        while i < entries.len()
            invariant
                i <= entries.len(),
                ev == infos_view(entries@),
                total == sizes_sum(ev.subrange(0, i as int)),
                states@.len() == i,
                forall|k: int| 0 <= k < i ==> #[trigger] states@[k] == EntryState::Pending,
                forall|k: int| 0 <= k < i ==> (#[trigger] ev[k]).id == k as u64,
            decreases entries.len() - i,
        {
            proof {
                lemma_sizes_prefix(ev, i as int);
            }
            if entries[i].id != i as u64 {
                assert(!is_numbered(ev));
                return None;
            }
            if entries[i].size > u64::MAX - total {
                proof {
                    lemma_sizes_prefix_le(ev, (i + 1) as int);
                }
                return None;
            }
            total = total + entries[i].size;
            states.push(EntryState::Pending);
            i += 1;
        }
        assert(ev.subrange(0, i as int) =~= ev);
        let b = UploadBatch {
            entries,
            states,
            concurrency,
            dispatched: 0,
            finished: 0,
            in_flight: 0,
            uploaded_size: 0,
            total_size: total,
            log: Ghost(Seq::empty()),
        };
        proof {
            let v = b@;
            lemma_count_none(v.states, |s: EntryState| is_started(s));
            lemma_count_none(v.states, |s: EntryState| is_done(s));
            lemma_count_none(v.states, |s: EntryState| s == EntryState::InFlight);
            assert(v.entries.subrange(0, 0) =~= Seq::<UploadFileInfoView>::empty());
        }
        Some(b)
    }

    /// The acknowledgment of the batch: how many entries, how many bytes.
    pub fn stats(&self) -> (r: UploadStatsResp)
        requires
            self.wf(),
        ensures
            r.total_file_numbers == self@.entries.len(),
            r.total_file_size == self@.total_bytes(),
    {
        UploadStatsResp { total_file_numbers: self.entries.len(), total_file_size: self.total_size }
    }

    /// How many entries are in flight.
    pub fn in_flight_count(&self) -> (r: usize)
        requires
            self.wf(),
        ensures
            r == self@.in_flight_count(),
    {
        self.in_flight
    }

    /// Every entry is completed.
    pub fn is_finished(&self) -> (r: bool)
        requires
            self.wf(),
        ensures
            r == (self@.finished() == self@.entries.len()),
    {
        self.finished == self.entries.len()
    }

    /// The entries in flight, in manifest order.
    fn current_files(&self) -> (r: Vec<UploadFileInfo>)
        requires
            self.states@.len() == self.entries@.len(),
        ensures
            infos_view(r@) == self@.in_flight(),
    {
        let ghost v = self@;
        let mut out: Vec<UploadFileInfo> = Vec::new();
        let mut i: usize = 0;
        assert(infos_view(out@) =~= in_flight_upto(v.entries, v.states, 0));
        while i < self.states.len()
            invariant
                i <= self.states.len(),
                v == self@,
                self.states@.len() == self.entries@.len(),
                infos_view(out@) == in_flight_upto(v.entries, v.states, i as nat),
            decreases self.states.len() - i,
        {
            if self.states[i] == EntryState::InFlight {
                let e = self.entries[i].clone();
                let ghost before = infos_view(out@);
                out.push(e);
                assert(infos_view(out@) =~= before.push(e@));
            }
            i += 1;
        }
        out
    }

    /// A snapshot of the batch with the given newly succeeded and newly failed
    /// entries.
    fn snapshot(&self, ok: Vec<UploadFileInfo>, failed: Vec<UploadFileInfo>) -> (r: UploadProgressResp)
        requires
            self.wf(),
        ensures
            reports(r, self@, infos_view(ok@), infos_view(failed@)),
    {
        UploadProgressResp {
            uploaded_file_numbers: self.dispatched,
            uploaded_file_size: self.uploaded_size,
            current_files: self.current_files(),
            success_files: ok,
            fail_files: failed,
        }
    }

    /// Starts the first pending entry, where a permit is free: it is marked in
    /// flight, its bytes are accounted for, and it is returned with the
    /// snapshot that shows it in flight. Where no entry is pending or all
    /// permits are held, nothing changes.
    pub fn start_next(&mut self) -> (r: Option<(UploadFileInfo, UploadProgressResp)>)
        requires
            old(self).wf(),
        ensures
            final(self).wf(),
            r is Some <==> old(self)@.can_start(),
            r matches Some(p) ==> {
                let i = old(self)@.dispatched() as int;
                &&& final(self)@ == old(self)@.start(i)
                &&& p.0@ == old(self)@.entries[i]
                &&& reports(p.1, final(self)@, seq![], seq![])
            },
            r is None ==> final(self)@ == old(self)@,
    {
        if self.in_flight >= self.concurrency || self.dispatched >= self.entries.len() {
            return None;
        }
        let i = self.dispatched;
        let ghost v0 = self@;
        proof {
            lemma_count_update(v0.states, i as int, EntryState::InFlight, |s: EntryState| is_started(s));
            lemma_count_update(v0.states, i as int, EntryState::InFlight, |s: EntryState| is_done(s));
            lemma_count_update(v0.states, i as int, EntryState::InFlight, |s: EntryState| s == EntryState::InFlight);
            lemma_sizes_prefix(v0.entries, i as int);
        }
        let size = self.entries[i].size;
        self.states.set(i, EntryState::InFlight);
        self.log = Ghost(self.log@.push(LifecycleEvent::Started(i as u64)));
        self.dispatched = i + 1;
        self.in_flight = self.in_flight + 1;
        self.uploaded_size = self.uploaded_size + size;
        let e = self.entries[i].clone();
        assert(self@.states =~= v0.states.update(i as int, EntryState::InFlight));
        assert(self@ == v0.start(i as int));
        assert(self@.entries.subrange(0, i + 1) == v0.entries.subrange(0, i + 1));
        assert forall|k: int| 0 <= k < self@.states.len() implies starts(self@.log, k as u64) == if is_started(#[trigger] self@.states[k]) {
            1nat
        } else {
            0nat
        } && completions(self@.log, k as u64) == if is_done(self@.states[k]) {
            1nat
        } else {
            0nat
        } by {
            lemma_starts_push(v0.log, LifecycleEvent::Started(i as u64), k as u64);
            assert(starts(v0.log, k as u64) == if is_started(v0.states[k]) { 1nat } else { 0nat });
            assert(completions(v0.log, k as u64) == if is_done(v0.states[k]) { 1nat } else { 0nat });
            if k != i {
                assert(self@.states[k] == v0.states[k]);
            }
        }
        let none_ok: Vec<UploadFileInfo> = Vec::new();
        let none_failed: Vec<UploadFileInfo> = Vec::new();
        assert(infos_view(none_ok@) =~= Seq::<UploadFileInfoView>::empty());
        assert(infos_view(none_failed@) =~= Seq::<UploadFileInfoView>::empty());
        let snap = self.snapshot(none_ok, none_failed);
        Some((e, snap))
    }

    /// Takes the completion of entry `id`: where that entry is in flight it is
    /// marked succeeded or failed, and the snapshot that names it among the
    /// newly succeeded or newly failed is returned. Any other completion (an
    /// unknown id, an entry not in flight) changes nothing.
    pub fn complete(&mut self, id: u64, success: bool) -> (r: Option<UploadProgressResp>)
        requires
            old(self).wf(),
        ensures
            final(self).wf(),
            r is Some <==> id < old(self)@.states.len() && old(self)@.states[id as int] == EntryState::InFlight,
            r matches Some(snap) ==> {
                let e = old(self)@.entries[id as int];
                &&& final(self)@ == old(self)@.complete(id as int, success)
                &&& reports(
                    snap,
                    final(self)@,
                    if success { seq![e] } else { seq![] },
                    if success { seq![] } else { seq![e] },
                )
            },
            r is None ==> final(self)@ == old(self)@,
    {
        if id >= self.entries.len() as u64 {
            return None;
        }
        let i = id as usize;
        if self.states[i] != EntryState::InFlight {
            return None;
        }
        let ghost v0 = self@;
        let new_state = if success {
            EntryState::Succeeded
        } else {
            EntryState::Failed
        };
        let ghost ev = LifecycleEvent::Completed(id, success);
        proof {
            lemma_count_update(v0.states, i as int, new_state, |s: EntryState| is_started(s));
            lemma_count_update(v0.states, i as int, new_state, |s: EntryState| is_done(s));
            lemma_count_update(v0.states, i as int, new_state, |s: EntryState| s == EntryState::InFlight);
            lemma_count_le_len(v0.states.update(i as int, new_state), |s: EntryState| is_done(s));
            lemma_count_le_len(v0.states, |s: EntryState| is_started(s));
        }
        self.states.set(i, new_state);
        self.log = Ghost(self.log@.push(ev));
        self.finished = self.finished + 1;
        self.in_flight = self.in_flight - 1;
        assert(self@.states =~= v0.states.update(i as int, new_state));
        assert(self@ == v0.complete(i as int, success));
        assert forall|k: int| 0 <= k < self@.states.len() implies starts(self@.log, k as u64) == if is_started(#[trigger] self@.states[k]) {
            1nat
        } else {
            0nat
        } && completions(self@.log, k as u64) == if is_done(self@.states[k]) {
            1nat
        } else {
            0nat
        } by {
            lemma_starts_push(v0.log, ev, k as u64);
            assert(starts(v0.log, k as u64) == if is_started(v0.states[k]) { 1nat } else { 0nat });
            assert(completions(v0.log, k as u64) == if is_done(v0.states[k]) { 1nat } else { 0nat });
            if k != i {
                assert(self@.states[k] == v0.states[k]);
            }
        }
        assert forall|k: int| 0 <= k < self.dispatched implies is_started(#[trigger] self@.states[k]) by {
            if k != i {
                assert(self@.states[k] == v0.states[k]);
            }
        }
        assert forall|k: int| self.dispatched <= k < self@.states.len() implies #[trigger] self@.states[k] == EntryState::Pending by {
            assert(k != i);
            assert(self@.states[k] == v0.states[k]);
        }
        let e = self.entries[i].clone();
        let mut one: Vec<UploadFileInfo> = Vec::new();
        one.push(e);
        let none: Vec<UploadFileInfo> = Vec::new();
        assert(infos_view(one@) =~= seq![v0.entries[i as int]]);
        assert(infos_view(none@) =~= Seq::<UploadFileInfoView>::empty());
        let snap = if success {
            self.snapshot(one, none)
        } else {
            self.snapshot(none, one)
        };
        Some(snap)
    }

    /// The last snapshot of a batch: its totals, with no entry in flight and
    /// none newly succeeded or failed.
    pub fn final_snapshot(&self) -> (r: UploadProgressResp)
        requires
            self.wf(),
        ensures
            r.uploaded_file_numbers == self@.entries.len(),
            r.uploaded_file_size == self@.total_bytes(),
            r.current_files@.len() == 0,
            r.success_files@.len() == 0,
            r.fail_files@.len() == 0,
    {
        UploadProgressResp {
            uploaded_file_numbers: self.entries.len(),
            uploaded_file_size: self.total_size,
            current_files: Vec::new(),
            success_files: Vec::new(),
            fail_files: Vec::new(),
        }
    }
}

pub(crate) proof fn lemma_sizes_prefix_le(s: Seq<UploadFileInfoView>, n: int)
    requires
        0 <= n <= s.len(),
    ensures
        sizes_sum(s.subrange(0, n)) <= sizes_sum(s),
{
    if n < s.len() {
        lemma_sizes_prefix(s, n);
    } else {
        assert(s.subrange(0, n) =~= s);
    }
}

proof fn lemma_count_all(s: Seq<EntryState>, p: spec_fn(EntryState) -> bool)
    requires
        forall|i: int| 0 <= i < s.len() ==> p(#[trigger] s[i]),
    ensures
        count_where(s, p) == s.len(),
    decreases s.len(),
{
    if s.len() > 0 {
        assert forall|i: int| 0 <= i < s.len() - 1 implies p(#[trigger] s.drop_last()[i]) by {
            assert(s.drop_last()[i] == s[i]);
        }
        lemma_count_all(s.drop_last(), p);
    }
}

proof fn lemma_in_flight_len(e: Seq<UploadFileInfoView>, s: Seq<EntryState>, n: nat)
    requires
        n <= s.len(),
    ensures
        in_flight_upto(e, s, n).len() == count_where(s.subrange(0, n as int), |x: EntryState| x == EntryState::InFlight),
    decreases n,
{
    if n > 0 {
        lemma_in_flight_len(e, s, (n - 1) as nat);
        assert(s.subrange(0, n as int).drop_last() =~= s.subrange(0, n - 1));
    }
}

/// When every entry of a batch is completed, successes and failures together
/// are as many as the entries, the bytes accounted for are the sizes of all
/// entries, and no entry is in flight.
pub proof fn lemma_terminal_totals(b: &UploadBatch)
    requires
        b.wf(),
        b@.finished() == b@.entries.len(),
    ensures
        b@.succeeded() + b@.failed() == b@.entries.len(),
        b@.dispatched() == b@.entries.len(),
        b@.bytes() == b@.total_bytes(),
        b@.in_flight().len() == 0,
{
    let v = b@;
    lemma_count_split(
        v.states,
        |s: EntryState| is_done(s),
        |s: EntryState| s == EntryState::Succeeded,
        |s: EntryState| s == EntryState::Failed,
    );
    lemma_count_full(v.states, |s: EntryState| is_done(s));
    assert forall|i: int| 0 <= i < v.states.len() implies is_started(#[trigger] v.states[i]) by {
        assert(is_done(v.states[i]));
    }
    lemma_count_all(v.states, |s: EntryState| is_started(s));
    assert(v.entries.subrange(0, v.entries.len() as int) =~= v.entries);
    assert forall|i: int| 0 <= i < v.states.len() implies !(#[trigger] v.states[i] == EntryState::InFlight) by {
        assert(is_done(v.states[i]));
    }
    lemma_count_none(v.states, |s: EntryState| s == EntryState::InFlight);
    lemma_in_flight_len(v.entries, v.states, v.states.len());
    assert(v.states.subrange(0, v.states.len() as int) =~= v.states);
}

/// Each entry has at most one `Started` event, and a `Completed` event only
/// after it; an entry is in flight exactly when it has started and not
/// completed. When every entry is completed, each has exactly one event of
/// each kind.
pub proof fn lemma_one_start_one_completion(b: &UploadBatch)
    requires
        b.wf(),
    ensures
        forall|i: int|
            0 <= i < b@.entries.len() ==> completions(b@.log, i as u64) <= #[trigger] starts(b@.log, i as u64) <= 1,
        forall|i: int|
            0 <= i < b@.entries.len() ==> (#[trigger] b@.states[i] == EntryState::InFlight <==> (starts(
                b@.log,
                i as u64,
            ) == 1 && completions(b@.log, i as u64) == 0)),
        b@.finished() == b@.entries.len() ==> forall|i: int|
            0 <= i < b@.entries.len() ==> #[trigger] starts(b@.log, i as u64) == 1 && completions(b@.log, i as u64) == 1,
{
    let v = b@;
    assert forall|i: int| 0 <= i < v.entries.len() implies completions(v.log, i as u64) <= #[trigger] starts(v.log, i as u64) <= 1 by {
        assert(is_started(v.states[i]) || !is_done(v.states[i]));
    }
    if v.finished() == v.entries.len() {
        lemma_count_full(v.states, |s: EntryState| is_done(s));
        assert forall|i: int| 0 <= i < v.entries.len() implies #[trigger] starts(v.log, i as u64) == 1
            && completions(v.log, i as u64) == 1 by {
            assert(is_done(v.states[i]));
            assert(is_started(v.states[i]));
            assert(starts(v.log, i as u64) == if is_started(v.states[i]) { 1nat } else { 0nat });
            assert(completions(v.log, i as u64) == if is_done(v.states[i]) { 1nat } else { 0nat });
        }
        assert(forall|i: int|
            0 <= i < b@.entries.len() ==> #[trigger] starts(b@.log, i as u64) == 1 && completions(b@.log, i as u64) == 1);
    }
}

/// The entries in flight never outnumber the concurrency limit.
pub proof fn lemma_in_flight_bounded(b: &UploadBatch)
    requires
        b.wf(),
    ensures
        b@.in_flight().len() == b@.in_flight_count(),
        b@.in_flight().len() <= b@.concurrency,
{
    let v = b@;
    lemma_in_flight_len(v.entries, v.states, v.states.len());
    assert(v.states.subrange(0, v.states.len() as int) =~= v.states);
}

/// Starting a pending entry adds one to the dispatched count and leaves the
/// finished count; completing an entry in flight adds one to the finished
/// count and leaves the dispatched count: neither count ever goes down.
pub proof fn lemma_counters_monotone(v: UploadBatchView, i: int, success: bool)
    requires
        0 <= i < v.states.len(),
    ensures
        v.states[i] == EntryState::Pending ==> v.start(i).dispatched() == v.dispatched() + 1
            && v.start(i).finished() == v.finished(),
        v.states[i] == EntryState::InFlight ==> v.complete(i, success).finished() == v.finished() + 1
            && v.complete(i, success).dispatched() == v.dispatched(),
{
    let x = if success {
        EntryState::Succeeded
    } else {
        EntryState::Failed
    };
    lemma_count_update(v.states, i, EntryState::InFlight, |s: EntryState| is_started(s));
    lemma_count_update(v.states, i, EntryState::InFlight, |s: EntryState| is_done(s));
    lemma_count_update(v.states, i, x, |s: EntryState| is_started(s));
    lemma_count_update(v.states, i, x, |s: EntryState| is_done(s));
}

} // verus!
