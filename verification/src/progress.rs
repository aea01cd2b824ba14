//! Progress reporting from the device-programming collaborator, modelled on
//! plain values: event kinds, per-operation labels, and the per-port progress
//! percentage arithmetic.

use vstd::prelude::*;

verus! {

/// Spinner-style progress (no known total) or a bar with a known total.
#[derive(Debug, Clone, Copy, PartialEq, Eq, Structural)]
pub enum TauriProgressType {
    Spinner,
    Bar { total: u64 },
}

/// The operation a progress stream belongs to.
#[derive(Debug, Clone, Copy, PartialEq, Eq, Structural)]
pub enum TauriProgressOperation {
    Connect,
    DownloadStub,
    EraseFlash,
    EraseRegion,
    EraseAllRegions,
    Verify,
    CheckRedownload,
    WriteFlash,
    ReadFlash,
    Unknown,
}

/// The terminal status of one progress stream.
#[derive(Debug, Clone)]
pub enum TauriProgressStatus {
    Success,
    Retry,
    Skipped,
    Required,
    NotFound,
    Failed(String),
    Aborted,
}

/// The context a progress stream starts or updates with.
#[derive(Debug, Clone, Copy, PartialEq, Eq, Structural)]
pub struct TauriProgressContext {
    pub step: i32,
    pub progress_type: TauriProgressType,
    pub operation: TauriProgressOperation,
}

/// A progress event relayed to observers.
#[derive(Debug, Clone)]
pub struct TauriProgressEvent {
    pub id: u64,
    pub event_type: String,
    pub step: String,
    pub message: String,
    pub current: Option<u64>,
    pub total: Option<u64>,
}

/// The known total of a progress stream, if it has one.
pub fn total_from_progress_type(progress_type: &TauriProgressType) -> (r: Option<u64>)
    ensures
        r == match *progress_type {
            TauriProgressType::Spinner => None::<u64>,
            TauriProgressType::Bar { total } => Some(total),
        },
{
    match progress_type {
        TauriProgressType::Spinner => None,
        TauriProgressType::Bar { total } => Some(*total),
    }
}

/// The short label shown for each operation kind.
pub open spec fn operation_label_spec(op: TauriProgressOperation) -> Seq<char> {
    match op {
        TauriProgressOperation::Connect => "Connecting"@,
        TauriProgressOperation::DownloadStub => "Downloading stub"@,
        TauriProgressOperation::EraseFlash => "Erasing flash"@,
        TauriProgressOperation::EraseRegion => "Erasing region"@,
        TauriProgressOperation::EraseAllRegions => "Erasing all regions"@,
        TauriProgressOperation::Verify => "Verifying"@,
        TauriProgressOperation::CheckRedownload => "Checking"@,
        TauriProgressOperation::WriteFlash => "Flashing"@,
        TauriProgressOperation::ReadFlash => "Reading"@,
        TauriProgressOperation::Unknown => "Processing"@,
    }
}

/// The short label shown for an operation.
pub fn operation_label(operation: &TauriProgressOperation) -> (r: &'static str)
    ensures
        r@ == operation_label_spec(*operation),
{
    match operation {
        TauriProgressOperation::Connect => "Connecting",
        TauriProgressOperation::DownloadStub => "Downloading stub",
        TauriProgressOperation::EraseFlash => "Erasing flash",
        TauriProgressOperation::EraseRegion => "Erasing region",
        TauriProgressOperation::EraseAllRegions => "Erasing all regions",
        TauriProgressOperation::Verify => "Verifying",
        TauriProgressOperation::CheckRedownload => "Checking",
        TauriProgressOperation::WriteFlash => "Flashing",
        TauriProgressOperation::ReadFlash => "Reading",
        TauriProgressOperation::Unknown => "Processing",
    }
}

/// The percentage a counter stands at: `current * 100 / total`, saturated at
/// the 64-bit product and capped at 100; zero while no total is known.
pub open spec fn percent_spec(current: u64, total: u64) -> int {
    if total == 0 {
        0
    } else {
        let prod: int = if current * 100 > 0xffff_ffff_ffff_ffff {
            0xffff_ffff_ffff_ffff
        } else {
            current * 100
        };
        if prod / (total as int) > 100 {
            100
        } else {
            prod / (total as int)
        }
    }
}

/// Computes the progress percentage of a counter.
pub fn progress_percent(current: u64, total: u64) -> (p: u8)
    ensures
        p as int == percent_spec(current, total),
{
    if total == 0 {
        return 0;
    }
    let prod = match current.checked_mul(100) {
        Some(p) => p,
        None => u64::MAX,
    };
    let q = prod / total;
    proof {
        assert(prod / total <= prod) by (nonlinear_arith)
            requires
                total >= 1,
        ;
    }
    if q > 100 {
        100
    } else {
        q as u8
    }
}

/// One tracked progress stream of a port's worker.
#[derive(Debug, Clone, Copy, PartialEq, Eq, Structural)]
pub struct ProgressEntry {
    pub id: u64,
    pub ctx: TauriProgressContext,
    pub current: u64,
    pub total: Option<u64>,
}

/// The tracked stream with the given id exists.
pub open spec fn track_has(es: Seq<ProgressEntry>, id: u64) -> bool {
    exists|i: int| 0 <= i < es.len() && es[i].id == id
}

/// The tracked stream with the given id (meaningful when `track_has`).
pub open spec fn track_at(es: Seq<ProgressEntry>, id: u64) -> ProgressEntry {
    es[choose|i: int| 0 <= i < es.len() && es[i].id == id]
}

/// No stream id occurs twice.
pub open spec fn track_ids_unique(es: Seq<ProgressEntry>) -> bool {
    forall|i: int, j: int| 0 <= i < j < es.len() ==> es[i].id != es[j].id
}

/// The update a progress event asks the registry to apply to its port.
pub struct PortProgressUpdate {
    pub progress: Option<u8>,
    pub message: Option<String>,
}

/// Tracks the progress streams of one port's worker and turns the
/// collaborator's events into port progress updates.
pub struct PortProgressTracker {
    pub entries: Vec<ProgressEntry>,
}

fn track_find(es: &Vec<ProgressEntry>, id: u64) -> (r: Option<usize>)
    ensures
        match r {
            Some(i) => i < es@.len() && es@[i as int].id == id,
            None => !track_has(es@, id),
        },
{
    let mut k: usize = 0;
    while k < es.len()
        invariant
            k <= es@.len(),
            forall|t: int| 0 <= t < k ==> es@[t].id != id,
        decreases es@.len() - k,
    {
        if es[k].id == id {
            return Some(k);
        }
        k = k + 1;
    }
    proof {
        if track_has(es@, id) {
            let i = choose|i: int| 0 <= i < es@.len() && es@[i].id == id;
            assert(es@[i].id != id);
        }
    }
    None
}

proof fn lemma_track_frame(es: Seq<ProgressEntry>, i: int, e: ProgressEntry)
    requires
        track_ids_unique(es),
        0 <= i < es.len(),
        es[i].id == e.id,
    ensures
        track_ids_unique(es.update(i, e)),
        forall|d: u64| #[trigger] track_has(es.update(i, e), d) == track_has(es, d),
        track_at(es.update(i, e), e.id) == e,
        forall|d: u64|
            track_has(es, d) && d != e.id ==> #[trigger] track_at(es.update(i, e), d) == track_at(
                es,
                d,
            ),
{
    let ups = es.update(i, e);
    assert forall|a: int, b: int| 0 <= a < b < ups.len() implies ups[a].id != ups[b].id by {
        assert(es[a].id != es[b].id);
    }
    assert forall|d: u64| #[trigger] track_has(ups, d) == track_has(es, d) by {
        if track_has(ups, d) {
            let j = choose|j: int| 0 <= j < ups.len() && ups[j].id == d;
            assert(es[j].id == d || j == i);
            if j == i {
                assert(es[i].id == d);
            }
            assert(track_has(es, d));
        }
        if track_has(es, d) {
            let j = choose|j: int| 0 <= j < es.len() && es[j].id == d;
            assert(ups[j].id == d || j == i);
            if j == i {
                assert(ups[i].id == d);
            }
            assert(track_has(ups, d));
        }
    }
    assert forall|a: int| 0 <= a < ups.len() && ups[a].id == e.id implies a == i by {
        if a != i {
            assert(es[a].id == e.id);
            if a < i {
                assert(es[a].id != es[i].id);
            } else {
                assert(es[i].id != es[a].id);
            }
        }
    }
    assert(track_at(ups, e.id) == e);
    assert forall|d: u64| track_has(es, d) && d != e.id implies #[trigger] track_at(ups, d)
        == track_at(es, d) by {
        let j = choose|j: int| 0 <= j < es.len() && es[j].id == d;
        assert(j != i);
        assert(ups[j].id == d);
        let j2 = choose|j2: int| 0 <= j2 < ups.len() && ups[j2].id == d;
        if j2 != j {
            if j2 == i {
                assert(ups[i].id == e.id);
            } else {
                assert(es[j2].id == d);
                if j2 < j {
                    assert(es[j2].id != es[j].id);
                } else {
                    assert(es[j].id != es[j2].id);
                }
            }
        }
        let j3 = choose|j3: int| 0 <= j3 < es.len() && es[j3].id == d;
        if j3 != j {
            if j3 < j {
                assert(es[j3].id != es[j].id);
            } else {
                assert(es[j].id != es[j3].id);
            }
        }
    }
}

proof fn lemma_track_push(es: Seq<ProgressEntry>, e: ProgressEntry)
    requires
        track_ids_unique(es),
        !track_has(es, e.id),
    ensures
        track_ids_unique(es.push(e)),
        forall|d: u64| #[trigger] track_has(es.push(e), d) == (track_has(es, d) || d == e.id),
        track_at(es.push(e), e.id) == e,
        forall|d: u64|
            track_has(es, d) ==> #[trigger] track_at(es.push(e), d) == track_at(es, d),
{
    let ups = es.push(e);
    assert forall|a: int, b: int| 0 <= a < b < ups.len() implies ups[a].id != ups[b].id by {
        if b < es.len() {
            assert(es[a].id != es[b].id);
        } else {
            assert(ups[a] == es[a]);
            if es[a].id == e.id {
                assert(track_has(es, e.id));
            }
        }
    }
    assert forall|d: u64| #[trigger] track_has(ups, d) == (track_has(es, d) || d == e.id) by {
        if track_has(ups, d) {
            let j = choose|j: int| 0 <= j < ups.len() && ups[j].id == d;
            if j < es.len() {
                assert(es[j].id == d);
                assert(track_has(es, d));
            } else {
                assert(ups[j] == e);
            }
        }
        if track_has(es, d) {
            let j = choose|j: int| 0 <= j < es.len() && es[j].id == d;
            assert(ups[j].id == d);
            assert(track_has(ups, d));
        }
        if d == e.id {
            assert(ups[es.len() as int].id == d);
            assert(track_has(ups, d));
        }
    }
    assert forall|a: int| 0 <= a < ups.len() && ups[a].id == e.id implies a == es.len() by {
        if a < es.len() {
            assert(track_has(es, e.id));
        }
    }
    assert(track_at(ups, e.id) == e);
    assert forall|d: u64| track_has(es, d) implies #[trigger] track_at(ups, d) == track_at(
        es,
        d,
    ) by {
        let j = choose|j: int| 0 <= j < es.len() && es[j].id == d;
        assert(ups[j].id == d);
        let j2 = choose|j2: int| 0 <= j2 < ups.len() && ups[j2].id == d;
        if j2 == es.len() {
            assert(track_has(es, e.id));
        } else if j2 != j {
            if j2 < j {
                assert(es[j2].id != es[j].id);
            } else {
                assert(es[j].id != es[j2].id);
            }
        }
        let j3 = choose|j3: int| 0 <= j3 < es.len() && es[j3].id == d;
        if j3 != j {
            if j3 < j {
                assert(es[j3].id != es[j].id);
            } else {
                assert(es[j].id != es[j3].id);
            }
        }
    }
}

impl PortProgressTracker {
    /// All tracked streams carry distinct ids.
    pub open spec fn wf(self) -> bool {
        track_ids_unique(self.entries@)
    }

    /// A tracker with no streams.
    pub fn new() -> (r: PortProgressTracker)
        ensures
            r.wf(),
            r.entries@.len() == 0,
    {
        PortProgressTracker { entries: Vec::new() }
    }

    /// A stream starts (or restarts): remembers its context and counter and
    /// asks for the operation's label with the counter's percentage (zero
    /// for a spinner).
    pub fn on_start(&mut self, id: u64, ctx: TauriProgressContext, current: Option<u64>) -> (u:
        PortProgressUpdate)
        requires
            old(self).wf(),
        ensures
            final(self).wf(),
            track_has(final(self).entries@, id),
            ({
                let e = track_at(final(self).entries@, id);
                &&& e.id == id
                &&& e.ctx == ctx
                &&& e.current == match current {
                    Some(c) => c,
                    None => 0u64,
                }
                &&& e.total == match ctx.progress_type {
                    TauriProgressType::Spinner => None::<u64>,
                    TauriProgressType::Bar { total } => Some(total),
                }
            }),
            forall|d: u64|
                d != id ==> #[trigger] track_has(final(self).entries@, d) == track_has(
                    old(self).entries@,
                    d,
                ),
            forall|d: u64|
                track_has(old(self).entries@, d) && d != id ==> #[trigger] track_at(
                    final(self).entries@,
                    d,
                ) == track_at(old(self).entries@, d),
            u.progress == Some(
                (match ctx.progress_type {
                    TauriProgressType::Spinner => 0int,
                    TauriProgressType::Bar { total } => percent_spec(
                        match current {
                            Some(c) => c,
                            None => 0u64,
                        },
                        total,
                    ),
                }) as u8,
            ),
            (u.message matches Some(m) && m@ == operation_label_spec(ctx.operation)),
    {
        let cur: u64 = match current {
            Some(c) => c,
            None => 0,
        };
        let total = total_from_progress_type(&ctx.progress_type);
        let e = ProgressEntry { id, ctx, current: cur, total };
        let ghost before = self.entries@;
        match track_find(&self.entries, id) {
            Some(i) => {
                self.entries.set(i, e);
                proof {
                    lemma_track_frame(before, i as int, e);
                }
            },
            None => {
                self.entries.push(e);
                proof {
                    lemma_track_push(before, e);
                }
            },
        }
        let progress: u8 = match total {
            Some(t) => progress_percent(cur, t),
            None => 0,
        };
        PortProgressUpdate {
            progress: Some(progress),
            message: Some(String::from_str(operation_label(&ctx.operation))),
        }
    }

    /// A stream's context changes: remembers the new context (the counter is
    /// kept) and asks for the new operation label with a reset percentage.
    pub fn on_update(&mut self, id: u64, ctx: TauriProgressContext) -> (u: PortProgressUpdate)
        requires
            old(self).wf(),
        ensures
            final(self).wf(),
            track_has(old(self).entries@, id) ==> track_has(final(self).entries@, id) && ({
                let e0 = track_at(old(self).entries@, id);
                let e = track_at(final(self).entries@, id);
                e.id == id && e.ctx == ctx && e.current == e0.current && e.total == e0.total
            }),
            !track_has(old(self).entries@, id) ==> final(self).entries@ == old(self).entries@,
            forall|d: u64|
                d != id ==> #[trigger] track_has(final(self).entries@, d) == track_has(
                    old(self).entries@,
                    d,
                ),
            forall|d: u64|
                track_has(old(self).entries@, d) && d != id ==> #[trigger] track_at(
                    final(self).entries@,
                    d,
                ) == track_at(old(self).entries@, d),
            u.progress == Some(0u8),
            (u.message matches Some(m) && m@ == operation_label_spec(ctx.operation)),
    {
        let ghost before = self.entries@;
        match track_find(&self.entries, id) {
            Some(i) => {
                proof {
                    let j = choose|j: int| 0 <= j < before.len() && before[j].id == id;
                    if j != i {
                        if j < i {
                            assert(before[j].id != before[i as int].id);
                        } else {
                            assert(before[i as int].id != before[j].id);
                        }
                    }
                }
                let old_e = self.entries[i];
                let e = ProgressEntry { id, ctx, current: old_e.current, total: old_e.total };
                self.entries.set(i, e);
                proof {
                    lemma_track_frame(before, i as int, e);
                }
            },
            None => {},
        }
        PortProgressUpdate {
            progress: Some(0),
            message: Some(String::from_str(operation_label(&ctx.operation))),
        }
    }

    /// A stream advances: bumps its counter (saturating) and, when a
    /// positive total is known, asks for the new percentage.
    pub fn on_advance(&mut self, id: u64, delta: u64) -> (u: PortProgressUpdate)
        requires
            old(self).wf(),
        ensures
            final(self).wf(),
            track_has(old(self).entries@, id) ==> track_has(final(self).entries@, id) && ({
                let e0 = track_at(old(self).entries@, id);
                let e = track_at(final(self).entries@, id);
                &&& e.id == id
                &&& e.ctx == e0.ctx
                &&& e.total == e0.total
                &&& e.current as nat == if e0.current as nat + delta as nat
                    > 0xffff_ffff_ffff_ffff {
                    0xffff_ffff_ffff_ffffnat
                } else {
                    e0.current as nat + delta as nat
                }
                &&& u.progress == match e0.total {
                    Some(t) => if t > 0 {
                        Some((percent_spec(e.current, t)) as u8)
                    } else {
                        None::<u8>
                    },
                    None => None::<u8>,
                }
            }),
            !track_has(old(self).entries@, id) ==> final(self).entries@ == old(self).entries@
                && u.progress is None,
            forall|d: u64|
                d != id ==> #[trigger] track_has(final(self).entries@, d) == track_has(
                    old(self).entries@,
                    d,
                ),
            forall|d: u64|
                track_has(old(self).entries@, d) && d != id ==> #[trigger] track_at(
                    final(self).entries@,
                    d,
                ) == track_at(old(self).entries@, d),
            u.message is None,
    {
        let ghost before = self.entries@;
        match track_find(&self.entries, id) {
            Some(i) => {
                proof {
                    let j = choose|j: int| 0 <= j < before.len() && before[j].id == id;
                    if j != i {
                        if j < i {
                            assert(before[j].id != before[i as int].id);
                        } else {
                            assert(before[i as int].id != before[j].id);
                        }
                    }
                }
                let old_e = self.entries[i];
                let e = ProgressEntry {
                    id,
                    ctx: old_e.ctx,
                    current: old_e.current.saturating_add(delta),
                    total: old_e.total,
                };
                self.entries.set(i, e);
                proof {
                    lemma_track_frame(before, i as int, e);
                }
                let progress: Option<u8> = match old_e.total {
                    Some(t) => if t > 0 {
                        Some(progress_percent(e.current, t))
                    } else {
                        None
                    },
                    None => None,
                };
                PortProgressUpdate { progress, message: None }
            },
            None => PortProgressUpdate { progress: None, message: None },
        }
    }

    /// A stream finishes: forgets it, and reports whether a successful
    /// write-flash operation completed, which drives the port to its
    /// terminal `Success` state.
    pub fn on_finish(&mut self, id: u64, status: &TauriProgressStatus) -> (write_done: bool)
        requires
            old(self).wf(),
        ensures
            final(self).wf(),
            !track_has(final(self).entries@, id),
            forall|d: u64|
                d != id ==> #[trigger] track_has(final(self).entries@, d) == track_has(
                    old(self).entries@,
                    d,
                ),
            forall|d: u64|
                track_has(old(self).entries@, d) && d != id ==> #[trigger] track_at(
                    final(self).entries@,
                    d,
                ) == track_at(old(self).entries@, d),
            write_done == (track_has(old(self).entries@, id) && status is Success && track_at(
                old(self).entries@,
                id,
            ).ctx.operation == TauriProgressOperation::WriteFlash),
    {
        let ghost before = self.entries@;
        match track_find(&self.entries, id) {
            Some(i) => {
                proof {
                    let j = choose|j: int| 0 <= j < before.len() && before[j].id == id;
                    if j != i {
                        if j < i {
                            assert(before[j].id != before[i as int].id);
                        } else {
                            assert(before[i as int].id != before[j].id);
                        }
                    }
                }
                let old_e = self.entries[i];
                self.entries.remove(i);
                proof {
                    assert forall|a: int, b: int|
                        0 <= a < b < self.entries@.len() implies self.entries@[a].id
                        != self.entries@[b].id by {
                        let oa: int = if a < i {
                            a
                        } else {
                            a + 1
                        };
                        let ob: int = if b < i {
                            b
                        } else {
                            b + 1
                        };
                        assert(self.entries@[a] == before[oa]);
                        assert(self.entries@[b] == before[ob]);
                    }
                    assert forall|d: u64| #[trigger] track_has(self.entries@, d) implies track_has(
                        before,
                        d,
                    ) && d != id by {
                        let j = choose|j: int|
                            0 <= j < self.entries@.len() && self.entries@[j].id == d;
                        let oj: int = if j < i {
                            j
                        } else {
                            j + 1
                        };
                        assert(before[oj].id == d);
                        if d == id {
                            assert(oj != i);
                            if oj < i {
                                assert(before[oj].id != before[i as int].id);
                            } else {
                                assert(before[i as int].id != before[oj].id);
                            }
                        }
                    }
                    assert forall|d: u64|
                        #![trigger track_has(before, d)]
                        track_has(before, d) && d != id implies track_has(self.entries@, d)
                        && track_at(self.entries@, d) == track_at(before, d) by {
                        let j = choose|j: int| 0 <= j < before.len() && before[j].id == d;
                        assert(j != i);
                        let wj: int = if j < i {
                            j
                        } else {
                            j - 1
                        };
                        assert(self.entries@[wj].id == d);
                        assert(track_has(self.entries@, d));
                        let j2 = choose|j2: int|
                            0 <= j2 < self.entries@.len() && self.entries@[j2].id == d;
                        let oj2: int = if j2 < i {
                            j2
                        } else {
                            j2 + 1
                        };
                        assert(before[oj2].id == d);
                        if oj2 != j {
                            if oj2 < j {
                                assert(before[oj2].id != before[j].id);
                            } else {
                                assert(before[j].id != before[oj2].id);
                            }
                        }
                        let j3 = choose|j3: int| 0 <= j3 < before.len() && before[j3].id == d;
                        if j3 != j {
                            if j3 < j {
                                assert(before[j3].id != before[j].id);
                            } else {
                                assert(before[j].id != before[j3].id);
                            }
                        }
                    }
                }
                let is_success = match status {
                    TauriProgressStatus::Success => true,
                    _ => false,
                };
                let write_done = is_success && match old_e.ctx.operation {
                    TauriProgressOperation::WriteFlash => true,
                    _ => false,
                };
                write_done
            },
            None => false,
        }
    }
}

} // verus!
