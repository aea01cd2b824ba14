//! The authoritative session state: the port registry, the pending FIFO
//! queue, the active-worker set, and the counters, together with the
//! well-formedness invariant every operation preserves and the read-only
//! snapshot projection.

use vstd::prelude::*;

use crate::mass_production::MassProductionPortInfo;
use crate::mass_production::MassProductionPortStatus;
use crate::mass_production::MassProductionSnapshot;
use crate::mass_production::MassProductionStartRequest;
use crate::text::lemma_str_lt_trichotomy;
use crate::text::str_lt;
use crate::text::str_lt_exec;

verus! {

/// One orchestration session.  Exactly one value of this type exists per
/// application instance; it is reset, not recreated, on each start.
pub struct MassProductionState {
    pub running: bool,
    pub pending_trigger_flash: bool,
    pub request: Option<MassProductionStartRequest>,
    pub ports: Vec<MassProductionPortInfo>,
    pub queue: Vec<String>,
    pub active_ports: Vec<String>,
    pub session_id: u64,
    pub started_at: Option<u64>,
    pub ended_at: Option<u64>,
    pub manual_stopped: bool,
    pub success_count: u32,
    pub failed_count: u32,
}

/// The concurrency ceiling: `max_concurrency` clamped to 1..=32.
pub open spec fn clamp_concurrency(c: u8) -> int {
    if c < 1 {
        1
    } else if c > 32 {
        32
    } else {
        c as int
    }
}

/// A sequence of port names contains `n`.
pub open spec fn seq_contains_name(s: Seq<String>, n: Seq<char>) -> bool {
    exists|i: int| 0 <= i < s.len() && s[i]@ == n
}

/// No port name occurs twice in the sequence.
pub open spec fn seq_names_unique(s: Seq<String>) -> bool {
    forall|i: int, j: int| 0 <= i < j < s.len() ==> s[i]@ != s[j]@
}

/// The registry holds an entry named `n`.
pub open spec fn has_port(ps: Seq<MassProductionPortInfo>, n: Seq<char>) -> bool {
    exists|i: int| 0 <= i < ps.len() && ps[i].name@ == n
}

/// The index of the registry entry named `n` (meaningful when `has_port`).
pub open spec fn port_index(ps: Seq<MassProductionPortInfo>, n: Seq<char>) -> int {
    choose|i: int| 0 <= i < ps.len() && ps[i].name@ == n
}

/// The registry entry named `n` (meaningful when `has_port`).
pub open spec fn port_with(ps: Seq<MassProductionPortInfo>, n: Seq<char>) -> MassProductionPortInfo {
    ps[port_index(ps, n)]
}

/// No registry entry name occurs twice.
pub open spec fn ports_names_unique(ps: Seq<MassProductionPortInfo>) -> bool {
    forall|i: int, j: int| 0 <= i < j < ps.len() ==> ps[i].name@ != ps[j].name@
}

/// The entries are strictly ascending by name.
pub open spec fn sorted_by_name(ps: Seq<MassProductionPortInfo>) -> bool {
    forall|i: int, j: int| 0 <= i < j < ps.len() ==> str_lt(ps[i].name@, ps[j].name@)
}

impl MassProductionState {
    /// Every known port has exactly one registry entry; the queue holds only
    /// eligible `Queued` ports and is disjoint from the active set; every
    /// active worker belongs to exactly one `Flashing` port; and the active
    /// set never exceeds the clamped concurrency ceiling.
    pub open spec fn wf(self) -> bool {
        &&& ports_names_unique(self.ports@)
        &&& seq_names_unique(self.queue@)
        &&& forall|i: int|
            0 <= i < self.queue@.len() ==> has_port(self.ports@, #[trigger] self.queue@[i]@)
                && port_with(self.ports@, self.queue@[i]@).status
                == MassProductionPortStatus::Queued && port_with(
                self.ports@,
                self.queue@[i]@,
            ).is_allowed && !seq_contains_name(self.active_ports@, self.queue@[i]@)
        &&& seq_names_unique(self.active_ports@)
        &&& forall|i: int|
            0 <= i < self.active_ports@.len() ==> has_port(
                self.ports@,
                #[trigger] self.active_ports@[i]@,
            ) && port_with(self.ports@, self.active_ports@[i]@).status
                == MassProductionPortStatus::Flashing
        &&& forall|i: int|
            0 <= i < self.ports@.len() && (#[trigger] self.ports@[i]).status
                == MassProductionPortStatus::Flashing ==> seq_contains_name(
                self.active_ports@,
                self.ports@[i].name@,
            )
        &&& match self.request {
            Some(req) => 1 <= req.max_concurrency <= 32 && self.active_ports@.len()
                <= req.max_concurrency,
            None => self.active_ports@.len() == 0 && self.queue@.len() == 0 && !self.running,
        }
    }
}

impl Default for MassProductionState {
    /// The state of a session that has never been started.
    fn default() -> (r: MassProductionState)
        ensures
            r.wf(),
            !r.running,
            !r.pending_trigger_flash,
            r.request is None,
            r.ports@.len() == 0,
            r.queue@.len() == 0,
            r.active_ports@.len() == 0,
            r.session_id == 0,
            r.started_at is None,
            r.ended_at is None,
            !r.manual_stopped,
            r.success_count == 0,
            r.failed_count == 0,
    {
        MassProductionState {
            running: false,
            pending_trigger_flash: false,
            request: None,
            ports: Vec::new(),
            queue: Vec::new(),
            active_ports: Vec::new(),
            session_id: 0,
            started_at: None,
            ended_at: None,
            manual_stopped: false,
            success_count: 0,
            failed_count: 0,
        }
    }
}

impl MassProductionState {
    /// Begins a fresh session: clears the registry, the queue, the active
    /// set, and the counters, installs the request, and arms one explicit
    /// flash trigger for the priming scan.
    pub fn reset_for_start(
        &mut self,
        request: MassProductionStartRequest,
        session_id: u64,
        started_at: u64,
    )
        requires
            1 <= request.max_concurrency <= 32,
        ensures
            final(self).wf(),
            final(self).running,
            final(self).pending_trigger_flash,
            final(self).request == Some(request),
            final(self).ports@.len() == 0,
            final(self).queue@.len() == 0,
            final(self).active_ports@.len() == 0,
            final(self).session_id == session_id,
            final(self).started_at == Some(started_at),
            final(self).ended_at is None,
            !final(self).manual_stopped,
            final(self).success_count == 0,
            final(self).failed_count == 0,
    {
        self.running = true;
        self.pending_trigger_flash = true;
        self.request = Some(request);
        self.ports = Vec::new();
        self.queue = Vec::new();
        self.active_ports = Vec::new();
        self.session_id = session_id;
        self.started_at = Some(started_at);
        self.ended_at = None;
        self.manual_stopped = false;
        self.success_count = 0;
        self.failed_count = 0;
    }
}

/// An exact copy of an optional string.
pub fn copy_opt_string(o: &Option<String>) -> (r: Option<String>)
    ensures
        r == *o,
{
    match o {
        Some(s) => Some(s.clone()),
        None => None,
    }
}

/// An exact copy of a registry entry.
pub fn copy_port(p: &MassProductionPortInfo) -> (r: MassProductionPortInfo)
    ensures
        r == *p,
{
    MassProductionPortInfo {
        id: p.id.clone(),
        name: p.name.clone(),
        port_type: p.port_type.clone(),
        vid: copy_opt_string(&p.vid),
        pid: copy_opt_string(&p.pid),
        serial_number: copy_opt_string(&p.serial_number),
        location_path: copy_opt_string(&p.location_path),
        chip: copy_opt_string(&p.chip),
        status: p.status,
        progress: p.progress,
        message: copy_opt_string(&p.message),
        is_allowed: p.is_allowed,
        last_seen_at: p.last_seen_at,
        task_started_at: p.task_started_at,
        task_finished_at: p.task_finished_at,
    }
}

/// A copy of the registry sorted by port name, as observers see it.
fn sorted_ports_copy(ports: &Vec<MassProductionPortInfo>) -> (out: Vec<MassProductionPortInfo>)
    requires
        ports_names_unique(ports@),
    ensures
        out@.len() == ports@.len(),
        sorted_by_name(out@),
        forall|n: Seq<char>| has_port(out@, n) <==> has_port(ports@, n),
        forall|i: int|
            0 <= i < out@.len() ==> #[trigger] out@[i] == port_with(ports@, out@[i].name@),
{
    let mut rest: Vec<MassProductionPortInfo> = Vec::new();
    let mut k: usize = 0;
    while k < ports.len()
        invariant
            k <= ports@.len(),
            rest@ =~= ports@.subrange(0, k as int),
        decreases ports@.len() - k,
    {
        rest.push(copy_port(&ports[k]));
        k = k + 1;
    }
    proof {
        assert(rest@ =~= ports@);
    }
    let ghost orig = ports@;
    let mut out: Vec<MassProductionPortInfo> = Vec::new();
    while rest.len() > 0
        invariant
            ports_names_unique(orig),
            ports_names_unique(rest@),
            ports_names_unique(out@),
            out@.len() + rest@.len() == orig.len(),
            forall|n: Seq<char>| has_port(orig, n) <==> has_port(rest@, n) || has_port(out@, n),
            forall|n: Seq<char>| !(has_port(rest@, n) && has_port(out@, n)),
            forall|i: int|
                0 <= i < out@.len() ==> #[trigger] out@[i] == port_with(orig, out@[i].name@),
            forall|i: int|
                0 <= i < rest@.len() ==> #[trigger] rest@[i] == port_with(orig, rest@[i].name@),
            sorted_by_name(out@),
            forall|i: int, j: int|
                0 <= i < out@.len() && 0 <= j < rest@.len() ==> str_lt(
                    #[trigger] out@[i].name@,
                    #[trigger] rest@[j].name@,
                ),
        decreases rest@.len(),
    {
        let mut m: usize = 0;
        let mut t: usize = 1;
        while t < rest.len()
            invariant
                ports_names_unique(rest@),
                rest@.len() > 0,
                m < t,
                t <= rest@.len(),
                forall|u: int| 0 <= u < t && u != m ==> !str_lt(#[trigger] rest@[u].name@, rest@[m as int].name@),
            decreases rest@.len() - t,
        {
            if str_lt_exec(rest[t].name.as_str(), rest[m].name.as_str()) {
                proof {
                    assert forall|u: int| 0 <= u < t + 1 && u != t implies !str_lt(
                        #[trigger] rest@[u].name@,
                        rest@[t as int].name@,
                    ) by {
                        if str_lt(rest@[u].name@, rest@[t as int].name@) {
                            crate::text::lemma_str_lt_trans(
                                rest@[u].name@,
                                rest@[t as int].name@,
                                rest@[m as int].name@,
                            );
                            crate::text::lemma_str_lt_irrefl(rest@[m as int].name@);
                        }
                    }
                }
                m = t;
            }
            t = t + 1;
        }
        proof {
            assert forall|u: int| 0 <= u < rest@.len() && u != m implies str_lt(
                rest@[m as int].name@,
                #[trigger] rest@[u].name@,
            ) by {
                lemma_str_lt_trichotomy(rest@[m as int].name@, rest@[u].name@);
                if u < m {
                    assert(rest@[u].name@ != rest@[m as int].name@);
                } else {
                    assert(rest@[m as int].name@ != rest@[u].name@);
                }
            }
        }
        let ghost old_rest = rest@;
        let ghost old_out = out@;
        let p = rest.remove(m);
        out.push(p);
        proof {
            assert(old_rest[m as int] == p);
            assert forall|i: int| 0 <= i < rest@.len() implies #[trigger] rest@[i] == old_rest[
                if i < m {
                    i
                } else {
                    i + 1
                }
            ] by {}
            assert(out@ =~= old_out.push(p));
            assert(out@[old_out.len() as int] == p);
            assert(has_port(out@, p.name@));
            // membership moves from the remainder to the output, one name at a time
            assert forall|n: Seq<char>| has_port(old_rest, n) implies has_port(rest@, n)
                || has_port(out@, n) by {
                let i = port_index(old_rest, n);
                if i < m {
                    assert(rest@[i].name@ == n);
                } else if i > m {
                    assert(rest@[i - 1].name@ == n);
                } else {
                    assert(n == p.name@);
                }
            }
            assert forall|n: Seq<char>| has_port(rest@, n) implies has_port(old_rest, n) && n
                != p.name@ by {
                let i = port_index(rest@, n);
                let oi: int = if i < m {
                    i
                } else {
                    i + 1
                };
                assert(old_rest[oi].name@ == n);
                if n == p.name@ {
                    assert(old_rest[oi].name@ == old_rest[m as int].name@);
                    assert(oi != m);
                    assert(false);
                }
            }
            assert forall|n: Seq<char>| has_port(out@, n) implies has_port(old_out, n) || n
                == p.name@ by {
                let i = port_index(out@, n);
                if i < old_out.len() {
                    assert(old_out[i].name@ == n);
                }
            }
            assert forall|n: Seq<char>| has_port(old_out, n) implies has_port(out@, n) by {
                let i = port_index(old_out, n);
                assert(out@[i].name@ == n);
            }
            // uniqueness of the output after the push
            assert(!has_port(old_out, p.name@));
            assert forall|i: int, j: int| 0 <= i < j < out@.len() implies out@[i].name@
                != out@[j].name@ by {
                if j == old_out.len() {
                    assert(out@[i] == old_out[i]);
                    if out@[i].name@ == p.name@ {
                        assert(has_port(old_out, p.name@));
                    }
                } else {
                    assert(out@[i] == old_out[i]);
                    assert(out@[j] == old_out[j]);
                }
            }
            // the selected entry is strictly below everything still remaining
            assert forall|i: int, j: int| 0 <= i < out@.len() && 0 <= j < rest@.len() implies
                str_lt(#[trigger] out@[i].name@, #[trigger] rest@[j].name@) by {
                let oj: int = if j < m {
                    j
                } else {
                    j + 1
                };
                assert(rest@[j] == old_rest[oj]);
                if i < old_out.len() {
                    assert(str_lt(old_out[i].name@, old_rest[oj].name@));
                } else {
                    assert(out@[i] == p);
                    assert(str_lt(old_rest[m as int].name@, old_rest[oj].name@));
                }
            }
            // sortedness of the output after the push
            assert forall|i: int, j: int| 0 <= i < j < out@.len() implies str_lt(
                out@[i].name@,
                out@[j].name@,
            ) by {
                if j == old_out.len() {
                    assert(out@[i] == old_out[i]);
                    assert(str_lt(old_out[i].name@, old_rest[m as int].name@));
                } else {
                    assert(out@[i] == old_out[i]);
                    assert(out@[j] == old_out[j]);
                }
            }
        }
    }
    out
}

/// The number of registry entries with the given status.
pub open spec fn count_status(
    ps: Seq<MassProductionPortInfo>,
    st: MassProductionPortStatus,
) -> nat
    decreases ps.len(),
{
    if ps.len() == 0 {
        0
    } else {
        count_status(ps.drop_last(), st) + if ps.last().status == st {
            1nat
        } else {
            0nat
        }
    }
}

/// A count capped at what a 32-bit counter can hold.
pub open spec fn cap_u32(n: nat) -> nat {
    if n > 0xffff_ffff {
        0xffff_ffff
    } else {
        n
    }
}

/// Counts the registry entries with the given status, saturating at the
/// counter's capacity.
fn count_status_exec(ports: &Vec<MassProductionPortInfo>, st: MassProductionPortStatus) -> (c: u32)
    ensures
        c as nat == cap_u32(count_status(ports@, st)),
{
    let mut c: u32 = 0;
    let mut i: usize = 0;
    while i < ports.len()
        invariant
            i <= ports@.len(),
            c as nat == cap_u32(count_status(ports@.subrange(0, i as int), st)),
        decreases ports@.len() - i,
    {
        let ghost prefix = ports@.subrange(0, i as int);
        if ports[i].status == st {
            c = c.saturating_add(1);
        }
        proof {
            let next = ports@.subrange(0, i + 1);
            assert(next.drop_last() =~= prefix);
            assert(next.last() == ports@[i as int]);
        }
        i = i + 1;
    }
    proof {
        assert(ports@.subrange(0, ports@.len() as int) =~= ports@);
    }
    c
}

/// Saturating 32-bit addition, as the counters use it.
pub open spec fn sat_add_u32(a: nat, b: nat) -> nat {
    if a + b > 0xffff_ffff {
        0xffff_ffff
    } else {
        a + b
    }
}

impl MassProductionState {
    /// Projects the session state into a read-only snapshot: flags, request
    /// summary, exact counters, and the full port list sorted by name.
    pub fn to_snapshot(&self) -> (r: MassProductionSnapshot)
        requires
            self.wf(),
        ensures
            r.is_running == self.running,
            r.is_enabled == (self.running || self.active_ports@.len() > 0),
            r.session_id == self.session_id,
            r.started_at == self.started_at,
            r.ended_at == self.ended_at,
            r.manual_stopped == self.manual_stopped,
            match self.request {
                Some(req) => {
                    &&& (r.chip_model matches Some(c) && c@ == req.chip_model@)
                    &&& (r.memory_type matches Some(m) && m@ == req.memory_type@)
                    &&& r.auto_download == req.auto_download
                    &&& r.max_concurrency == req.max_concurrency
                },
                None => {
                    &&& r.chip_model is None
                    &&& r.memory_type is None
                    &&& !r.auto_download
                    &&& r.max_concurrency == 8
                },
            },
            r.queued_count as nat == cap_u32(
                count_status(self.ports@, MassProductionPortStatus::Queued),
            ),
            r.active_count as nat == cap_u32(
                count_status(self.ports@, MassProductionPortStatus::Flashing),
            ),
            r.success_count == self.success_count,
            r.failed_count == self.failed_count,
            r.total_count as nat == sat_add_u32(
                sat_add_u32(
                    sat_add_u32(self.success_count as nat, self.failed_count as nat),
                    r.active_count as nat,
                ),
                r.queued_count as nat,
            ),
            r.ports@.len() == self.ports@.len(),
            sorted_by_name(r.ports@),
            forall|n: Seq<char>| has_port(r.ports@, n) <==> has_port(self.ports@, n),
            forall|i: int|
                0 <= i < r.ports@.len() ==> #[trigger] r.ports@[i] == port_with(
                    self.ports@,
                    r.ports@[i].name@,
                ),
    {
        let ports = sorted_ports_copy(&self.ports);
        let queued_count = count_status_exec(&self.ports, MassProductionPortStatus::Queued);
        let active_count = count_status_exec(&self.ports, MassProductionPortStatus::Flashing);
        let total_count = self.success_count.saturating_add(self.failed_count).saturating_add(
            active_count,
        ).saturating_add(queued_count);
        let is_enabled = self.running || self.active_ports.len() > 0;
        let (chip_model, memory_type, auto_download, max_concurrency) = match &self.request {
            Some(req) => (
                Some(req.chip_model.clone()),
                Some(req.memory_type.clone()),
                req.auto_download,
                req.max_concurrency,
            ),
            None => (None, None, false, 8u8),
        };
        MassProductionSnapshot {
            is_running: self.running,
            is_enabled,
            session_id: self.session_id,
            started_at: self.started_at,
            ended_at: self.ended_at,
            manual_stopped: self.manual_stopped,
            chip_model,
            memory_type,
            auto_download,
            max_concurrency,
            queued_count,
            active_count,
            success_count: self.success_count,
            failed_count: self.failed_count,
            total_count,
            ports,
        }
    }
}

} // verus!
