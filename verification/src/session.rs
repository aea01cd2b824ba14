//! The session's state transitions: the scan cycle that reconciles the
//! registry with one enumeration of the attached ports, the dispatcher that
//! admits queued ports into the bounded active set, worker completion, and
//! the start/stop/refresh/reconfigure lifecycle.

use vstd::prelude::*;

use crate::filter::is_port_allowed;
use crate::filter::port_allowed;
use crate::mass_production::MassProductionPortInfo;
use crate::mass_production::MassProductionPortStatus;
use crate::mass_production::MassProductionStartRequest;
use crate::scanner::scanned_at;
use crate::scanner::scanned_has;
use crate::scanner::scanned_names_unique;
use crate::scanner::ScannedPort;
use crate::state::clamp_concurrency;
use crate::state::copy_opt_string;
use crate::state::copy_port;
use crate::state::has_port;
use crate::state::port_index;
use crate::state::port_with;
use crate::state::ports_names_unique;
use crate::state::seq_contains_name;
use crate::state::seq_names_unique;
use crate::state::MassProductionState;
use crate::text::str_eq_exec;

verus! {

/// A scan queues eligible idle ports when a session is running and automatic
/// download is on, an explicit flash trigger was given, or a pending trigger
/// is armed.
pub open spec fn should_queue_cond(pre: MassProductionState, trigger_flash: bool) -> bool {
    pre.running && match pre.request {
        Some(r) => r.auto_download || trigger_flash || pre.pending_trigger_flash,
        None => false,
    }
}

/// The identity record of an enumerated port, as the filter engine sees it.
pub open spec fn scanned_as_port(sp: ScannedPort) -> MassProductionPortInfo {
    MassProductionPortInfo {
        id: sp.name,
        name: sp.name,
        port_type: sp.port_type,
        vid: sp.vid,
        pid: sp.pid,
        serial_number: sp.serial_number,
        location_path: sp.location_path,
        chip: None,
        status: MassProductionPortStatus::Idle,
        progress: 0,
        message: None,
        is_allowed: true,
        last_seen_at: 0,
        task_started_at: None,
        task_finished_at: None,
    }
}

/// Eligibility of an enumerated port; with no request installed everything
/// is allowed.
pub open spec fn scanned_allowed(sp: ScannedPort, req: Option<MassProductionStartRequest>) -> bool {
    match req {
        Some(r) => port_allowed(scanned_as_port(sp), r),
        None => true,
    }
}

/// The message field holds exactly this text.
pub open spec fn msg_is(m: Option<String>, s: Seq<char>) -> bool {
    m matches Some(x) && x@ == s
}

/// The chip label the active request assigns.
pub open spec fn request_chip(req: Option<MassProductionStartRequest>) -> Option<String> {
    match req {
        Some(r) => Some(r.chip_model),
        None => None,
    }
}

/// A port that left the pool and may return to it.
pub open spec fn port_was_gone(old_p: MassProductionPortInfo) -> bool {
    old_p.status == MassProductionPortStatus::Filtered || old_p.status
        == MassProductionPortStatus::Disconnected
}

/// An enumerated port is queued by this scan: it is eligible, the scan is
/// queueing, the port is neither active nor already queued, and it is new or
/// idle or returning from `Filtered`/`Disconnected`.
pub open spec fn scan_queue_add(
    sp: ScannedPort,
    pre: MassProductionState,
    trigger_flash: bool,
) -> bool {
    &&& scanned_allowed(sp, pre.request)
    &&& should_queue_cond(pre, trigger_flash)
    &&& !seq_contains_name(pre.active_ports@, sp.name@)
    &&& !seq_contains_name(pre.queue@, sp.name@)
    &&& (!has_port(pre.ports@, sp.name@) || port_with(pre.ports@, sp.name@).status
        == MassProductionPortStatus::Idle || port_was_gone(port_with(pre.ports@, sp.name@)))
}

/// The registry entry an enumerated port leaves behind after one scan.
pub open spec fn scan_port_result(
    pre: MassProductionState,
    sp: ScannedPort,
    p: MassProductionPortInfo,
    trigger_flash: bool,
    now: u64,
) -> bool {
    let n = sp.name@;
    let allowed = scanned_allowed(sp, pre.request);
    let active = seq_contains_name(pre.active_ports@, n);
    if has_port(pre.ports@, n) {
        let old_p = port_with(pre.ports@, n);
        &&& p.name == old_p.name
        &&& p.id == old_p.id
        &&& p.chip == old_p.chip
        &&& p.port_type == sp.port_type
        &&& p.vid == sp.vid
        &&& p.pid == sp.pid
        &&& p.serial_number == sp.serial_number
        &&& p.location_path == sp.location_path
        &&& p.last_seen_at == now
        &&& p.is_allowed == allowed
        &&& if !allowed {
            if active {
                &&& p.status == old_p.status
                &&& p.progress == old_p.progress
                &&& p.message == old_p.message
                &&& p.task_started_at == old_p.task_started_at
                &&& p.task_finished_at == old_p.task_finished_at
            } else {
                &&& p.status == MassProductionPortStatus::Filtered
                &&& p.progress == 0
                &&& msg_is(p.message, "Filtered"@)
                &&& p.task_started_at == old_p.task_started_at
                &&& p.task_finished_at == old_p.task_finished_at
            }
        } else {
            let was_gone = port_was_gone(old_p);
            let base_status = if was_gone {
                MassProductionPortStatus::Idle
            } else {
                old_p.status
            };
            if scan_queue_add(sp, pre, trigger_flash) && base_status
                == MassProductionPortStatus::Idle {
                &&& p.status == MassProductionPortStatus::Queued
                &&& msg_is(p.message, "Queued"@)
                &&& p.task_started_at == Some(now)
                &&& p.task_finished_at is None
                &&& p.progress == if was_gone {
                    0
                } else {
                    old_p.progress
                }
            } else if was_gone {
                &&& p.status == MassProductionPortStatus::Idle
                &&& p.progress == 0
                &&& msg_is(p.message, "Ready"@)
                &&& p.task_started_at is None
                &&& p.task_finished_at is None
            } else {
                &&& p.status == old_p.status
                &&& p.progress == old_p.progress
                &&& p.message == old_p.message
                &&& p.task_started_at == old_p.task_started_at
                &&& p.task_finished_at == old_p.task_finished_at
            }
        }
    } else {
        &&& p.name == sp.name
        &&& p.id == sp.name
        &&& p.chip == request_chip(pre.request)
        &&& p.port_type == sp.port_type
        &&& p.vid == sp.vid
        &&& p.pid == sp.pid
        &&& p.serial_number == sp.serial_number
        &&& p.location_path == sp.location_path
        &&& p.last_seen_at == now
        &&& p.is_allowed == allowed
        &&& p.progress == 0
        &&& if !allowed {
            &&& p.status == MassProductionPortStatus::Filtered
            &&& msg_is(p.message, "Filtered"@)
            &&& p.task_started_at is None
            &&& p.task_finished_at is None
        } else if scan_queue_add(sp, pre, trigger_flash) {
            &&& p.status == MassProductionPortStatus::Queued
            &&& msg_is(p.message, "Queued"@)
            &&& p.task_started_at == Some(now)
            &&& p.task_finished_at is None
        } else {
            &&& p.status == MassProductionPortStatus::Idle
            &&& msg_is(p.message, "Ready"@)
            &&& p.task_started_at is None
            &&& p.task_finished_at is None
        }
    }
}

/// The registry entry a vanished port leaves behind: its first missed scan
/// moves it to `Disconnected`; afterwards only its eligibility is cleared.
pub open spec fn scan_disconnect_result(
    old_p: MassProductionPortInfo,
    p: MassProductionPortInfo,
    now: u64,
) -> bool {
    &&& p.name == old_p.name
    &&& p.id == old_p.id
    &&& p.chip == old_p.chip
    &&& p.port_type == old_p.port_type
    &&& p.vid == old_p.vid
    &&& p.pid == old_p.pid
    &&& p.serial_number == old_p.serial_number
    &&& p.location_path == old_p.location_path
    &&& p.last_seen_at == old_p.last_seen_at
    &&& p.is_allowed == false
    &&& p.task_started_at == old_p.task_started_at
    &&& if old_p.status != MassProductionPortStatus::Disconnected {
        &&& p.status == MassProductionPortStatus::Disconnected
        &&& p.progress == 0
        &&& msg_is(p.message, "Device disconnected"@)
        &&& p.task_finished_at == Some(now)
    } else {
        &&& p.status == old_p.status
        &&& p.progress == old_p.progress
        &&& p.message == old_p.message
        &&& p.task_finished_at == old_p.task_finished_at
    }
}

/// The queue entries that survive one scan: those whose device was seen
/// again and is still eligible, in their original order.
pub open spec fn queue_kept(
    q: Seq<String>,
    scanned: Seq<ScannedPort>,
    req: Option<MassProductionStartRequest>,
) -> Seq<String>
    decreases q.len(),
{
    if q.len() == 0 {
        Seq::empty()
    } else {
        let rest = queue_kept(q.drop_last(), scanned, req);
        if scanned_has(scanned, q.last()@) && scanned_allowed(scanned_at(scanned, q.last()@), req) {
            rest.push(q.last())
        } else {
            rest
        }
    }
}

/// The names one scan appends to the queue, in enumeration order.
pub open spec fn queue_additions(
    scanned: Seq<ScannedPort>,
    pre: MassProductionState,
    trigger_flash: bool,
) -> Seq<String>
    decreases scanned.len(),
{
    if scanned.len() == 0 {
        Seq::empty()
    } else {
        let rest = queue_additions(scanned.drop_last(), pre, trigger_flash);
        if scan_queue_add(scanned.last(), pre, trigger_flash) {
            rest.push(scanned.last().name)
        } else {
            rest
        }
    }
}

/// The registry after the seen pass of a scan over the given enumeration
/// prefix: every enumerated port carries its scan result, every other entry
/// is untouched, and nothing else was added.
pub open spec fn scan_seen_post(
    pre: MassProductionState,
    fp: Seq<MassProductionPortInfo>,
    scanned: Seq<ScannedPort>,
    trigger_flash: bool,
    now: u64,
) -> bool {
    &&& ports_names_unique(fp)
    &&& forall|n: Seq<char>|
        #![trigger has_port(fp, n)]
        has_port(fp, n) <==> has_port(pre.ports@, n) || scanned_has(scanned, n)
    &&& forall|j: int|
        0 <= j < scanned.len() ==> scan_port_result(
            pre,
            #[trigger] scanned[j],
            port_with(fp, scanned[j].name@),
            trigger_flash,
            now,
        )
    &&& forall|n: Seq<char>|
        #![trigger port_with(fp, n)]
        has_port(pre.ports@, n) && !scanned_has(scanned, n) ==> port_with(fp, n) == port_with(
            pre.ports@,
            n,
        )
}

/// The registry after a whole scan: enumerated ports carry their scan
/// results, vanished inactive ports are disconnected, vanished active ports
/// are untouched.
pub open spec fn scan_registry_post(
    pre: MassProductionState,
    fp: Seq<MassProductionPortInfo>,
    scanned: Seq<ScannedPort>,
    trigger_flash: bool,
    now: u64,
) -> bool {
    &&& ports_names_unique(fp)
    &&& forall|n: Seq<char>|
        #![trigger has_port(fp, n)]
        has_port(fp, n) <==> has_port(pre.ports@, n) || scanned_has(scanned, n)
    &&& forall|j: int|
        0 <= j < scanned.len() ==> scan_port_result(
            pre,
            #[trigger] scanned[j],
            port_with(fp, scanned[j].name@),
            trigger_flash,
            now,
        )
    &&& forall|n: Seq<char>|
        #![trigger port_with(fp, n)]
        has_port(pre.ports@, n) && !scanned_has(scanned, n) ==> if seq_contains_name(
            pre.active_ports@,
            n,
        ) {
            port_with(fp, n) == port_with(pre.ports@, n)
        } else {
            scan_disconnect_result(port_with(pre.ports@, n), port_with(fp, n), now)
        }
}

/// If some entry of a unique-name registry carries the name, it is the entry
/// `port_with` denotes.
pub proof fn lemma_port_with_is(ps: Seq<MassProductionPortInfo>, n: Seq<char>, j: int)
    requires
        ports_names_unique(ps),
        0 <= j < ps.len(),
        ps[j].name@ == n,
    ensures
        has_port(ps, n),
        port_index(ps, n) == j,
        port_with(ps, n) == ps[j],
{
    assert(has_port(ps, n));
    let i = port_index(ps, n);
    if i != j {
        if i < j {
            assert(ps[i].name@ != ps[j].name@);
        } else {
            assert(ps[j].name@ != ps[i].name@);
        }
    }
}

/// Updating one entry in place, keeping its name, changes `port_with` for
/// that name alone.
pub proof fn lemma_port_with_update(
    ps: Seq<MassProductionPortInfo>,
    i: int,
    p: MassProductionPortInfo,
)
    requires
        ports_names_unique(ps),
        0 <= i < ps.len(),
        ps[i].name@ == p.name@,
    ensures
        ports_names_unique(ps.update(i, p)),
        forall|n: Seq<char>| #![trigger has_port(ps.update(i, p), n)] has_port(ps.update(i, p), n) == has_port(ps, n),
        port_with(ps.update(i, p), p.name@) == p,
        forall|n: Seq<char>|
            #![trigger port_with(ps.update(i, p), n)]
            has_port(ps, n) && n != p.name@ ==> port_with(ps.update(i, p), n) == port_with(ps, n),
{
    let ups = ps.update(i, p);
    assert forall|a: int, b: int| 0 <= a < b < ups.len() implies ups[a].name@ != ups[b].name@ by {
        assert(ps[a].name@ != ps[b].name@);
    }
    assert forall|n: Seq<char>| #![trigger has_port(ups, n)] has_port(ups, n) == has_port(ps, n) by {
        if has_port(ups, n) {
            let j = port_index(ups, n);
            assert(ps[j].name@ == n || j == i);
            if j == i {
                assert(ps[i].name@ == n);
            }
            assert(has_port(ps, n));
        }
        if has_port(ps, n) {
            let j = port_index(ps, n);
            assert(ups[j].name@ == n || j == i);
            if j == i {
                assert(ups[i].name@ == n);
            }
            assert(has_port(ups, n));
        }
    }
    lemma_port_with_is(ups, p.name@, i);
    assert forall|n: Seq<char>|
        #![trigger port_with(ups, n)]
        has_port(ps, n) && n != p.name@ implies port_with(ups, n) == port_with(ps, n) by {
        let j = port_index(ps, n);
        assert(ps[j].name@ == n);
        assert(j != i);
        assert(ups[j].name@ == n);
        lemma_port_with_is(ups, n, j);
        lemma_port_with_is(ps, n, j);
    }
}

/// Appending an entry with a fresh name changes `port_with` for that name
/// alone.
pub proof fn lemma_port_with_push(ps: Seq<MassProductionPortInfo>, p: MassProductionPortInfo)
    requires
        ports_names_unique(ps),
        !has_port(ps, p.name@),
    ensures
        ports_names_unique(ps.push(p)),
        forall|n: Seq<char>|
            #![trigger has_port(ps.push(p), n)]
            has_port(ps.push(p), n) == (has_port(ps, n) || n == p.name@),
        port_with(ps.push(p), p.name@) == p,
        forall|n: Seq<char>|
            #![trigger port_with(ps.push(p), n)]
            has_port(ps, n) ==> port_with(ps.push(p), n) == port_with(ps, n),
{
    let ups = ps.push(p);
    assert forall|a: int, b: int| 0 <= a < b < ups.len() implies ups[a].name@ != ups[b].name@ by {
        if b < ps.len() {
            assert(ps[a].name@ != ps[b].name@);
        } else {
            assert(ups[a] == ps[a]);
            if ps[a].name@ == p.name@ {
                assert(has_port(ps, p.name@));
            }
        }
    }
    assert forall|n: Seq<char>|
        #![trigger has_port(ups, n)]
        has_port(ups, n) == (has_port(ps, n) || n == p.name@) by {
        if has_port(ups, n) {
            let j = port_index(ups, n);
            if j < ps.len() {
                assert(ps[j].name@ == n);
                assert(has_port(ps, n));
            } else {
                assert(ups[j] == p);
            }
        }
        if has_port(ps, n) {
            let j = port_index(ps, n);
            assert(ups[j].name@ == n);
            assert(has_port(ups, n));
        }
        if n == p.name@ {
            assert(ups[ps.len() as int].name@ == n);
            assert(has_port(ups, n));
        }
    }
    lemma_port_with_is(ups, p.name@, ps.len() as int);
    assert forall|n: Seq<char>| #![trigger port_with(ups, n)] has_port(ps, n) implies port_with(
        ups,
        n,
    ) == port_with(ps, n) by {
        let j = port_index(ps, n);
        assert(ps[j].name@ == n);
        assert(ups[j].name@ == n);
        lemma_port_with_is(ups, n, j);
        lemma_port_with_is(ps, n, j);
    }
}

/// Membership in an enumeration prefix grows one port at a time.
pub proof fn lemma_scanned_take_split(s: Seq<ScannedPort>, k: int, n: Seq<char>)
    requires
        0 <= k < s.len(),
    ensures
        scanned_has(s.take(k + 1), n) == (scanned_has(s.take(k), n) || s[k].name@ == n),
{
    if scanned_has(s.take(k + 1), n) {
        let i = choose|i: int| 0 <= i < s.take(k + 1).len() && (#[trigger] s.take(k + 1)[i]).name@ == n;
        if i < k {
            assert(s.take(k)[i].name@ == n);
            assert(scanned_has(s.take(k), n));
        } else {
            assert(s.take(k + 1)[i] == s[k]);
        }
    }
    if scanned_has(s.take(k), n) {
        let i = choose|i: int| 0 <= i < s.take(k).len() && (#[trigger] s.take(k)[i]).name@ == n;
        assert(s.take(k + 1)[i].name@ == n);
        assert(scanned_has(s.take(k + 1), n));
    }
    if s[k].name@ == n {
        assert(s.take(k + 1)[k].name@ == n);
        assert(scanned_has(s.take(k + 1), n));
    }
}

/// Every name the scan appends belongs to an enumerated port it queued.
pub proof fn lemma_queue_additions_sound(
    scanned: Seq<ScannedPort>,
    pre: MassProductionState,
    trigger_flash: bool,
    n: Seq<char>,
)
    requires
        seq_contains_name(queue_additions(scanned, pre, trigger_flash), n),
    ensures
        exists|j: int|
            0 <= j < scanned.len() && (#[trigger] scanned[j]).name@ == n && scan_queue_add(
                scanned[j],
                pre,
                trigger_flash,
            ),
    decreases scanned.len(),
{
    if scanned.len() > 0 {
        let q = queue_additions(scanned, pre, trigger_flash);
        let rest = queue_additions(scanned.drop_last(), pre, trigger_flash);
        if scan_queue_add(scanned.last(), pre, trigger_flash) {
            let i = choose|i: int| 0 <= i < q.len() && q[i]@ == n;
            if i < rest.len() {
                assert(seq_contains_name(rest, n));
                lemma_queue_additions_sound(scanned.drop_last(), pre, trigger_flash, n);
                let j = choose|j: int|
                    0 <= j < scanned.drop_last().len() && (#[trigger] scanned.drop_last()[j]).name@
                        == n && scan_queue_add(scanned.drop_last()[j], pre, trigger_flash);
                assert(scanned[j] == scanned.drop_last()[j]);
            } else {
                assert(q[i] == scanned.last().name);
                assert(scanned[scanned.len() - 1].name@ == n);
            }
        } else {
            assert(seq_contains_name(rest, n));
            lemma_queue_additions_sound(scanned.drop_last(), pre, trigger_flash, n);
            let j = choose|j: int|
                0 <= j < scanned.drop_last().len() && (#[trigger] scanned.drop_last()[j]).name@ == n
                    && scan_queue_add(scanned.drop_last()[j], pre, trigger_flash);
            assert(scanned[j] == scanned.drop_last()[j]);
        }
    }
}

/// The names a scan appends are unique when the enumeration's are.
pub proof fn lemma_queue_additions_unique(
    scanned: Seq<ScannedPort>,
    pre: MassProductionState,
    trigger_flash: bool,
)
    requires
        scanned_names_unique(scanned),
    ensures
        seq_names_unique(queue_additions(scanned, pre, trigger_flash)),
        forall|i: int|
            0 <= i < queue_additions(scanned, pre, trigger_flash).len() ==> scanned_has(
                scanned,
                #[trigger] queue_additions(scanned, pre, trigger_flash)[i]@,
            ),
    decreases scanned.len(),
{
    if scanned.len() > 0 {
        let s0 = scanned.drop_last();
        lemma_queue_additions_unique(s0, pre, trigger_flash);
        let rest = queue_additions(s0, pre, trigger_flash);
        let q = queue_additions(scanned, pre, trigger_flash);
        assert forall|i: int| 0 <= i < rest.len() implies scanned_has(
            scanned,
            #[trigger] rest[i]@,
        ) by {
            let j = choose|j: int| 0 <= j < s0.len() && s0[j].name@ == rest[i]@;
            assert(scanned[j].name@ == rest[i]@);
        }
        if scan_queue_add(scanned.last(), pre, trigger_flash) {
            assert(q == rest.push(scanned.last().name));
            if seq_contains_name(rest, scanned.last().name@) {
                let i = choose|i: int| 0 <= i < rest.len() && rest[i]@ == scanned.last().name@;
                lemma_queue_additions_sound(s0, pre, trigger_flash, rest[i]@);
                let j = choose|j: int|
                    0 <= j < s0.len() && (#[trigger] s0[j]).name@ == rest[i]@ && scan_queue_add(
                        s0[j],
                        pre,
                        trigger_flash,
                    );
                assert(scanned[j].name@ == scanned[scanned.len() - 1].name@);
                assert(false);
            }
            assert forall|a: int, b: int| 0 <= a < b < q.len() implies q[a]@ != q[b]@ by {
                if b < rest.len() {
                } else {
                    assert(q[a] == rest[a]);
                    assert(q[b] == scanned.last().name);
                    if rest[a]@ == scanned.last().name@ {
                        assert(seq_contains_name(rest, scanned.last().name@));
                    }
                }
            }
            assert(scanned[scanned.len() - 1].name@ == scanned.last().name@);
            assert forall|i: int| 0 <= i < q.len() implies scanned_has(scanned, #[trigger] q[i]@) by {
                if i < rest.len() {
                } else {
                    assert(q[i]@ == scanned.last().name@);
                }
            }
        } else {
            assert(q == rest);
        }
    }
}

/// Every surviving queue entry came from the queue, was seen again, and is
/// still eligible.
pub proof fn lemma_queue_kept_sound(
    q: Seq<String>,
    scanned: Seq<ScannedPort>,
    req: Option<MassProductionStartRequest>,
    n: Seq<char>,
)
    requires
        seq_contains_name(queue_kept(q, scanned, req), n),
    ensures
        seq_contains_name(q, n),
        scanned_has(scanned, n),
        scanned_allowed(scanned_at(scanned, n), req),
    decreases q.len(),
{
    if q.len() > 0 {
        let kept = queue_kept(q, scanned, req);
        let rest = queue_kept(q.drop_last(), scanned, req);
        let pushed = scanned_has(scanned, q.last()@) && scanned_allowed(
            scanned_at(scanned, q.last()@),
            req,
        );
        let i = choose|i: int| 0 <= i < kept.len() && kept[i]@ == n;
        if pushed && i == rest.len() {
            assert(kept[i] == q.last());
            assert(q[q.len() - 1]@ == n);
        } else {
            assert(kept[i] == rest[i]);
            assert(seq_contains_name(rest, n));
            lemma_queue_kept_sound(q.drop_last(), scanned, req, n);
            let j = choose|j: int| 0 <= j < q.drop_last().len() && q.drop_last()[j]@ == n;
            assert(q[j]@ == n);
        }
    }
}

/// The surviving queue entries keep their names unique.
pub proof fn lemma_queue_kept_unique(
    q: Seq<String>,
    scanned: Seq<ScannedPort>,
    req: Option<MassProductionStartRequest>,
)
    requires
        seq_names_unique(q),
    ensures
        seq_names_unique(queue_kept(q, scanned, req)),
    decreases q.len(),
{
    if q.len() > 0 {
        assert(seq_names_unique(q.drop_last()));
        lemma_queue_kept_unique(q.drop_last(), scanned, req);
        let rest = queue_kept(q.drop_last(), scanned, req);
        let kept = queue_kept(q, scanned, req);
        if scanned_has(scanned, q.last()@) && scanned_allowed(scanned_at(scanned, q.last()@), req) {
            if seq_contains_name(rest, q.last()@) {
                lemma_queue_kept_sound(q.drop_last(), scanned, req, q.last()@);
                let j = choose|j: int| 0 <= j < q.drop_last().len() && q.drop_last()[j]@ == q.last()@;
                assert(q[j]@ == q[q.len() - 1]@);
                assert(false);
            }
            assert forall|a: int, b: int| 0 <= a < b < kept.len() implies kept[a]@ != kept[b]@ by {
                if b == rest.len() {
                    assert(kept[a] == rest[a]);
                    if rest[a]@ == q.last()@ {
                        assert(seq_contains_name(rest, q.last()@));
                    }
                }
            }
        }
    }
}

/// Looks a port up by name.
fn find_port_index(ports: &Vec<MassProductionPortInfo>, name: &str) -> (r: Option<usize>)
    ensures
        match r {
            Some(i) => i < ports@.len() && ports@[i as int].name@ == name@,
            None => !has_port(ports@, name@),
        },
{
    let mut k: usize = 0;
    while k < ports.len()
        invariant
            k <= ports@.len(),
            forall|t: int| 0 <= t < k ==> ports@[t].name@ != name@,
        decreases ports@.len() - k,
    {
        if str_eq_exec(ports[k].name.as_str(), name) {
            return Some(k);
        }
        k = k + 1;
    }
    proof {
        if has_port(ports@, name@) {
            let i = port_index(ports@, name@);
            assert(ports@[i].name@ != name@);
        }
    }
    None
}

/// Decides whether a list of names holds the given one.
fn contains_name_exec(v: &Vec<String>, name: &str) -> (r: bool)
    ensures
        r == seq_contains_name(v@, name@),
{
    let mut k: usize = 0;
    while k < v.len()
        invariant
            k <= v@.len(),
            forall|t: int| 0 <= t < k ==> v@[t]@ != name@,
        decreases v@.len() - k,
    {
        if str_eq_exec(v[k].as_str(), name) {
            proof {
                assert(v@[k as int]@ == name@);
            }
            return true;
        }
        k = k + 1;
    }
    proof {
        if seq_contains_name(v@, name@) {
            let i = choose|i: int| 0 <= i < v@.len() && v@[i]@ == name@;
            assert(v@[i]@ != name@);
        }
    }
    false
}

/// Looks a name up in a list of names.
fn find_name_index(v: &Vec<String>, name: &str) -> (r: Option<usize>)
    ensures
        match r {
            Some(i) => i < v@.len() && v@[i as int]@ == name@,
            None => !seq_contains_name(v@, name@),
        },
{
    let mut k: usize = 0;
    while k < v.len()
        invariant
            k <= v@.len(),
            forall|t: int| 0 <= t < k ==> v@[t]@ != name@,
        decreases v@.len() - k,
    {
        if str_eq_exec(v[k].as_str(), name) {
            proof {
                assert(v@[k as int]@ == name@);
            }
            return Some(k);
        }
        k = k + 1;
    }
    proof {
        if seq_contains_name(v@, name@) {
            let i = choose|i: int| 0 <= i < v@.len() && v@[i]@ == name@;
            assert(v@[i]@ != name@);
        }
    }
    None
}

/// Decides whether the enumeration holds a port of the given name.
fn scanned_contains_exec(scanned: &Vec<ScannedPort>, name: &str) -> (r: bool)
    ensures
        r == scanned_has(scanned@, name@),
{
    let mut k: usize = 0;
    while k < scanned.len()
        invariant
            k <= scanned@.len(),
            forall|t: int| 0 <= t < k ==> scanned@[t].name@ != name@,
        decreases scanned@.len() - k,
    {
        if str_eq_exec(scanned[k].name.as_str(), name) {
            proof {
                assert(scanned@[k as int].name@ == name@);
            }
            return true;
        }
        k = k + 1;
    }
    proof {
        if scanned_has(scanned@, name@) {
            let i = choose|i: int| 0 <= i < scanned@.len() && scanned@[i].name@ == name@;
            assert(scanned@[i].name@ != name@);
        }
    }
    false
}

/// Replaces one registry entry.
fn set_port(ports: &mut Vec<MassProductionPortInfo>, i: usize, p: MassProductionPortInfo)
    requires
        i < old(ports)@.len(),
    ensures
        final(ports)@ == old(ports)@.update(i as int, p),
{
    let ghost before = ports@;
    ports.remove(i);
    ports.insert(i, p);
    proof {
        assert(ports@ =~= before.update(i as int, p));
    }
}

/// Membership after appending one name.
pub proof fn lemma_contains_push(s: Seq<String>, x: String, n: Seq<char>)
    ensures
        seq_contains_name(s.push(x), n) == (seq_contains_name(s, n) || x@ == n),
{
    if seq_contains_name(s.push(x), n) {
        let i = choose|i: int| 0 <= i < s.push(x).len() && s.push(x)[i]@ == n;
        if i < s.len() {
            assert(s[i]@ == n);
            assert(seq_contains_name(s, n));
        }
    }
    if seq_contains_name(s, n) {
        let i = choose|i: int| 0 <= i < s.len() && s[i]@ == n;
        assert(s.push(x)[i]@ == n);
        assert(seq_contains_name(s.push(x), n));
    }
    if x@ == n {
        assert(s.push(x)[s.len() as int]@ == n);
        assert(seq_contains_name(s.push(x), n));
    }
}

/// The index of a name in a list (meaningful when the list contains it).
pub open spec fn name_index(s: Seq<String>, n: Seq<char>) -> int {
    choose|i: int| 0 <= i < s.len() && s[i]@ == n
}

/// One scan cycle over one enumeration of the attached ports: refreshes the
/// identity and eligibility of every seen port, returns reappearing ports to
/// `Idle`, queues eligible idle ports when the session is queueing, moves
/// vanished inactive ports to `Disconnected`, drops queue entries whose
/// device vanished or became ineligible, and disarms the pending trigger.
/// Ports being flashed are never transitioned by the scan.
#[verifier::rlimit(60)]
pub fn scan_ports(
    state: &mut MassProductionState,
    scanned: &Vec<ScannedPort>,
    trigger_flash: bool,
    now: u64,
)
    requires
        old(state).wf(),
        scanned_names_unique(scanned@),
    ensures
        final(state).wf(),
        scan_registry_post(*old(state), final(state).ports@, scanned@, trigger_flash, now),
        final(state).queue@ == queue_kept(old(state).queue@, scanned@, old(state).request)
            + queue_additions(scanned@, *old(state), trigger_flash),
        final(state).active_ports@ == old(state).active_ports@,
        final(state).running == old(state).running,
        final(state).request == old(state).request,
        !final(state).pending_trigger_flash,
        final(state).session_id == old(state).session_id,
        final(state).started_at == old(state).started_at,
        final(state).ended_at == old(state).ended_at,
        final(state).manual_stopped == old(state).manual_stopped,
        final(state).success_count == old(state).success_count,
        final(state).failed_count == old(state).failed_count,
{
    let ghost pre = *old(state);
    let should_q = state.running && (match &state.request {
        Some(r) => r.auto_download || trigger_flash || state.pending_trigger_flash,
        None => false,
    });
    let mut additions: Vec<String> = Vec::new();
    let mut k: usize = 0;
    proof {
        assert(scanned@.take(0) =~= Seq::<ScannedPort>::empty());
    }
    while k < scanned.len()
        invariant
            pre.wf(),
            scanned_names_unique(scanned@),
            k <= scanned@.len(),
            state.running == pre.running,
            state.pending_trigger_flash == pre.pending_trigger_flash,
            state.request == pre.request,
            state.queue@ == pre.queue@,
            state.active_ports@ == pre.active_ports@,
            state.session_id == pre.session_id,
            state.started_at == pre.started_at,
            state.ended_at == pre.ended_at,
            state.manual_stopped == pre.manual_stopped,
            state.success_count == pre.success_count,
            state.failed_count == pre.failed_count,
            should_q == should_queue_cond(pre, trigger_flash),
            scan_seen_post(pre, state.ports@, scanned@.take(k as int), trigger_flash, now),
            additions@ == queue_additions(scanned@.take(k as int), pre, trigger_flash),
        decreases scanned@.len() - k,
    {
        let sp = &scanned[k];
        let ghost spg = scanned@[k as int];
        let ghost n = spg.name@;
        proof {
            if scanned_has(scanned@.take(k as int), n) {
                let i = choose|i: int|
                    0 <= i < scanned@.take(k as int).len() && (#[trigger] scanned@.take(
                        k as int,
                    )[i]).name@ == n;
                assert(scanned@[i].name@ == scanned@[k as int].name@);
                assert(false);
            }
        }
        let cand = MassProductionPortInfo {
            id: sp.name.clone(),
            name: sp.name.clone(),
            port_type: sp.port_type.clone(),
            vid: copy_opt_string(&sp.vid),
            pid: copy_opt_string(&sp.pid),
            serial_number: copy_opt_string(&sp.serial_number),
            location_path: copy_opt_string(&sp.location_path),
            chip: None,
            status: MassProductionPortStatus::Idle,
            progress: 0,
            message: None,
            is_allowed: true,
            last_seen_at: 0,
            task_started_at: None,
            task_finished_at: None,
        };
        proof {
            assert(cand == scanned_as_port(spg));
        }
        let allowed = match &state.request {
            Some(r) => is_port_allowed(&cand, r),
            None => true,
        };
        proof {
            assert(allowed == scanned_allowed(spg, pre.request));
        }
        let active_mem = contains_name_exec(&state.active_ports, sp.name.as_str());
        let in_queue = contains_name_exec(&state.queue, sp.name.as_str());
        let ghost before_ports = state.ports@;
        let found = find_port_index(&state.ports, sp.name.as_str());
        match found {
            Some(i) => {
                proof {
                    assert(has_port(before_ports, n));
                    assert(has_port(pre.ports@, n));
                    lemma_port_with_is(before_ports, n, i as int);
                    assert(port_with(before_ports, n) == port_with(pre.ports@, n));
                }
                let ghost old_pg = port_with(pre.ports@, n);
                let old_p = copy_port(&state.ports[i]);
                let mut p = MassProductionPortInfo {
                    id: old_p.id,
                    name: old_p.name,
                    port_type: sp.port_type.clone(),
                    vid: copy_opt_string(&sp.vid),
                    pid: copy_opt_string(&sp.pid),
                    serial_number: copy_opt_string(&sp.serial_number),
                    location_path: copy_opt_string(&sp.location_path),
                    chip: old_p.chip,
                    status: old_p.status,
                    progress: old_p.progress,
                    message: old_p.message,
                    is_allowed: allowed,
                    last_seen_at: now,
                    task_started_at: old_p.task_started_at,
                    task_finished_at: old_p.task_finished_at,
                };
                if !allowed {
                    if !active_mem {
                        p.status = MassProductionPortStatus::Filtered;
                        p.progress = 0;
                        p.message = Some(String::from_str("Filtered"));
                    }
                } else {
                    let was_gone = p.status == MassProductionPortStatus::Filtered || p.status
                        == MassProductionPortStatus::Disconnected;
                    if was_gone {
                        p.status = MassProductionPortStatus::Idle;
                        p.progress = 0;
                        p.message = Some(String::from_str("Ready"));
                        p.task_started_at = None;
                        p.task_finished_at = None;
                    }
                    if should_q && !active_mem && !in_queue && p.status
                        == MassProductionPortStatus::Idle {
                        p.status = MassProductionPortStatus::Queued;
                        p.message = Some(String::from_str("Queued"));
                        p.task_started_at = Some(now);
                        p.task_finished_at = None;
                        additions.push(sp.name.clone());
                    }
                }
                proof {
                    assert(scan_port_result(pre, spg, p, trigger_flash, now));
                }
                set_port(&mut state.ports, i, p);
                proof {
                    lemma_port_with_update(before_ports, i as int, p);
                }
            },
            None => {
                proof {
                    assert(!has_port(pre.ports@, n));
                    if seq_contains_name(pre.active_ports@, n) {
                        let a = choose|a: int|
                            0 <= a < pre.active_ports@.len() && pre.active_ports@[a]@ == n;
                        assert(has_port(pre.ports@, pre.active_ports@[a]@));
                        assert(false);
                    }
                    if seq_contains_name(pre.queue@, n) {
                        let a = choose|a: int| 0 <= a < pre.queue@.len() && pre.queue@[a]@ == n;
                        assert(has_port(pre.ports@, pre.queue@[a]@));
                        assert(false);
                    }
                }
                let mut p = cand;
                p.last_seen_at = now;
                p.is_allowed = allowed;
                p.chip = match &state.request {
                    Some(r) => Some(r.chip_model.clone()),
                    None => None,
                };
                if !allowed {
                    p.status = MassProductionPortStatus::Filtered;
                    p.message = Some(String::from_str("Filtered"));
                } else if should_q {
                    p.status = MassProductionPortStatus::Queued;
                    p.message = Some(String::from_str("Queued"));
                    p.task_started_at = Some(now);
                    p.task_finished_at = None;
                    additions.push(sp.name.clone());
                } else {
                    p.message = Some(String::from_str("Ready"));
                }
                proof {
                    assert(scan_port_result(pre, spg, p, trigger_flash, now));
                }
                state.ports.push(p);
                proof {
                    lemma_port_with_push(before_ports, p);
                }
            },
        }
        proof {
            let take1 = scanned@.take(k + 1);
            assert(take1.drop_last() =~= scanned@.take(k as int));
            assert(take1.last() == spg);
            assert(additions@ == queue_additions(take1, pre, trigger_flash));
            assert forall|m: Seq<char>|
                #![trigger has_port(state.ports@, m)]
                has_port(state.ports@, m) <==> has_port(pre.ports@, m) || scanned_has(
                take1,
                m,
            ) by {
                lemma_scanned_take_split(scanned@, k as int, m);
            }
            assert forall|j: int| 0 <= j < take1.len() implies scan_port_result(
                pre,
                #[trigger] take1[j],
                port_with(state.ports@, take1[j].name@),
                trigger_flash,
                now,
            ) by {
                if j < k {
                    assert(take1[j] == scanned@[j]);
                    assert(scanned@.take(k as int)[j] == scanned@[j]);
                    assert(scanned@[j].name@ != n);
                    assert(port_with(state.ports@, scanned@[j].name@) == port_with(
                        before_ports,
                        scanned@[j].name@,
                    ));
                } else {
                    assert(take1[j] == spg);
                }
            }
            assert forall|m: Seq<char>|
                #![trigger port_with(state.ports@, m)]
                has_port(pre.ports@, m) && !scanned_has(take1, m) implies port_with(
                state.ports@,
                m,
            ) == port_with(pre.ports@, m) by {
                lemma_scanned_take_split(scanned@, k as int, m);
                assert(m != n);
                assert(has_port(before_ports, m));
            }
            assert(scan_seen_post(pre, state.ports@, take1, trigger_flash, now));
        }
        k = k + 1;
    }
    proof {
        assert(scanned@.take(scanned@.len() as int) =~= scanned@);
        assert(scan_seen_post(pre, state.ports@, scanned@, trigger_flash, now));
        assert(additions@ == queue_additions(scanned@, pre, trigger_flash));
    }
    let ghost mid = state.ports@;
    let mut t: usize = 0;
    while t < state.ports.len()
        invariant
            pre.wf(),
            scanned_names_unique(scanned@),
            state.running == pre.running,
            state.pending_trigger_flash == pre.pending_trigger_flash,
            state.request == pre.request,
            state.queue@ == pre.queue@,
            state.active_ports@ == pre.active_ports@,
            state.session_id == pre.session_id,
            state.started_at == pre.started_at,
            state.ended_at == pre.ended_at,
            state.manual_stopped == pre.manual_stopped,
            state.success_count == pre.success_count,
            state.failed_count == pre.failed_count,
            scan_seen_post(pre, mid, scanned@, trigger_flash, now),
            state.ports@.len() == mid.len(),
            t <= mid.len(),
            forall|j: int| t <= j < mid.len() ==> state.ports@[j] == mid[j],
            forall|j: int| 0 <= j < mid.len() ==> (#[trigger] state.ports@[j]).name == mid[j].name,
            forall|j: int|
                0 <= j < t ==> if !scanned_has(scanned@, (#[trigger] mid[j]).name@)
                    && !seq_contains_name(pre.active_ports@, mid[j].name@) {
                    scan_disconnect_result(mid[j], state.ports@[j], now)
                } else {
                    state.ports@[j] == mid[j]
                },
        decreases mid.len() - t,
    {
        let name_owned = state.ports[t].name.clone();
        let seen = scanned_contains_exec(scanned, name_owned.as_str());
        let active_mem = contains_name_exec(&state.active_ports, name_owned.as_str());
        if !seen && !active_mem {
            let old_p = copy_port(&state.ports[t]);
            let mut p = old_p;
            if !(p.status == MassProductionPortStatus::Disconnected) {
                p.status = MassProductionPortStatus::Disconnected;
                p.progress = 0;
                p.message = Some(String::from_str("Device disconnected"));
                p.task_finished_at = Some(now);
            }
            p.is_allowed = false;
            let ghost before2 = state.ports@;
            set_port(&mut state.ports, t, p);
            proof {
                assert(scan_disconnect_result(mid[t as int], state.ports@[t as int], now));
                assert forall|j: int| 0 <= j < mid.len() implies (#[trigger] state.ports@[j]).name
                    == mid[j].name by {
                    if j != t {
                        assert(state.ports@[j] == before2[j]);
                    }
                }
            }
        }
        t = t + 1;
    }
    proof {
        assert forall|a: int, b: int| 0 <= a < b < state.ports@.len() implies state.ports@[a].name@
            != state.ports@[b].name@ by {
            assert(state.ports@[a].name == mid[a].name);
            assert(state.ports@[b].name == mid[b].name);
        }
        assert forall|m: Seq<char>|
            #![trigger has_port(state.ports@, m)]
            has_port(state.ports@, m) == has_port(mid, m) by {
            if has_port(state.ports@, m) {
                let i = port_index(state.ports@, m);
                assert(mid[i].name@ == m);
                assert(has_port(mid, m));
            }
            if has_port(mid, m) {
                let i = port_index(mid, m);
                assert(state.ports@[i].name@ == m);
                assert(has_port(state.ports@, m));
            }
        }
        // seen entries were left untouched by the disconnect pass
        assert forall|j: int| 0 <= j < scanned@.len() implies scan_port_result(
            pre,
            #[trigger] scanned@[j],
            port_with(state.ports@, scanned@[j].name@),
            trigger_flash,
            now,
        ) by {
            let m = scanned@[j].name@;
            assert(scanned_has(scanned@, m));
            assert(has_port(mid, m));
            let i = port_index(mid, m);
            assert(mid[i].name@ == m);
            lemma_port_with_is(mid, m, i);
            assert(state.ports@[i] == mid[i]);
            lemma_port_with_is(state.ports@, m, i);
        }
        assert forall|m: Seq<char>|
            #![trigger port_with(state.ports@, m)]
            has_port(pre.ports@, m) && !scanned_has(scanned@, m) implies if seq_contains_name(
            pre.active_ports@,
            m,
        ) {
            port_with(state.ports@, m) == port_with(pre.ports@, m)
        } else {
            scan_disconnect_result(port_with(pre.ports@, m), port_with(state.ports@, m), now)
        } by {
            assert(has_port(mid, m));
            let i = port_index(mid, m);
            assert(mid[i].name@ == m);
            lemma_port_with_is(mid, m, i);
            lemma_port_with_is(state.ports@, m, i);
            assert(port_with(mid, m) == port_with(pre.ports@, m));
        }
        assert(scan_registry_post(pre, state.ports@, scanned@, trigger_flash, now));
    }
    let ghost fp = state.ports@;
    let mut new_queue: Vec<String> = Vec::new();
    let mut u: usize = 0;
    proof {
        assert(pre.queue@.take(0) =~= Seq::<String>::empty());
    }
    while u < state.queue.len()
        invariant
            pre.wf(),
            scanned_names_unique(scanned@),
            state.queue@ == pre.queue@,
            state.ports@ == fp,
            scan_registry_post(pre, fp, scanned@, trigger_flash, now),
            u <= pre.queue@.len(),
            new_queue@ == queue_kept(pre.queue@.take(u as int), scanned@, pre.request),
        decreases pre.queue@.len() - u,
    {
        let ghost n = pre.queue@[u as int]@;
        proof {
            assert(has_port(pre.ports@, n));
            assert(port_with(pre.ports@, n).status == MassProductionPortStatus::Queued);
            assert(port_with(pre.ports@, n).is_allowed);
            assert(!seq_contains_name(pre.active_ports@, n));
            assert(has_port(fp, n));
            if scanned_has(scanned@, n) {
                let j = choose|j: int| 0 <= j < scanned@.len() && (#[trigger] scanned@[j]).name@ == n;
                assert(scan_port_result(
                    pre,
                    scanned@[j],
                    port_with(fp, scanned@[j].name@),
                    trigger_flash,
                    now,
                ));
                let sel = choose|i: int| 0 <= i < scanned@.len() && scanned@[i].name@ == n;
                assert(scanned@[sel].name@ == scanned@[j].name@);
                if sel != j {
                    assert(false);
                }
                assert(scanned_at(scanned@, n) == scanned@[j]);
            }
        }
        let name_owned = state.queue[u].clone();
        let keep = match find_port_index(&state.ports, name_owned.as_str()) {
            Some(i) => {
                proof {
                    lemma_port_with_is(fp, n, i as int);
                }
                state.ports[i].status == MassProductionPortStatus::Queued
            },
            None => false,
        };
        proof {
            assert(keep == (scanned_has(scanned@, n) && scanned_allowed(
                scanned_at(scanned@, n),
                pre.request,
            )));
        }
        if keep {
            new_queue.push(name_owned);
        }
        proof {
            let take1 = pre.queue@.take(u + 1);
            assert(take1.drop_last() =~= pre.queue@.take(u as int));
            assert(take1.last() == pre.queue@[u as int]);
            assert(new_queue@ == queue_kept(take1, scanned@, pre.request));
        }
        u = u + 1;
    }
    proof {
        assert(pre.queue@.take(pre.queue@.len() as int) =~= pre.queue@);
    }
    state.queue = new_queue;
    state.queue.append(&mut additions);
    state.pending_trigger_flash = false;
    proof {
        let kept = queue_kept(pre.queue@, scanned@, pre.request);
        let adds = queue_additions(scanned@, pre, trigger_flash);
        assert(state.queue@ == kept + adds);
        lemma_queue_kept_unique(pre.queue@, scanned@, pre.request);
        lemma_queue_additions_unique(scanned@, pre, trigger_flash);
        // a surviving entry and an addition never name the same port
        assert forall|a: int, b: int| 0 <= a < b < state.queue@.len() implies state.queue@[a]@
            != state.queue@[b]@ by {
            if a < kept.len() && b >= kept.len() {
                assert(state.queue@[a] == kept[a]);
                assert(state.queue@[b] == adds[b - kept.len()]);
                if kept[a]@ == adds[b - kept.len()]@ {
                    assert(seq_contains_name(kept, kept[a]@));
                    lemma_queue_kept_sound(pre.queue@, scanned@, pre.request, kept[a]@);
                    assert(seq_contains_name(adds, adds[b - kept.len()]@));
                    lemma_queue_additions_sound(scanned@, pre, trigger_flash, adds[b - kept.len()]@);
                    let j = choose|j: int|
                        0 <= j < scanned@.len() && (#[trigger] scanned@[j]).name@ == adds[b
                            - kept.len()]@ && scan_queue_add(scanned@[j], pre, trigger_flash);
                    assert(!seq_contains_name(pre.queue@, scanned@[j].name@));
                    assert(false);
                }
            } else if b < kept.len() {
                assert(state.queue@[a] == kept[a]);
                assert(state.queue@[b] == kept[b]);
            } else {
                assert(state.queue@[a] == adds[a - kept.len()]);
                assert(state.queue@[b] == adds[b - kept.len()]);
            }
        }
        // every queue entry names an eligible queued inactive port
        assert forall|i: int|
            0 <= i < state.queue@.len() implies has_port(fp, #[trigger] state.queue@[i]@)
            && port_with(fp, state.queue@[i]@).status == MassProductionPortStatus::Queued
            && port_with(fp, state.queue@[i]@).is_allowed && !seq_contains_name(
            state.active_ports@,
            state.queue@[i]@,
        ) by {
            let m = state.queue@[i]@;
            if i < kept.len() {
                assert(state.queue@[i] == kept[i]);
                assert(seq_contains_name(kept, m));
                lemma_queue_kept_sound(pre.queue@, scanned@, pre.request, m);
                let j = choose|j: int| 0 <= j < scanned@.len() && (#[trigger] scanned@[j]).name@ == m;
                assert(scanned_at(scanned@, m) == scanned@[j]);
                assert(scan_port_result(
                    pre,
                    scanned@[j],
                    port_with(fp, scanned@[j].name@),
                    trigger_flash,
                    now,
                ));
                let qi = choose|qi: int| 0 <= qi < pre.queue@.len() && pre.queue@[qi]@ == m;
                assert(has_port(pre.ports@, pre.queue@[qi]@));
                assert(port_with(pre.ports@, m).status == MassProductionPortStatus::Queued);
                assert(!seq_contains_name(pre.active_ports@, m));
            } else {
                assert(state.queue@[i] == adds[i - kept.len()]);
                assert(seq_contains_name(adds, m));
                lemma_queue_additions_sound(scanned@, pre, trigger_flash, m);
                let j = choose|j: int|
                    0 <= j < scanned@.len() && (#[trigger] scanned@[j]).name@ == m && scan_queue_add(
                        scanned@[j],
                        pre,
                        trigger_flash,
                    );
                assert(scan_port_result(
                    pre,
                    scanned@[j],
                    port_with(fp, scanned@[j].name@),
                    trigger_flash,
                    now,
                ));
            }
        }
        // the active set is untouched and its ports are still flashing
        assert forall|i: int|
            0 <= i < state.active_ports@.len() implies has_port(
            fp,
            #[trigger] state.active_ports@[i]@,
        ) && port_with(fp, state.active_ports@[i]@).status
            == MassProductionPortStatus::Flashing by {
            let m = state.active_ports@[i]@;
            assert(has_port(pre.ports@, pre.active_ports@[i]@));
            assert(port_with(pre.ports@, m).status == MassProductionPortStatus::Flashing);
            assert(seq_contains_name(pre.active_ports@, m));
            if scanned_has(scanned@, m) {
                let j = choose|j: int| 0 <= j < scanned@.len() && (#[trigger] scanned@[j]).name@ == m;
                assert(scan_port_result(
                    pre,
                    scanned@[j],
                    port_with(fp, scanned@[j].name@),
                    trigger_flash,
                    now,
                ));
            }
        }
        // flashing ports are exactly the active ones
        assert forall|i: int|
            0 <= i < fp.len() && (#[trigger] fp[i]).status == MassProductionPortStatus::Flashing
            implies seq_contains_name(state.active_ports@, fp[i].name@) by {
            let m = fp[i].name@;
            lemma_port_with_is(fp, m, i);
            if scanned_has(scanned@, m) {
                let j = choose|j: int| 0 <= j < scanned@.len() && (#[trigger] scanned@[j]).name@ == m;
                assert(scan_port_result(
                    pre,
                    scanned@[j],
                    port_with(fp, scanned@[j].name@),
                    trigger_flash,
                    now,
                ));
                if !seq_contains_name(pre.active_ports@, m) {
                    if has_port(pre.ports@, m) {
                        assert(port_with(pre.ports@, m).status
                            != MassProductionPortStatus::Flashing);
                        assert(false);
                    } else {
                        assert(false);
                    }
                }
            } else {
                assert(has_port(pre.ports@, m));
                if !seq_contains_name(pre.active_ports@, m) {
                    assert(port_with(pre.ports@, m).status != MassProductionPortStatus::Flashing);
                    assert(scan_disconnect_result(port_with(pre.ports@, m), port_with(fp, m), now));
                    assert(false);
                }
            }
        }
        if pre.request is None {
            assert(pre.queue@.len() == 0);
            if adds.len() > 0 {
                assert(seq_contains_name(adds, adds[0]@));
                lemma_queue_additions_sound(scanned@, pre, trigger_flash, adds[0]@);
                assert(false);
            }
        }
        assert(final(state).wf());
    }
}

/// The number of ports one dispatch admits: the whole queue, or as many as
/// fit under the concurrency ceiling.
pub open spec fn dispatch_count(pre: MassProductionState) -> int {
    match pre.request {
        Some(req) => if !pre.running {
            0
        } else {
            let room = clamp_concurrency(req.max_concurrency) - pre.active_ports@.len();
            if pre.queue@.len() <= room {
                pre.queue@.len() as int
            } else {
                room
            }
        },
        None => 0,
    }
}

/// The registry entry an admitted port gets: `Flashing`, progress reset,
/// task start stamped, identity untouched.
pub open spec fn dispatch_port_result(
    old_p: MassProductionPortInfo,
    p: MassProductionPortInfo,
    now: u64,
) -> bool {
    &&& p.name == old_p.name
    &&& p.id == old_p.id
    &&& p.chip == old_p.chip
    &&& p.port_type == old_p.port_type
    &&& p.vid == old_p.vid
    &&& p.pid == old_p.pid
    &&& p.serial_number == old_p.serial_number
    &&& p.location_path == old_p.location_path
    &&& p.is_allowed == old_p.is_allowed
    &&& p.last_seen_at == old_p.last_seen_at
    &&& p.status == MassProductionPortStatus::Flashing
    &&& p.progress == 0
    &&& msg_is(p.message, "Flashing"@)
    &&& p.task_started_at == Some(now)
    &&& p.task_finished_at is None
}

/// Admits queued ports into the active set while the session is running and
/// the clamped concurrency ceiling leaves room, in queue order, checking
/// each popped entry's eligibility before it is marked active.  Returns the
/// names of the admitted ports, whose workers the caller spawns.
#[verifier::rlimit(60)]
pub fn dispatch_workers(state: &mut MassProductionState, now: u64) -> (tasks: Vec<String>)
    requires
        old(state).wf(),
    ensures
        final(state).wf(),
        tasks@.len() == dispatch_count(*old(state)),
        tasks@ == old(state).queue@.take(dispatch_count(*old(state))),
        final(state).queue@ == old(state).queue@.skip(dispatch_count(*old(state))),
        final(state).active_ports@ == old(state).active_ports@ + tasks@,
        forall|i: int|
            0 <= i < tasks@.len() ==> dispatch_port_result(
                port_with(old(state).ports@, (#[trigger] tasks@[i])@),
                port_with(final(state).ports@, tasks@[i]@),
                now,
            ),
        forall|n: Seq<char>|
            #![trigger has_port(final(state).ports@, n)]
            has_port(final(state).ports@, n) == has_port(old(state).ports@, n),
        forall|n: Seq<char>|
            #![trigger port_with(final(state).ports@, n)]
            has_port(old(state).ports@, n) && !seq_contains_name(tasks@, n) ==> port_with(
                final(state).ports@,
                n,
            ) == port_with(old(state).ports@, n),
        final(state).running == old(state).running,
        final(state).request == old(state).request,
        final(state).pending_trigger_flash == old(state).pending_trigger_flash,
        final(state).session_id == old(state).session_id,
        final(state).started_at == old(state).started_at,
        final(state).ended_at == old(state).ended_at,
        final(state).manual_stopped == old(state).manual_stopped,
        final(state).success_count == old(state).success_count,
        final(state).failed_count == old(state).failed_count,
{
    let ghost pre = *old(state);
    let mut tasks: Vec<String> = Vec::new();
    let mc = match &state.request {
        Some(r) => r.max_concurrency,
        None => {
            proof {
                assert(tasks@ =~= pre.queue@.take(0));
                assert(state.queue@ =~= pre.queue@.skip(0));
                assert(state.active_ports@ =~= pre.active_ports@ + tasks@);
            }
            return tasks;
        },
    };
    if !state.running {
        proof {
            assert(tasks@ =~= pre.queue@.take(0));
            assert(state.queue@ =~= pre.queue@.skip(0));
            assert(state.active_ports@ =~= pre.active_ports@ + tasks@);
        }
        return tasks;
    }
    let bound: usize = if mc < 1 {
        1
    } else if mc > 32 {
        32
    } else {
        mc as usize
    };
    proof {
        assert(pre.request matches Some(req) && bound == clamp_concurrency(req.max_concurrency));
        assert(tasks@ =~= pre.queue@.take(0));
        assert(state.queue@ =~= pre.queue@.skip(0));
        assert(state.active_ports@ =~= pre.active_ports@ + tasks@);
    }
    while state.active_ports.len() < bound && state.queue.len() > 0
        invariant
            state.wf(),
            pre.wf(),
            pre.running,
            state.running,
            state.request == pre.request,
            pre.request matches Some(req) && bound == clamp_concurrency(req.max_concurrency),
            state.pending_trigger_flash == pre.pending_trigger_flash,
            state.session_id == pre.session_id,
            state.started_at == pre.started_at,
            state.ended_at == pre.ended_at,
            state.manual_stopped == pre.manual_stopped,
            state.success_count == pre.success_count,
            state.failed_count == pre.failed_count,
            tasks@.len() <= pre.queue@.len(),
            tasks@ == pre.queue@.take(tasks@.len() as int),
            state.queue@ == pre.queue@.skip(tasks@.len() as int),
            state.active_ports@ == pre.active_ports@ + tasks@,
            forall|i: int|
                0 <= i < tasks@.len() ==> dispatch_port_result(
                    port_with(pre.ports@, (#[trigger] tasks@[i])@),
                    port_with(state.ports@, tasks@[i]@),
                    now,
                ),
            forall|n: Seq<char>|
                #![trigger has_port(state.ports@, n)]
                has_port(state.ports@, n) == has_port(pre.ports@, n),
            forall|n: Seq<char>|
                #![trigger port_with(state.ports@, n)]
                has_port(pre.ports@, n) && !seq_contains_name(tasks@, n) ==> port_with(
                    state.ports@,
                    n,
                ) == port_with(pre.ports@, n),
        decreases state.queue@.len(),
    {
        let ghost tcount = tasks@.len() as int;
        let ghost n = state.queue@[0]@;
        proof {
            // the queue head is an eligible queued inactive port
            assert(state.queue@[0] == pre.queue@[tcount]);
            assert(has_port(state.ports@, state.queue@[0]@));
            assert(port_with(state.ports@, n).status == MassProductionPortStatus::Queued);
            assert(port_with(state.ports@, n).is_allowed);
            assert(!seq_contains_name(state.active_ports@, n));
            if seq_contains_name(tasks@, n) {
                let i = choose|i: int| 0 <= i < tasks@.len() && tasks@[i]@ == n;
                assert(tasks@[i] == pre.queue@[i]);
                assert(pre.queue@[i]@ != pre.queue@[tcount]@);
                assert(false);
            }
            assert(has_port(pre.ports@, n));
            assert(port_with(state.ports@, n) == port_with(pre.ports@, n));
        }
        let ghost before_queue = state.queue@;
        let name = state.queue.remove(0);
        proof {
            assert(state.queue@ =~= pre.queue@.skip(tcount + 1));
            assert(name@ == n);
        }
        let active_mem = contains_name_exec(&state.active_ports, name.as_str());
        let idx = match find_port_index(&state.ports, name.as_str()) {
            Some(i) => i,
            None => {
                proof {
                    assert(false);
                }
                0
            },
        };
        proof {
            lemma_port_with_is(state.ports@, n, idx as int);
        }
        let eligible = !active_mem && state.ports[idx].is_allowed && state.ports[idx].status
            == MassProductionPortStatus::Queued;
        if eligible {
            let ghost before_ports = state.ports@;
            let old_p = copy_port(&state.ports[idx]);
            let p = MassProductionPortInfo {
                id: old_p.id,
                name: old_p.name,
                port_type: old_p.port_type,
                vid: old_p.vid,
                pid: old_p.pid,
                serial_number: old_p.serial_number,
                location_path: old_p.location_path,
                chip: old_p.chip,
                status: MassProductionPortStatus::Flashing,
                progress: 0,
                message: Some(String::from_str("Flashing")),
                is_allowed: old_p.is_allowed,
                last_seen_at: old_p.last_seen_at,
                task_started_at: Some(now),
                task_finished_at: None,
            };
            set_port(&mut state.ports, idx, p);
            let ghost before_active = state.active_ports@;
            state.active_ports.push(name.clone());
            tasks.push(name);
            proof {
                lemma_port_with_update(before_ports, idx as int, p);
                assert(dispatch_port_result(port_with(pre.ports@, n), p, now));
                assert(tasks@ =~= pre.queue@.take(tcount + 1));
                assert(state.active_ports@ =~= pre.active_ports@ + tasks@);
                assert forall|i: int| 0 <= i < tasks@.len() implies dispatch_port_result(
                    port_with(pre.ports@, (#[trigger] tasks@[i])@),
                    port_with(state.ports@, tasks@[i]@),
                    now,
                ) by {
                    if i < tcount {
                        assert(tasks@[i] == pre.queue@[i]);
                        assert(pre.queue@[i]@ != n);
                        assert(port_with(state.ports@, tasks@[i]@) == port_with(
                            before_ports,
                            tasks@[i]@,
                        ));
                    } else {
                        assert(tasks@[i]@ == n);
                        assert(port_with(state.ports@, n) == p);
                    }
                }
                assert forall|m: Seq<char>|
                    #![trigger port_with(state.ports@, m)]
                    has_port(pre.ports@, m) && !seq_contains_name(tasks@, m) implies port_with(
                    state.ports@,
                    m,
                ) == port_with(pre.ports@, m) by {
                    lemma_contains_push(tasks@.drop_last(), tasks@.last(), m);
                    assert(tasks@.drop_last() =~= pre.queue@.take(tcount));
                    assert(m != n);
                }
                // the state is well formed again
                assert forall|i: int|
                    0 <= i < state.queue@.len() implies has_port(
                    state.ports@,
                    #[trigger] state.queue@[i]@,
                ) && port_with(state.ports@, state.queue@[i]@).status
                    == MassProductionPortStatus::Queued && port_with(
                    state.ports@,
                    state.queue@[i]@,
                ).is_allowed && !seq_contains_name(state.active_ports@, state.queue@[i]@) by {
                    let m = state.queue@[i]@;
                    assert(state.queue@[i] == before_queue[i + 1]);
                    assert(has_port(before_ports, m));
                    assert(port_with(before_ports, m).status == MassProductionPortStatus::Queued);
                    assert(before_queue[i + 1]@ != before_queue[0]@);
                    assert(m != n);
                    assert(port_with(state.ports@, m) == port_with(before_ports, m));
                    lemma_contains_push(before_active, tasks@.last(), m);
                }
                assert forall|i: int|
                    0 <= i < state.active_ports@.len() implies has_port(
                    state.ports@,
                    #[trigger] state.active_ports@[i]@,
                ) && port_with(state.ports@, state.active_ports@[i]@).status
                    == MassProductionPortStatus::Flashing by {
                    let m = state.active_ports@[i]@;
                    if i < before_active.len() {
                        assert(state.active_ports@[i] == before_active[i]);
                        assert(has_port(before_ports, m));
                        assert(port_with(before_ports, m).status
                            == MassProductionPortStatus::Flashing);
                        assert(!seq_contains_name(before_active, n));
                        assert(m != n);
                        assert(port_with(state.ports@, m) == port_with(before_ports, m));
                    } else {
                        assert(state.active_ports@[i]@ == n);
                        assert(port_with(state.ports@, n) == p);
                    }
                }
                assert forall|a: int, b: int|
                    0 <= a < b < state.active_ports@.len() implies state.active_ports@[a]@
                    != state.active_ports@[b]@ by {
                    if b == before_active.len() {
                        assert(state.active_ports@[a] == before_active[a]);
                        assert(state.active_ports@[b]@ == n);
                        if before_active[a]@ == n {
                            assert(seq_contains_name(before_active, n));
                        }
                    } else {
                        assert(state.active_ports@[a] == before_active[a]);
                        assert(state.active_ports@[b] == before_active[b]);
                    }
                }
                assert forall|i: int|
                    0 <= i < state.ports@.len() && (#[trigger] state.ports@[i]).status
                    == MassProductionPortStatus::Flashing implies seq_contains_name(
                    state.active_ports@,
                    state.ports@[i].name@,
                ) by {
                    let m = state.ports@[i].name@;
                    lemma_port_with_is(state.ports@, m, i);
                    lemma_contains_push(before_active, tasks@.last(), m);
                    if m != n {
                        assert(port_with(state.ports@, m) == port_with(before_ports, m));
                        assert(before_ports[i] == state.ports@[i]);
                        assert(seq_contains_name(before_active, m));
                    }
                }
                assert(state.wf());
            }
        } else {
            proof {
                assert(false);
            }
        }
    }
    proof {
        let m = dispatch_count(pre);
        let tcount = tasks@.len() as int;
        let room = clamp_concurrency(pre.request->Some_0.max_concurrency) - pre.active_ports@.len();
        if state.queue@.len() == 0 {
            assert(tcount == pre.queue@.len());
            assert(state.active_ports@.len() == pre.active_ports@.len() + tcount);
            assert(tcount <= room);
            assert(m == tcount);
        } else {
            assert(state.active_ports@.len() >= bound);
            assert(state.active_ports@.len() <= bound);
            assert(tcount == room);
            assert(pre.queue@.len() > room);
            assert(m == tcount);
        }
    }
    tasks
}

/// Records one worker's outcome: stamps the port's terminal status, message,
/// progress and finish time, bumps the matching counter, frees the port's
/// concurrency slot, and stamps the session end time once the last worker of
/// a stopped session drains.
#[verifier::rlimit(60)]
pub fn finish_task(
    state: &mut MassProductionState,
    port_name: &String,
    success: bool,
    error_message: String,
    now: u64,
)
    requires
        old(state).wf(),
        seq_contains_name(old(state).active_ports@, port_name@),
    ensures
        final(state).wf(),
        final(state).active_ports@ == old(state).active_ports@.remove(
            name_index(old(state).active_ports@, port_name@),
        ),
        final(state).active_ports@.len() == old(state).active_ports@.len() - 1,
        has_port(final(state).ports@, port_name@),
        ({
            let old_p = port_with(old(state).ports@, port_name@);
            let p = port_with(final(state).ports@, port_name@);
            &&& p.name == old_p.name
            &&& p.id == old_p.id
            &&& p.chip == old_p.chip
            &&& p.port_type == old_p.port_type
            &&& p.vid == old_p.vid
            &&& p.pid == old_p.pid
            &&& p.serial_number == old_p.serial_number
            &&& p.location_path == old_p.location_path
            &&& p.is_allowed == old_p.is_allowed
            &&& p.last_seen_at == old_p.last_seen_at
            &&& p.task_started_at == old_p.task_started_at
            &&& p.task_finished_at == Some(now)
            &&& if success {
                &&& p.status == MassProductionPortStatus::Success
                &&& p.progress == 100
                &&& msg_is(p.message, "Completed"@)
            } else {
                &&& p.status == MassProductionPortStatus::Error
                &&& p.progress == old_p.progress
                &&& p.message == Some(error_message)
            }
        }),
        forall|n: Seq<char>|
            #![trigger has_port(final(state).ports@, n)]
            has_port(final(state).ports@, n) == has_port(old(state).ports@, n),
        forall|n: Seq<char>|
            #![trigger port_with(final(state).ports@, n)]
            has_port(old(state).ports@, n) && n != port_name@ ==> port_with(final(state).ports@, n)
                == port_with(old(state).ports@, n),
        final(state).success_count as nat == if success {
            crate::state::sat_add_u32(old(state).success_count as nat, 1)
        } else {
            old(state).success_count as nat
        },
        final(state).failed_count as nat == if !success {
            crate::state::sat_add_u32(old(state).failed_count as nat, 1)
        } else {
            old(state).failed_count as nat
        },
        final(state).ended_at == if !old(state).running && old(state).active_ports@.len() == 1 {
            Some(now)
        } else {
            old(state).ended_at
        },
        final(state).queue@ == old(state).queue@,
        final(state).running == old(state).running,
        final(state).request == old(state).request,
        final(state).pending_trigger_flash == old(state).pending_trigger_flash,
        final(state).session_id == old(state).session_id,
        final(state).started_at == old(state).started_at,
        final(state).manual_stopped == old(state).manual_stopped,
{
    let ghost pre = *old(state);
    let ghost n = port_name@;
    proof {
        let w = choose|i: int| 0 <= i < pre.active_ports@.len() && pre.active_ports@[i]@ == n;
        assert(has_port(pre.ports@, pre.active_ports@[w]@));
        assert(port_with(pre.ports@, n).status == MassProductionPortStatus::Flashing);
        if pre.request is None {
            assert(pre.active_ports@.len() == 0);
            assert(false);
        }
    }
    // free the port's slot in the active set
    let j = match find_name_index(&state.active_ports, port_name.as_str()) {
        Some(j) => j,
        None => {
            proof {
                assert(false);
            }
            0
        },
    };
    state.active_ports.remove(j);
    proof {
        let ni = name_index(pre.active_ports@, n);
        assert(pre.active_ports@[ni]@ == n);
        if ni != j {
            if ni < j {
                assert(pre.active_ports@[ni]@ != pre.active_ports@[j as int]@);
            } else {
                assert(pre.active_ports@[j as int]@ != pre.active_ports@[ni]@);
            }
            assert(false);
        }
        assert(state.active_ports@ == pre.active_ports@.remove(ni));
    }
    // stamp the outcome on the port and in the counters
    let finished_at = now;
    if success {
        state.success_count = state.success_count.saturating_add(1);
    } else {
        state.failed_count = state.failed_count.saturating_add(1);
    }
    let idx = match find_port_index(&state.ports, port_name.as_str()) {
        Some(i) => i,
        None => {
            proof {
                assert(has_port(pre.ports@, n));
                assert(false);
            }
            0
        },
    };
    proof {
        lemma_port_with_is(state.ports@, n, idx as int);
    }
    let ghost before_ports = state.ports@;
    let old_p = copy_port(&state.ports[idx]);
    let p = if success {
        MassProductionPortInfo {
            id: old_p.id,
            name: old_p.name,
            port_type: old_p.port_type,
            vid: old_p.vid,
            pid: old_p.pid,
            serial_number: old_p.serial_number,
            location_path: old_p.location_path,
            chip: old_p.chip,
            status: MassProductionPortStatus::Success,
            progress: 100,
            message: Some(String::from_str("Completed")),
            is_allowed: old_p.is_allowed,
            last_seen_at: old_p.last_seen_at,
            task_started_at: old_p.task_started_at,
            task_finished_at: Some(finished_at),
        }
    } else {
        MassProductionPortInfo {
            id: old_p.id,
            name: old_p.name,
            port_type: old_p.port_type,
            vid: old_p.vid,
            pid: old_p.pid,
            serial_number: old_p.serial_number,
            location_path: old_p.location_path,
            chip: old_p.chip,
            status: MassProductionPortStatus::Error,
            progress: old_p.progress,
            message: Some(error_message),
            is_allowed: old_p.is_allowed,
            last_seen_at: old_p.last_seen_at,
            task_started_at: old_p.task_started_at,
            task_finished_at: Some(finished_at),
        }
    };
    set_port(&mut state.ports, idx, p);
    proof {
        lemma_port_with_update(before_ports, idx as int, p);
    }
    if !state.running && state.active_ports.is_empty() {
        state.ended_at = Some(finished_at);
    }
    proof {
        let ni = name_index(pre.active_ports@, n);
        let act = pre.active_ports@.remove(ni);
        // names other than the finished one keep their entries and slots
        assert forall|m: Seq<char>| seq_contains_name(act, m) implies seq_contains_name(
            pre.active_ports@,
            m,
        ) && m != n by {
            let i = choose|i: int| 0 <= i < act.len() && act[i]@ == m;
            let oi: int = if i < ni {
                i
            } else {
                i + 1
            };
            assert(pre.active_ports@[oi]@ == m);
            if m == n {
                assert(oi != ni);
                if oi < ni {
                    assert(pre.active_ports@[oi]@ != pre.active_ports@[ni]@);
                } else {
                    assert(pre.active_ports@[ni]@ != pre.active_ports@[oi]@);
                }
                assert(false);
            }
        }
        assert forall|a: int, b: int| 0 <= a < b < act.len() implies act[a]@ != act[b]@ by {
            let oa: int = if a < ni {
                a
            } else {
                a + 1
            };
            let ob: int = if b < ni {
                b
            } else {
                b + 1
            };
            assert(act[a] == pre.active_ports@[oa]);
            assert(act[b] == pre.active_ports@[ob]);
        }
        assert forall|i: int|
            0 <= i < state.active_ports@.len() implies has_port(
            state.ports@,
            #[trigger] state.active_ports@[i]@,
        ) && port_with(state.ports@, state.active_ports@[i]@).status
            == MassProductionPortStatus::Flashing by {
            let m = state.active_ports@[i]@;
            assert(seq_contains_name(act, m));
            let oi: int = if i < ni {
                i
            } else {
                i + 1
            };
            assert(pre.active_ports@[oi]@ == m);
            assert(has_port(pre.ports@, m));
            assert(port_with(pre.ports@, m).status == MassProductionPortStatus::Flashing);
            assert(port_with(state.ports@, m) == port_with(pre.ports@, m));
        }
        assert forall|i: int|
            0 <= i < state.queue@.len() implies has_port(
            state.ports@,
            #[trigger] state.queue@[i]@,
        ) && port_with(state.ports@, state.queue@[i]@).status == MassProductionPortStatus::Queued
            && port_with(state.ports@, state.queue@[i]@).is_allowed && !seq_contains_name(
            state.active_ports@,
            state.queue@[i]@,
        ) by {
            let m = state.queue@[i]@;
            assert(has_port(pre.ports@, m));
            assert(port_with(pre.ports@, m).status == MassProductionPortStatus::Queued);
            assert(!seq_contains_name(pre.active_ports@, m));
            assert(m != n);
            assert(port_with(state.ports@, m) == port_with(pre.ports@, m));
            if seq_contains_name(act, m) {
                assert(seq_contains_name(pre.active_ports@, m));
            }
        }
        assert forall|i: int|
            0 <= i < state.ports@.len() && (#[trigger] state.ports@[i]).status
            == MassProductionPortStatus::Flashing implies seq_contains_name(
            state.active_ports@,
            state.ports@[i].name@,
        ) by {
            let m = state.ports@[i].name@;
            lemma_port_with_is(state.ports@, m, i);
            assert(m != n);
            assert(port_with(state.ports@, m) == port_with(pre.ports@, m));
            assert(before_ports[i] == state.ports@[i]);
            assert(seq_contains_name(pre.active_ports@, m));
            let oi = choose|oi: int|
                0 <= oi < pre.active_ports@.len() && pre.active_ports@[oi]@ == m;
            assert(oi != ni);
            let wi: int = if oi < ni {
                oi
            } else {
                oi - 1
            };
            assert(act[wi]@ == m);
            assert(seq_contains_name(act, m));
        }
        assert(state.wf());
    }
}

/// Stops the session: no new work is admitted, the pending queue is cleared
/// at once, and already-active workers run to completion untouched.  The end
/// time is stamped now only if no worker is active.
pub fn stop_session(state: &mut MassProductionState, now: u64)
    requires
        old(state).wf(),
    ensures
        final(state).wf(),
        !final(state).running,
        final(state).manual_stopped,
        !final(state).pending_trigger_flash,
        final(state).queue@.len() == 0,
        final(state).active_ports@ == old(state).active_ports@,
        final(state).ports == old(state).ports,
        final(state).request == old(state).request,
        final(state).session_id == old(state).session_id,
        final(state).started_at == old(state).started_at,
        final(state).success_count == old(state).success_count,
        final(state).failed_count == old(state).failed_count,
        final(state).ended_at == if old(state).active_ports@.len() == 0 {
            Some(now)
        } else {
            old(state).ended_at
        },
{
    state.running = false;
    state.manual_stopped = true;
    state.pending_trigger_flash = false;
    state.queue = Vec::new();
    if state.active_ports.is_empty() {
        state.ended_at = Some(now);
    }
}

/// The idle reset a queued port gets when automatic download is switched
/// off.
pub open spec fn requeue_reset_result(
    old_p: MassProductionPortInfo,
    p: MassProductionPortInfo,
) -> bool {
    &&& p.name == old_p.name
    &&& p.id == old_p.id
    &&& p.chip == old_p.chip
    &&& p.port_type == old_p.port_type
    &&& p.vid == old_p.vid
    &&& p.pid == old_p.pid
    &&& p.serial_number == old_p.serial_number
    &&& p.location_path == old_p.location_path
    &&& p.is_allowed == old_p.is_allowed
    &&& p.last_seen_at == old_p.last_seen_at
    &&& p.status == MassProductionPortStatus::Idle
    &&& p.progress == 0
    &&& msg_is(p.message, "Ready"@)
    &&& p.task_started_at is None
    &&& p.task_finished_at is None
}

/// Updates the live request's `auto_download` flag.  Disabling it while the
/// session runs returns every queued (but not yet flashing) port to `Idle`
/// with its progress reset and empties the queue; flashing ports are
/// untouched.
#[verifier::rlimit(60)]
pub fn set_auto_download(state: &mut MassProductionState, enabled: bool) -> (r: Result<
    (),
    crate::errors::MassProductionError,
>)
    requires
        old(state).wf(),
    ensures
        final(state).wf(),
        old(state).request is None ==> (r matches Err(e) && e is NotInitialized && *final(state)
            == *old(state)),
        old(state).request matches Some(req) ==> {
            &&& r is Ok
            &&& (final(state).request matches Some(nr) && {
                &&& nr.auto_download == enabled
                &&& nr.chip_model == req.chip_model
                &&& nr.memory_type == req.memory_type
                &&& nr.baud_rate == req.baud_rate
                &&& nr.stub_path == req.stub_path
                &&& nr.before_operation == req.before_operation
                &&& nr.after_operation == req.after_operation
                &&& nr.files == req.files
                &&& nr.verify == req.verify
                &&& nr.no_compress == req.no_compress
                &&& nr.erase_all == req.erase_all
                &&& nr.max_concurrency == req.max_concurrency
                &&& nr.is_filter_enabled == req.is_filter_enabled
                &&& nr.whitelist == req.whitelist
                &&& nr.blacklist == req.blacklist
            })
            &&& if old(state).running && !enabled {
                &&& final(state).queue@.len() == 0
                &&& forall|i: int|
                    0 <= i < old(state).queue@.len() ==> requeue_reset_result(
                        port_with(old(state).ports@, (#[trigger] old(state).queue@[i])@),
                        port_with(final(state).ports@, old(state).queue@[i]@),
                    )
                &&& forall|n: Seq<char>|
                    #![trigger has_port(final(state).ports@, n)]
                    has_port(final(state).ports@, n) == has_port(old(state).ports@, n)
                &&& forall|n: Seq<char>|
                    #![trigger port_with(final(state).ports@, n)]
                    has_port(old(state).ports@, n) && !seq_contains_name(old(state).queue@, n)
                        ==> port_with(final(state).ports@, n) == port_with(old(state).ports@, n)
            } else {
                &&& final(state).queue@ == old(state).queue@
                &&& final(state).ports == old(state).ports
            }
        },
        final(state).active_ports@ == old(state).active_ports@,
        final(state).running == old(state).running,
        final(state).pending_trigger_flash == old(state).pending_trigger_flash,
        final(state).session_id == old(state).session_id,
        final(state).started_at == old(state).started_at,
        final(state).ended_at == old(state).ended_at,
        final(state).manual_stopped == old(state).manual_stopped,
        final(state).success_count == old(state).success_count,
        final(state).failed_count == old(state).failed_count,
{
    let ghost pre = *old(state);
    let mut taken: Option<MassProductionStartRequest> = None;
    core::mem::swap(&mut state.request, &mut taken);
    let mut req = match taken {
        Some(req) => req,
        None => {
            proof {
                assert(*state == pre);
            }
            return Err(crate::errors::MassProductionError::NotInitialized);
        },
    };
    req.auto_download = enabled;
    state.request = Some(req);
    let ghost installed = state.request;
    if state.running && !enabled {
        let mut u: usize = 0;
        while u < state.queue.len()
            invariant
                pre.wf(),
                state.request == installed,
                installed matches Some(nr) && nr.auto_download == enabled && 1
                    <= nr.max_concurrency <= 32 && nr.max_concurrency
                    == pre.request->Some_0.max_concurrency,
                state.queue@ == pre.queue@,
                state.active_ports@ == pre.active_ports@,
                state.running == pre.running,
                state.pending_trigger_flash == pre.pending_trigger_flash,
                state.session_id == pre.session_id,
                state.started_at == pre.started_at,
                state.ended_at == pre.ended_at,
                state.manual_stopped == pre.manual_stopped,
                state.success_count == pre.success_count,
                state.failed_count == pre.failed_count,
                u <= pre.queue@.len(),
                ports_names_unique(state.ports@),
                forall|i: int|
                    0 <= i < u ==> requeue_reset_result(
                        port_with(pre.ports@, (#[trigger] pre.queue@[i])@),
                        port_with(state.ports@, pre.queue@[i]@),
                    ),
                forall|n: Seq<char>|
                    #![trigger has_port(state.ports@, n)]
                    has_port(state.ports@, n) == has_port(pre.ports@, n),
                forall|n: Seq<char>|
                    #![trigger port_with(state.ports@, n)]
                    has_port(pre.ports@, n) && !(exists|i: int|
                        0 <= i < u && (#[trigger] pre.queue@[i])@ == n) ==> port_with(
                        state.ports@,
                        n,
                    ) == port_with(pre.ports@, n),
            decreases pre.queue@.len() - u,
        {
            let ghost n = pre.queue@[u as int]@;
            proof {
                assert(has_port(pre.ports@, pre.queue@[u as int]@));
                assert(port_with(pre.ports@, n).status == MassProductionPortStatus::Queued);
                if exists|i: int| 0 <= i < u && (#[trigger] pre.queue@[i])@ == n {
                    let i = choose|i: int| 0 <= i < u && (#[trigger] pre.queue@[i])@ == n;
                    assert(pre.queue@[i]@ != pre.queue@[u as int]@);
                    assert(false);
                }
            }
            let name_owned = state.queue[u].clone();
            let idx = match find_port_index(&state.ports, name_owned.as_str()) {
                Some(i) => i,
                None => {
                    proof {
                        assert(false);
                    }
                    0
                },
            };
            proof {
                lemma_port_with_is(state.ports@, n, idx as int);
            }
            if state.ports[idx].status == MassProductionPortStatus::Queued {
                let ghost before_ports = state.ports@;
                let old_p = copy_port(&state.ports[idx]);
                let p = MassProductionPortInfo {
                    id: old_p.id,
                    name: old_p.name,
                    port_type: old_p.port_type,
                    vid: old_p.vid,
                    pid: old_p.pid,
                    serial_number: old_p.serial_number,
                    location_path: old_p.location_path,
                    chip: old_p.chip,
                    status: MassProductionPortStatus::Idle,
                    progress: 0,
                    message: Some(String::from_str("Ready")),
                    is_allowed: old_p.is_allowed,
                    last_seen_at: old_p.last_seen_at,
                    task_started_at: None,
                    task_finished_at: None,
                };
                set_port(&mut state.ports, idx, p);
                proof {
                    lemma_port_with_update(before_ports, idx as int, p);
                    assert forall|i: int| 0 <= i < u + 1 implies requeue_reset_result(
                        port_with(pre.ports@, (#[trigger] pre.queue@[i])@),
                        port_with(state.ports@, pre.queue@[i]@),
                    ) by {
                        if i < u {
                            assert(pre.queue@[i]@ != n);
                            assert(port_with(state.ports@, pre.queue@[i]@) == port_with(
                                before_ports,
                                pre.queue@[i]@,
                            ));
                        }
                    }
                }
            } else {
                proof {
                    assert(false);
                }
            }
            u = u + 1;
        }
        state.queue = Vec::new();
        proof {
            // every port is either reset or untouched, so the state is well
            // formed again
            assert forall|i: int|
                0 <= i < state.active_ports@.len() implies has_port(
                state.ports@,
                #[trigger] state.active_ports@[i]@,
            ) && port_with(state.ports@, state.active_ports@[i]@).status
                == MassProductionPortStatus::Flashing by {
                let m = state.active_ports@[i]@;
                assert(has_port(pre.ports@, pre.active_ports@[i]@));
                assert(!seq_contains_name(pre.queue@, m) || false) by {
                    if seq_contains_name(pre.queue@, m) {
                        let qi = choose|qi: int| 0 <= qi < pre.queue@.len() && pre.queue@[qi]@ == m;
                        assert(!seq_contains_name(pre.active_ports@, pre.queue@[qi]@));
                        assert(false);
                    }
                }
                assert(port_with(state.ports@, m) == port_with(pre.ports@, m));
            }
            assert forall|i: int|
                0 <= i < state.ports@.len() && (#[trigger] state.ports@[i]).status
                == MassProductionPortStatus::Flashing implies seq_contains_name(
                state.active_ports@,
                state.ports@[i].name@,
            ) by {
                let m = state.ports@[i].name@;
                lemma_port_with_is(state.ports@, m, i);
                if seq_contains_name(pre.queue@, m) {
                    let qi = choose|qi: int| 0 <= qi < pre.queue@.len() && pre.queue@[qi]@ == m;
                    assert(pre.queue@[qi]@ == m);
                    assert(requeue_reset_result(
                        port_with(pre.ports@, m),
                        port_with(state.ports@, m),
                    ));
                    assert(false);
                } else {
                    assert(port_with(state.ports@, m) == port_with(pre.ports@, m));
                    let oi = port_index(pre.ports@, m);
                    assert(pre.ports@[oi].status == MassProductionPortStatus::Flashing);
                    assert(seq_contains_name(pre.active_ports@, pre.ports@[oi].name@));
                }
            }
            assert(state.wf());
        }
    }
    Ok(())
}

/// Validates a start request against the existence flags of its firmware
/// files: the file list must be non-empty and every referenced file must
/// exist; the concurrency is clamped to 1..=32.  The caller supplies one
/// existence flag per file, in order.
pub fn sanitize_request(
    request: MassProductionStartRequest,
    files_exist: &Vec<bool>,
) -> (r: Result<MassProductionStartRequest, crate::errors::MassProductionError>)
    requires
        files_exist@.len() == request.files@.len(),
    ensures
        request.files@.len() == 0 ==> (r matches Err(e) && e is NoFiles),
        request.files@.len() > 0 && (forall|f: int|
            0 <= f < files_exist@.len() ==> files_exist@[f]) ==> (r matches Ok(nr) && {
            &&& nr.chip_model == request.chip_model
            &&& nr.memory_type == request.memory_type
            &&& nr.baud_rate == request.baud_rate
            &&& nr.stub_path == request.stub_path
            &&& nr.before_operation == request.before_operation
            &&& nr.after_operation == request.after_operation
            &&& nr.files == request.files
            &&& nr.verify == request.verify
            &&& nr.no_compress == request.no_compress
            &&& nr.erase_all == request.erase_all
            &&& nr.auto_download == request.auto_download
            &&& nr.max_concurrency as int == clamp_concurrency(request.max_concurrency)
            &&& nr.is_filter_enabled == request.is_filter_enabled
            &&& nr.whitelist == request.whitelist
            &&& nr.blacklist == request.blacklist
        }),
        request.files@.len() > 0 && (exists|f: int| 0 <= f < files_exist@.len() && !files_exist@[f])
            ==> (r matches Err(e) && exists|f: int|
            {
                &&& 0 <= f < files_exist@.len()
                &&& !(#[trigger] files_exist@[f])
                &&& forall|g: int| 0 <= g < f ==> files_exist@[g]
                &&& e == crate::errors::MassProductionError::FileMissing(
                    request.files@[f].file_path,
                )
            }),
{
    if request.files.len() == 0 {
        return Err(crate::errors::MassProductionError::NoFiles);
    }
    let mut f: usize = 0;
    while f < files_exist.len()
        invariant
            files_exist@.len() == request.files@.len(),
            f <= files_exist@.len(),
            forall|g: int| 0 <= g < f ==> files_exist@[g],
        decreases files_exist@.len() - f,
    {
        if !files_exist[f] {
            let missing = request.files[f].file_path.clone();
            proof {
                assert(!files_exist@[f as int]);
            }
            return Err(crate::errors::MassProductionError::FileMissing(missing));
        }
        f = f + 1;
    }
    let mut nr = request;
    if nr.max_concurrency < 1 {
        nr.max_concurrency = 1;
    } else if nr.max_concurrency > 32 {
        nr.max_concurrency = 32;
    }
    Ok(nr)
}

/// Starts a session: validates the request, refuses to start while a session
/// runs or previous workers are still draining (leaving the state untouched
/// in every error case), then resets the session state, runs one priming
/// scan with an explicit flash trigger, and leaves the session running.
pub fn start_session(
    state: &mut MassProductionState,
    request: MassProductionStartRequest,
    files_exist: &Vec<bool>,
    scanned: &Vec<ScannedPort>,
    now: u64,
) -> (r: Result<(), crate::errors::MassProductionError>)
    requires
        old(state).wf(),
        scanned_names_unique(scanned@),
        files_exist@.len() == request.files@.len(),
    ensures
        final(state).wf(),
        r is Err ==> *final(state) == *old(state),
        old(state).running ==> r is Err,
        request.files@.len() == 0 ==> (r matches Err(e) && e is NoFiles),
        request.files@.len() > 0 && (exists|f: int| 0 <= f < files_exist@.len() && !files_exist@[f])
            ==> (r matches Err(e) && e is FileMissing),
        request.files@.len() > 0 && (forall|f: int| 0 <= f < files_exist@.len() ==> files_exist@[f])
            && old(state).running ==> (r matches Err(e) && e is AlreadyRunning),
        request.files@.len() > 0 && (forall|f: int| 0 <= f < files_exist@.len() ==> files_exist@[f])
            && !old(state).running && old(state).active_ports@.len() > 0 ==> (r matches Err(e)
            && e is WorkersDraining),
        request.files@.len() > 0 && (forall|f: int| 0 <= f < files_exist@.len() ==> files_exist@[f])
            && !old(state).running && old(state).active_ports@.len() == 0 ==> r is Ok,
        r is Ok ==> {
            &&& final(state).running
            &&& !final(state).manual_stopped
            &&& final(state).started_at == Some(now)
            &&& final(state).ended_at is None
            &&& final(state).success_count == 0
            &&& final(state).failed_count == 0
            &&& final(state).active_ports@.len() == 0
            &&& final(state).session_id as nat == if old(state).session_id as nat + 1
                > 0xffff_ffff_ffff_ffff {
                0xffff_ffff_ffff_ffffnat
            } else {
                old(state).session_id as nat + 1
            }
            &&& (final(state).request matches Some(nr) && {
                &&& nr.chip_model == request.chip_model
                &&& nr.memory_type == request.memory_type
                &&& nr.files == request.files
                &&& nr.auto_download == request.auto_download
                &&& nr.max_concurrency as int == clamp_concurrency(request.max_concurrency)
                &&& nr.is_filter_enabled == request.is_filter_enabled
                &&& nr.whitelist == request.whitelist
                &&& nr.blacklist == request.blacklist
            })
            &&& exists|mid: MassProductionState|
                {
                    &&& mid.wf()
                    &&& mid.running
                    &&& mid.pending_trigger_flash
                    &&& mid.request == final(state).request
                    &&& mid.ports@.len() == 0
                    &&& mid.queue@.len() == 0
                    &&& mid.active_ports@.len() == 0
                    &&& #[trigger] scan_registry_post(
                        mid,
                        final(state).ports@,
                        scanned@,
                        true,
                        now,
                    )
                    &&& final(state).queue@ == queue_additions(scanned@, mid, true)
                }
        },
{
    let sanitized = match sanitize_request(request, files_exist) {
        Ok(s) => s,
        Err(e) => {
            return Err(e);
        },
    };
    if state.running {
        return Err(crate::errors::MassProductionError::AlreadyRunning);
    }
    if state.active_ports.len() > 0 {
        return Err(crate::errors::MassProductionError::WorkersDraining);
    }
    let sid = state.session_id.saturating_add(1);
    state.reset_for_start(sanitized, sid, now);
    let ghost mid = *state;
    scan_ports(state, scanned, true, now);
    proof {
        assert(queue_kept(mid.queue@, scanned@, mid.request) =~= Seq::<String>::empty());
        assert(state.queue@ =~= queue_additions(scanned@, mid, true));
        assert(state.active_ports@ =~= mid.active_ports@);
    }
    Ok(())
}

/// An out-of-band scan and dispatch cycle: with `trigger_flash` set it arms
/// the pending trigger so eligible idle ports are queued even while
/// automatic download is off, then runs one scan.
pub fn refresh_session(
    state: &mut MassProductionState,
    scanned: &Vec<ScannedPort>,
    trigger_flash: bool,
    now: u64,
)
    requires
        old(state).wf(),
        scanned_names_unique(scanned@),
    ensures
        final(state).wf(),
        exists|mid: MassProductionState|
            {
                &&& mid.running == old(state).running
                &&& mid.request == old(state).request
                &&& mid.ports == old(state).ports
                &&& mid.queue == old(state).queue
                &&& mid.active_ports == old(state).active_ports
                &&& mid.pending_trigger_flash == (old(state).pending_trigger_flash
                    || trigger_flash)
                &&& #[trigger] scan_registry_post(
                    mid,
                    final(state).ports@,
                    scanned@,
                    trigger_flash,
                    now,
                )
                &&& final(state).queue@ == queue_kept(
                    old(state).queue@,
                    scanned@,
                    old(state).request,
                ) + queue_additions(scanned@, mid, trigger_flash)
            },
        final(state).active_ports@ == old(state).active_ports@,
        final(state).running == old(state).running,
        final(state).request == old(state).request,
        !final(state).pending_trigger_flash,
        final(state).session_id == old(state).session_id,
        final(state).started_at == old(state).started_at,
        final(state).ended_at == old(state).ended_at,
        final(state).manual_stopped == old(state).manual_stopped,
        final(state).success_count == old(state).success_count,
        final(state).failed_count == old(state).failed_count,
{
    if trigger_flash {
        state.pending_trigger_flash = true;
    }
    let ghost mid = *state;
    proof {
        assert(mid.wf());
    }
    scan_ports(state, scanned, trigger_flash, now);
}

} // verus!
