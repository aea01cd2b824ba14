//! Session-wide laws, proved once over the state invariant and the scan
//! relation: one registry entry per port, the concurrency bound, and the
//! blacklist's precedence over queueing.

use vstd::prelude::*;

use crate::filter::rule_matches;
use crate::mass_production::MassProductionPortInfo;
use crate::mass_production::MassProductionPortStatus;
use crate::scanner::ScannedPort;
use crate::session::lemma_contains_push;
use crate::session::scan_port_result;
use crate::session::scan_registry_post;
use crate::session::scanned_allowed;
use crate::session::scanned_as_port;
use crate::state::clamp_concurrency;
use crate::state::count_status;
use crate::state::has_port;
use crate::state::port_with;
use crate::state::ports_names_unique;
use crate::state::seq_contains_name;
use crate::state::MassProductionState;

verus! {

/// The registry never contains a port in two states: any two entries of one
/// name are the same entry.
pub proof fn lemma_one_entry_per_port(st: MassProductionState, i: int, j: int)
    requires
        st.wf(),
        0 <= i < st.ports@.len(),
        0 <= j < st.ports@.len(),
        st.ports@[i].name@ == st.ports@[j].name@,
    ensures
        i == j,
{
    if i < j {
        assert(st.ports@[i].name@ != st.ports@[j].name@);
    } else if j < i {
        assert(st.ports@[j].name@ != st.ports@[i].name@);
    }
}

/// The distinct names of a list, as a set.
pub open spec fn name_set(s: Seq<String>) -> Set<Seq<char>>
    decreases s.len(),
{
    if s.len() == 0 {
        Set::empty()
    } else {
        name_set(s.drop_last()).insert(s.last()@)
    }
}

proof fn lemma_name_set(s: Seq<String>)
    ensures
        name_set(s).finite(),
        name_set(s).len() <= s.len(),
        forall|n: Seq<char>| #[trigger] name_set(s).contains(n) == seq_contains_name(s, n),
        crate::state::seq_names_unique(s) ==> name_set(s).len() == s.len(),
    decreases s.len(),
{
    if s.len() > 0 {
        lemma_name_set(s.drop_last());
        let rest = name_set(s.drop_last());
        assert forall|n: Seq<char>| #[trigger] name_set(s).contains(n) == seq_contains_name(
            s,
            n,
        ) by {
            lemma_contains_push(s.drop_last(), s.last(), n);
            assert(s.drop_last().push(s.last()) =~= s);
        }
        if crate::state::seq_names_unique(s) {
            assert(crate::state::seq_names_unique(s.drop_last()));
            if rest.contains(s.last()@) {
                assert(seq_contains_name(s.drop_last(), s.last()@));
                let i = choose|i: int| 0 <= i < s.drop_last().len() && s.drop_last()[i]@ == s.last()@;
                assert(s[i]@ == s[s.len() - 1]@);
                assert(false);
            }
        }
    }
}

proof fn lemma_count_flashing_le(ps: Seq<MassProductionPortInfo>, avail: Set<Seq<char>>)
    requires
        avail.finite(),
        ports_names_unique(ps),
        forall|i: int|
            0 <= i < ps.len() && (#[trigger] ps[i]).status == MassProductionPortStatus::Flashing
                ==> avail.contains(ps[i].name@),
    ensures
        count_status(ps, MassProductionPortStatus::Flashing) <= avail.len(),
    decreases ps.len(),
{
    if ps.len() > 0 {
        let rest = ps.drop_last();
        if ps.last().status == MassProductionPortStatus::Flashing {
            let n = ps.last().name@;
            assert(avail.contains(n));
            let smaller = avail.remove(n);
            assert(smaller.len() == avail.len() - 1);
            assert forall|i: int|
                0 <= i < rest.len() && (#[trigger] rest[i]).status
                    == MassProductionPortStatus::Flashing implies smaller.contains(
                rest[i].name@,
            ) by {
                assert(ps[i].name@ != ps[ps.len() - 1].name@);
                assert(avail.contains(ps[i].name@));
            }
            lemma_count_flashing_le(rest, smaller);
        } else {
            assert forall|i: int|
                0 <= i < rest.len() && (#[trigger] rest[i]).status
                    == MassProductionPortStatus::Flashing implies avail.contains(rest[i].name@) by {
                assert(ps[i].status == MassProductionPortStatus::Flashing);
            }
            lemma_count_flashing_le(rest, avail);
        }
    }
}

/// At every instant the number of active workers, and the number of ports
/// being flashed, stay within the clamped concurrency ceiling.
pub proof fn lemma_active_bounded(st: MassProductionState)
    requires
        st.wf(),
    ensures
        st.request matches Some(req) ==> st.active_ports@.len() <= clamp_concurrency(
            req.max_concurrency,
        ),
        st.request matches Some(req) ==> count_status(st.ports@, MassProductionPortStatus::Flashing)
            <= clamp_concurrency(req.max_concurrency),
        st.request is None ==> st.active_ports@.len() == 0 && count_status(
            st.ports@,
            MassProductionPortStatus::Flashing,
        ) == 0,
{
    lemma_name_set(st.active_ports@);
    lemma_count_flashing_le(st.ports@, name_set(st.active_ports@));
}

/// A port whose identity matches an enabled blacklist rule is never left in
/// the `Queued` state by a scan, even if it also matches a whitelist rule.
pub proof fn lemma_blacklist_never_queued(
    pre: MassProductionState,
    fp: Seq<MassProductionPortInfo>,
    scanned: Seq<ScannedPort>,
    trigger_flash: bool,
    now: u64,
    j: int,
    k: int,
)
    requires
        pre.wf(),
        scan_registry_post(pre, fp, scanned, trigger_flash, now),
        0 <= j < scanned.len(),
        pre.request matches Some(req) && req.is_filter_enabled && 0 <= k < req.blacklist@.len()
            && rule_matches(req.blacklist@[k], scanned_as_port(scanned[j])),
    ensures
        port_with(fp, scanned[j].name@).status != MassProductionPortStatus::Queued,
{
    let req = pre.request->Some_0;
    crate::filter::lemma_blacklist_rejects(scanned_as_port(scanned[j]), req, k);
    assert(!scanned_allowed(scanned[j], pre.request));
    assert(scan_port_result(pre, scanned[j], port_with(fp, scanned[j].name@), trigger_flash, now));
    let n = scanned[j].name@;
    if has_port(pre.ports@, n) && seq_contains_name(pre.active_ports@, n) {
        let w = choose|w: int| 0 <= w < pre.active_ports@.len() && pre.active_ports@[w]@ == n;
        assert(has_port(pre.ports@, pre.active_ports@[w]@));
        assert(port_with(pre.ports@, n).status == MassProductionPortStatus::Flashing);
    }
}

} // verus!
