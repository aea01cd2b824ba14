//! The filter engine: decides whether a port is eligible under the request's
//! whitelist and blacklist.  Matching is case-insensitive substring
//! containment against the rule's field; a rule with an empty trimmed value
//! never matches; any matching enabled blacklist rule rejects the port
//! regardless of the whitelist.

use vstd::prelude::*;

use crate::mass_production::MassProductionFilterField;
use crate::mass_production::MassProductionFilterRule;
use crate::mass_production::MassProductionPortInfo;
use crate::mass_production::MassProductionStartRequest;
use crate::text::contains_seq;
use crate::text::lower_of;
use crate::text::lowercase;
use crate::text::str_contains;
use crate::text::trim;
use crate::text::trim_of;

verus! {

/// The characters of an optional attribute, with a missing attribute read as
/// the empty string.
pub open spec fn opt_view(o: Option<String>) -> Seq<char> {
    match o {
        Some(s) => s@,
        None => Seq::empty(),
    }
}

/// Whether one rule matches the port's identity.
pub open spec fn rule_matches(rule: MassProductionFilterRule, port: MassProductionPortInfo) -> bool {
    &&& rule.enabled
    &&& trim_of(rule.value@).len() > 0
    &&& {
        let v = lower_of(rule.value@);
        match rule.field {
            MassProductionFilterField::VidPid => {
                let vid = lower_of(opt_view(port.vid));
                let pid = lower_of(opt_view(port.pid));
                contains_seq(vid, v) || contains_seq(pid, v) || contains_seq(
                    vid + ":"@ + pid,
                    v,
                )
            },
            MassProductionFilterField::SerialNumber => contains_seq(
                lower_of(opt_view(port.serial_number)),
                v,
            ),
            MassProductionFilterField::LocationPath => contains_seq(
                lower_of(opt_view(port.location_path)),
                v,
            ),
            MassProductionFilterField::PortName => contains_seq(lower_of(port.name@), v),
        }
    }
}

/// An enabled whitelist rule exists.
pub open spec fn whitelist_active(request: MassProductionStartRequest) -> bool {
    exists|i: int| 0 <= i < request.whitelist@.len() && (#[trigger] request.whitelist@[i]).enabled
}

/// Some whitelist rule matches the port.
pub open spec fn whitelist_matches(
    request: MassProductionStartRequest,
    port: MassProductionPortInfo,
) -> bool {
    exists|i: int|
        0 <= i < request.whitelist@.len() && rule_matches(#[trigger] request.whitelist@[i], port)
}

/// Some blacklist rule matches the port.
pub open spec fn blacklist_matches(
    request: MassProductionStartRequest,
    port: MassProductionPortInfo,
) -> bool {
    exists|i: int|
        0 <= i < request.blacklist@.len() && rule_matches(#[trigger] request.blacklist@[i], port)
}

/// Eligibility of a port under the request: everything is allowed while the
/// filter is disabled; otherwise a non-empty set of enabled whitelist rules
/// must be matched, and no blacklist rule may match.
pub open spec fn port_allowed(port: MassProductionPortInfo, request: MassProductionStartRequest) -> bool {
    if !request.is_filter_enabled {
        true
    } else {
        (!whitelist_active(request) || whitelist_matches(request, port)) && !blacklist_matches(
            request,
            port,
        )
    }
}

fn opt_as_str(o: &Option<String>) -> (r: &str)
    ensures
        r@ == opt_view(*o),
{
    match o {
        Some(s) => s.as_str(),
        None => {
            let r = "";
            proof {
                reveal_strlit("");
                assert(r@ =~= Seq::<char>::empty());
            }
            r
        },
    }
}

/// Decides whether one rule matches the port.
fn rule_matches_exec(rule: &MassProductionFilterRule, port: &MassProductionPortInfo) -> (r: bool)
    ensures
        r == rule_matches(*rule, *port),
{
    if !rule.enabled {
        return false;
    }
    let trimmed = trim(rule.value.as_str());
    if trimmed.is_empty() {
        return false;
    }
    let value = lowercase(rule.value.as_str());
    match rule.field {
        MassProductionFilterField::VidPid => {
            let vid = lowercase(opt_as_str(&port.vid));
            let pid = lowercase(opt_as_str(&port.pid));
            if str_contains(vid.as_str(), value.as_str()) {
                return true;
            }
            if str_contains(pid.as_str(), value.as_str()) {
                return true;
            }
            let mut joined = vid;
            joined.append(":");
            joined.append(pid.as_str());
            str_contains(joined.as_str(), value.as_str())
        },
        MassProductionFilterField::SerialNumber => {
            let attr = lowercase(opt_as_str(&port.serial_number));
            str_contains(attr.as_str(), value.as_str())
        },
        MassProductionFilterField::LocationPath => {
            let attr = lowercase(opt_as_str(&port.location_path));
            str_contains(attr.as_str(), value.as_str())
        },
        MassProductionFilterField::PortName => {
            let attr = lowercase(port.name.as_str());
            str_contains(attr.as_str(), value.as_str())
        },
    }
}

/// Decides whether the port is eligible under the request's filter rules.
pub fn is_port_allowed(port: &MassProductionPortInfo, request: &MassProductionStartRequest) -> (r:
    bool)
    ensures
        r == port_allowed(*port, *request),
{
    if !request.is_filter_enabled {
        return true;
    }
    let mut wl_active = false;
    let mut wl_match = false;
    let mut i: usize = 0;
    while i < request.whitelist.len()
        invariant
            request.is_filter_enabled,
            i <= request.whitelist@.len(),
            wl_active == exists|k: int|
                0 <= k < i && (#[trigger] request.whitelist@[k]).enabled,
            wl_match == exists|k: int|
                0 <= k < i && rule_matches(#[trigger] request.whitelist@[k], *port),
        decreases request.whitelist@.len() - i,
    {
        let rule = &request.whitelist[i];
        if rule.enabled {
            wl_active = true;
        }
        if rule_matches_exec(rule, port) {
            wl_match = true;
        }
        i = i + 1;
    }
    if wl_active && !wl_match {
        return false;
    }
    let mut j: usize = 0;
    while j < request.blacklist.len()
        invariant
            request.is_filter_enabled,
            j <= request.blacklist@.len(),
            forall|k: int| 0 <= k < j ==> !rule_matches(#[trigger] request.blacklist@[k], *port),
            wl_active == whitelist_active(*request),
            wl_match == whitelist_matches(*request, *port),
            !wl_active || wl_match,
        decreases request.blacklist@.len() - j,
    {
        if rule_matches_exec(&request.blacklist[j], port) {
            proof {
                assert(rule_matches(request.blacklist@[j as int], *port));
                assert(blacklist_matches(*request, *port));
            }
            return false;
        }
        j = j + 1;
    }
    true
}

/// A port matching any enabled blacklist rule is ineligible, even if it also
/// matches a whitelist rule.
pub proof fn lemma_blacklist_rejects(
    port: MassProductionPortInfo,
    request: MassProductionStartRequest,
    j: int,
)
    requires
        request.is_filter_enabled,
        0 <= j < request.blacklist@.len(),
        rule_matches(request.blacklist@[j], port),
    ensures
        !port_allowed(port, request),
{
    assert(blacklist_matches(request, port));
}

} // verus!
