//! Addresses and identification for the lookup service, and the few numbers
//! of the operator's configuration that the rest depends on.

use crate::text::canonical;
use crate::text::canonicalize;
use vstd::prelude::*;
use vstd::string::StringExecFns;

verus! {

/// The shortest poll interval that is accepted, in milliseconds.
pub const MIN_POLL_INTERVAL_MS: u64 = 650;

/// The poll interval that is offered when the operator gives none.
pub const DEFAULT_POLL_INTERVAL_MS: u64 = 650;

/// How long one lookup may take, in seconds.
pub const REQUEST_TIMEOUT_SECONDS: u64 = 15;

/// The input file that is read when the operator names none.
pub const DEFAULT_TRIGGER_FILE: &'static str = "trigger_list.txt";

/// What a new input file holds: three placeholder regions, one per line.
pub const TEMPLATE_CONTENTS: &'static str = "region_one\nregion_two\nregion_three";

/// The address that reports when `region` last updated. The region is named
/// in canonical form.
pub open spec fn lastupdate_address(region: Seq<char>) -> Seq<char> {
    "https://www.nationstates.net/cgi-bin/api.cgi?region="@ + canonical(region) + "&q=lastupdate"@
}

/// The address that answers for a nation, used to check that it exists.
pub open spec fn nation_address(nation: Seq<char>) -> Seq<char> {
    "https://www.nationstates.net/cgi-bin/api.cgi?nation="@ + nation
}

/// How the program identifies itself to the service: its version and
/// authors and, once known, the operator's nation.
pub open spec fn agent_text(version: Seq<char>, main_nation: Option<Seq<char>>) -> Seq<char> {
    let base = "Zoomies/"@ + version + " (Developed by nation=Vleerian and nation=Volstrostia;)"@;
    match main_nation {
        Some(nation) => base + "; In use by "@ + nation,
        None => base,
    }
}

/// How long resolving `entries` entries takes, in whole seconds, at one
/// lookup per poll interval. Held at `u64::MAX` where it would not fit.
pub open spec fn resolve_seconds(entries: nat, poll_ms: nat) -> nat {
    let seconds = (entries * poll_ms) / 1000;
    if seconds > u64::MAX {
        u64::MAX as nat
    } else {
        seconds
    }
}

/// Whether `poll_ms` is an acceptable poll interval.
pub fn poll_interval_is_valid(poll_ms: u64) -> (valid: bool)
    ensures
        valid == (poll_ms >= MIN_POLL_INTERVAL_MS),
{
    poll_ms >= MIN_POLL_INTERVAL_MS
}

/// The address that reports when `region` last updated.
pub fn lastupdate_url(region: &str) -> (url: String)
    ensures
        url@ == lastupdate_address(region@),
{
    let mut url = String::from_str("https://www.nationstates.net/cgi-bin/api.cgi?region=");
    url.append(canonicalize(region).as_str());
    url.append("&q=lastupdate");
    url
}

/// The address that answers for `nation`.
pub fn nation_url(nation: &str) -> (url: String)
    ensures
        url@ == nation_address(nation@),
{
    let mut url = String::from_str("https://www.nationstates.net/cgi-bin/api.cgi?nation=");
    url.append(nation);
    url
}

/// The identification sent with every request.
pub fn user_agent(version: &str, main_nation: Option<&str>) -> (agent: String)
    ensures
        agent@ == agent_text(
            version@,
            match main_nation {
                Some(nation) => Some(nation@),
                None => None,
            },
        ),
{
    let mut agent = String::from_str("Zoomies/");
    agent.append(version);
    agent.append(" (Developed by nation=Vleerian and nation=Volstrostia;)");
    match main_nation {
        Some(nation) => {
            agent.append("; In use by ");
            agent.append(nation);
        },
        None => {},
    }
    agent
}

/// How long resolving `entries` entries takes, in whole seconds.
pub fn estimate_resolve_seconds(entries: usize, poll_ms: u64) -> (seconds: u64)
    ensures
        seconds == resolve_seconds(entries as nat, poll_ms as nat),
{
    assert((entries as int) * (poll_ms as int) <= 0xffff_ffff_ffff_ffff * 0xffff_ffff_ffff_ffff)
        by (nonlinear_arith)
        requires
            0 <= entries <= 0xffff_ffff_ffff_ffff,
            0 <= poll_ms <= 0xffff_ffff_ffff_ffff,
    ;
    let total: u128 = (entries as u128) * (poll_ms as u128);
    let seconds: u128 = total / 1000;
    if seconds > u64::MAX as u128 {
        u64::MAX
    } else {
        seconds as u64
    }
}

} // verus!
