//! What on a status page decides the verdict.

use crate::text::text_ignoring_case;
use crate::watchdog::health::VerdictView;
use crate::watchdog::status_poller::{
    first_component_verdict, first_incident_verdict, page_verdict, unreachable_verdict,
    InstatusComponent, InstatusIncident, InstatusSummary,
};
use vstd::prelude::*;

verus! {

/// The name is that of a listed component, whatever the case.
pub open spec fn listed(critical: Seq<String>, name: Seq<char>) -> bool {
    exists|i: int| 0 <= i < critical.len() && text_ignoring_case((#[trigger] critical[i])@, name)
}

/// The component matters and is out, wholly or in part.
pub open spec fn out(critical: Seq<String>, c: InstatusComponent) -> bool {
    listed(critical, c.name@) && (c.status@ == "MAJOROUTAGE"@ || c.status@ == "PARTIALOUTAGE"@)
}

/// The component matters and is slow or being worked on.
pub open spec fn impaired(critical: Seq<String>, c: InstatusComponent) -> bool {
    listed(critical, c.name@) && (c.status@ == "DEGRADEDPERFORMANCE"@ || c.status@
        == "UNDERMAINTENANCE"@)
}

/// Somebody is looking into the incident.
pub open spec fn open_incident(incident: InstatusIncident) -> bool {
    incident.status@ == "INVESTIGATING"@ || incident.status@ == "IDENTIFIED"@
}

/// The incident names a component that matters.
pub open spec fn names_listed(critical: Seq<String>, incident: InstatusIncident) -> bool {
    exists|i: int|
        0 <= i < incident.components@.len() && listed(
            critical,
            (#[trigger] incident.components@[i])@,
        )
}

/// The first component that matters and is not well decides, whatever the incidents are: one that is out
/// is critical, one that is impaired degraded.
pub proof fn law_first_unwell_component_decides(
    critical: Seq<String>,
    summary: InstatusSummary,
    k: int,
)
    requires
        0 <= k < summary.components@.len(),
        out(critical, summary.components@[k]) || impaired(critical, summary.components@[k]),
        forall|i: int|
            0 <= i < k ==> !out(critical, #[trigger] summary.components@[i]) && !impaired(
                critical,
                summary.components@[i],
            ),
    ensures
        out(critical, summary.components@[k]) ==> page_verdict(critical, summary) is Critical,
        !out(critical, summary.components@[k]) ==> page_verdict(critical, summary) is Degraded,
{
    lemma_component(critical, summary.components@, k);
}

proof fn lemma_component(critical: Seq<String>, s: Seq<InstatusComponent>, k: int)
    requires
        0 <= k < s.len(),
        out(critical, s[k]) || impaired(critical, s[k]),
        forall|i: int|
            0 <= i < k ==> !out(critical, #[trigger] s[i]) && !impaired(critical, s[i]),
    ensures
        first_component_verdict(critical, s) matches Some(v) && (out(critical, s[k]) ==> v
            is Critical) && (!out(critical, s[k]) ==> v is Degraded),
    decreases s.len(),
{
    assert(crate::watchdog::status_poller::is_critical(critical, s[0].name@) == listed(
        critical,
        s[0].name@,
    ));
    if k > 0 {
        assert(!out(critical, s[0]) && !impaired(critical, s[0]));
        let t = s.drop_first();
        assert forall|i: int| 0 <= i < k - 1 implies !out(critical, #[trigger] t[i])
            && !impaired(critical, t[i]) by {
            assert(t[i] == s[i + 1]);
        }
        assert(t[k - 1] == s[k]);
        lemma_component(critical, t, k - 1);
    }
}

proof fn lemma_all_components_well(critical: Seq<String>, s: Seq<InstatusComponent>)
    requires
        forall|i: int|
            0 <= i < s.len() ==> !out(critical, #[trigger] s[i]) && !impaired(critical, s[i]),
    ensures
        first_component_verdict(critical, s) is None,
    decreases s.len(),
{
    if s.len() > 0 {
        assert(crate::watchdog::status_poller::is_critical(critical, s[0].name@) == listed(
            critical,
            s[0].name@,
        ));
        assert(!out(critical, s[0]) && !impaired(critical, s[0]));
        let t = s.drop_first();
        assert forall|i: int| 0 <= i < t.len() implies !out(critical, #[trigger] t[i])
            && !impaired(critical, t[i]) by {
            assert(t[i] == s[i + 1]);
        }
        lemma_all_components_well(critical, t);
    }
}

proof fn lemma_incident(critical: Seq<String>, s: Seq<InstatusIncident>, k: int)
    requires
        0 <= k < s.len(),
        open_incident(s[k]) || s[k].status@ == "MONITORING"@,
        forall|i: int|
            0 <= i < k ==> !open_incident(#[trigger] s[i]) && s[i].status@ != "MONITORING"@,
    ensures
        first_incident_verdict(critical, s) matches Some(v) && (open_incident(s[k])
            && names_listed(critical, s[k]) ==> v is Critical) && (!(open_incident(s[k])
            && names_listed(critical, s[k])) ==> v is Degraded),
    decreases s.len(),
{
    if k > 0 {
        assert(!open_incident(s[0]) && s[0].status@ != "MONITORING"@);
        let t = s.drop_first();
        assert forall|i: int| 0 <= i < k - 1 implies !open_incident(#[trigger] t[i])
            && t[i].status@ != "MONITORING"@ by {
            assert(t[i] == s[i + 1]);
        }
        assert(t[k - 1] == s[k]);
        lemma_incident(critical, t, k - 1);
    } else {
        lemma_names(critical, s[0]);
    }
}

proof fn lemma_names(critical: Seq<String>, incident: InstatusIncident)
    ensures
        crate::watchdog::status_poller::affects_critical(critical, incident) == names_listed(
            critical,
            incident,
        ),
{
    if names_listed(critical, incident) {
        let i = choose|i: int|
            0 <= i < incident.components@.len() && listed(
                critical,
                (#[trigger] incident.components@[i])@,
            );
        assert(crate::watchdog::status_poller::is_critical(critical, incident.components@[i]@));
    }
    if crate::watchdog::status_poller::affects_critical(critical, incident) {
        let i = choose|i: int|
            0 <= i < incident.components@.len() && crate::watchdog::status_poller::is_critical(
                critical,
                (#[trigger] incident.components@[i])@,
            );
        assert(listed(critical, incident.components@[i]@));
    }
}

proof fn lemma_no_incident(critical: Seq<String>, s: Seq<InstatusIncident>)
    requires
        forall|i: int|
            0 <= i < s.len() ==> !open_incident(#[trigger] s[i]) && s[i].status@ != "MONITORING"@,
    ensures
        first_incident_verdict(critical, s) is None,
    decreases s.len(),
{
    if s.len() > 0 {
        assert(!open_incident(s[0]) && s[0].status@ != "MONITORING"@);
        let t = s.drop_first();
        assert forall|i: int| 0 <= i < t.len() implies !open_incident(#[trigger] t[i])
            && t[i].status@ != "MONITORING"@ by {
            assert(t[i] == s[i + 1]);
        }
        lemma_no_incident(critical, t);
    }
}

/// With every component that matters well, the first incident that is not over decides: it is critical
/// where it is open and names a component that matters, and degraded else.
pub proof fn law_first_incident_decides(
    critical: Seq<String>,
    summary: InstatusSummary,
    k: int,
)
    requires
        forall|i: int|
            0 <= i < summary.components@.len() ==> !out(
                critical,
                #[trigger] summary.components@[i],
            ) && !impaired(critical, summary.components@[i]),
        0 <= k < summary.incidents@.len(),
        open_incident(summary.incidents@[k]) || summary.incidents@[k].status@ == "MONITORING"@,
        forall|i: int|
            0 <= i < k ==> !open_incident(#[trigger] summary.incidents@[i])
                && summary.incidents@[i].status@ != "MONITORING"@,
    ensures
        ({
            let grave = open_incident(summary.incidents@[k]) && names_listed(
                critical,
                summary.incidents@[k],
            );
            &&& grave ==> page_verdict(critical, summary) is Critical
            &&& !grave ==> page_verdict(critical, summary) is Degraded
        }),
{
    lemma_all_components_well(critical, summary.components@);
    lemma_incident(critical, summary.incidents@, k);
}

/// With all components well and no incident going on, only the page itself can say that something is
/// wrong.
pub proof fn law_quiet_pages_are_healthy(critical: Seq<String>, summary: InstatusSummary)
    requires
        forall|i: int|
            0 <= i < summary.components@.len() ==> !out(
                critical,
                #[trigger] summary.components@[i],
            ) && !impaired(critical, summary.components@[i]),
        forall|i: int|
            0 <= i < summary.incidents@.len() ==> !open_incident(#[trigger] summary.incidents@[i])
                && summary.incidents@[i].status@ != "MONITORING"@,
    ensures
        summary.page_status@ == "HASISSUES"@ ==> page_verdict(critical, summary) is Degraded,
        summary.page_status@ != "HASISSUES"@ ==> page_verdict(critical, summary) is Healthy,
{
    lemma_all_components_well(critical, summary.components@);
    lemma_no_incident(critical, summary.incidents@);
}

/// A page that cannot be reached is no outage: it degrades the verdict from the fifth time in a row,
/// and never makes it critical.
pub proof fn law_five_failures_degrade(failures: nat)
    ensures
        unreachable_verdict(failures) is Degraded <==> failures >= 5,
        unreachable_verdict(failures) is Healthy <==> failures < 5,
{
}

} // verus!
