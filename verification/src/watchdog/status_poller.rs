//! What the status page of the exchange says.

use crate::text::{count_chars, count_text, same_ignoring_ascii_case, same_text, text_ignoring_case};
use crate::watchdog::health::{VerdictView, WatchdogConfig};
use vstd::prelude::*;
use vstd::string::*;

pub mod laws;

verus! {

/// Verdict from Polymarket status page assessment.
#[derive(Debug, Clone, PartialEq, Eq)]
pub enum StatusVerdict {
    Healthy,
    Degraded { reason: String },
    Critical { reason: String },
}

impl View for StatusVerdict {
    type V = VerdictView;

    open spec fn view(&self) -> VerdictView {
        match self {
            StatusVerdict::Healthy => VerdictView::Healthy,
            StatusVerdict::Degraded { reason } => VerdictView::Degraded(reason@),
            StatusVerdict::Critical { reason } => VerdictView::Critical(reason@),
        }
    }
}

/// The status page: its overall status, its components and its incidents.
#[derive(Debug)]
pub struct InstatusSummary {
    pub page_status: String,
    pub components: Vec<InstatusComponent>,
    pub incidents: Vec<InstatusIncident>,
}

#[derive(Debug)]
pub struct InstatusComponent {
    pub name: String,
    pub status: String,
}

#[derive(Debug)]
pub struct InstatusIncident {
    pub name: String,
    pub status: String,
    pub components: Vec<String>,
}

/// Failed polls after which the status page counts as unreachable.
pub const MAX_FAILURES_BEFORE_DEGRADED: u32 = 5;

/// A name is on the list of critical components, whatever its case.
pub open spec fn is_critical(critical: Seq<String>, name: Seq<char>) -> bool {
    exists|i: int| 0 <= i < critical.len() && text_ignoring_case((#[trigger] critical[i])@, name)
}

/// What the status of one component says, if anything.
pub open spec fn component_verdict(critical: Seq<String>, c: InstatusComponent) -> Option<
    VerdictView,
> {
    if !is_critical(critical, c.name@) {
        None
    } else if c.status@ == "MAJOROUTAGE"@ || c.status@ == "PARTIALOUTAGE"@ {
        Some(VerdictView::Critical(c.name@ + " is in "@ + c.status@ + " state"@))
    } else if c.status@ == "DEGRADEDPERFORMANCE"@ {
        Some(VerdictView::Degraded(c.name@ + " is experiencing degraded performance"@))
    } else if c.status@ == "UNDERMAINTENANCE"@ {
        Some(VerdictView::Degraded(c.name@ + " is under maintenance"@))
    } else {
        None
    }
}

/// An incident affects a critical component.
pub open spec fn affects_critical(critical: Seq<String>, incident: InstatusIncident) -> bool {
    exists|i: int|
        0 <= i < incident.components@.len() && is_critical(
            critical,
            (#[trigger] incident.components@[i])@,
        )
}

/// What the status of one incident says, if anything.
pub open spec fn incident_verdict(critical: Seq<String>, incident: InstatusIncident) -> Option<
    VerdictView,
> {
    let status = incident.status@;
    if status == "INVESTIGATING"@ || status == "IDENTIFIED"@ {
        let what = "Active incident '"@ + incident.name@ + "' (status: "@ + status + ")"@;
        if affects_critical(critical, incident) {
            Some(VerdictView::Critical(what + " affecting critical component"@))
        } else {
            Some(VerdictView::Degraded(what))
        }
    } else if status == "MONITORING"@ {
        Some(VerdictView::Degraded("Incident '"@ + incident.name@ + "' being monitored"@))
    } else {
        None
    }
}

/// The first component of these that says something.
pub open spec fn first_component_verdict(critical: Seq<String>, s: Seq<InstatusComponent>) -> Option<
    VerdictView,
>
    decreases s.len(),
{
    if s.len() == 0 {
        None
    } else {
        match component_verdict(critical, s[0]) {
            Some(v) => Some(v),
            None => first_component_verdict(critical, s.drop_first()),
        }
    }
}

/// The first incident of these that says something.
pub open spec fn first_incident_verdict(critical: Seq<String>, s: Seq<InstatusIncident>) -> Option<
    VerdictView,
>
    decreases s.len(),
{
    if s.len() == 0 {
        None
    } else {
        match incident_verdict(critical, s[0]) {
            Some(v) => Some(v),
            None => first_incident_verdict(critical, s.drop_first()),
        }
    }
}

/// The verdict on the status page: components come before incidents, and both before the page as a
/// whole.
pub open spec fn page_verdict(critical: Seq<String>, summary: InstatusSummary) -> VerdictView {
    match first_component_verdict(critical, summary.components@) {
        Some(v) => v,
        None => match first_incident_verdict(critical, summary.incidents@) {
            Some(v) => v,
            None => if summary.page_status@ == "HASISSUES"@ {
                VerdictView::Degraded("Status page reports issues"@)
            } else {
                VerdictView::Healthy
            },
        },
    }
}

/// The verdict after so many failed polls in a row.
pub open spec fn unreachable_verdict(failures: nat) -> VerdictView {
    if failures >= MAX_FAILURES_BEFORE_DEGRADED {
        VerdictView::Degraded(
            "Status page unreachable for "@ + count_chars(failures) + " consecutive polls"@,
        )
    } else {
        VerdictView::Healthy
    }
}

/// Judges the status page, with the list of components that matter.
#[derive(Debug)]
pub struct StatusPoller {
    pub critical_components: Vec<String>,
    pub consecutive_failures: u32,
}

impl StatusPoller {
    pub fn new(config: &WatchdogConfig) -> (r: StatusPoller)
        ensures
            r.critical_components@ == config.critical_components@,
            r.consecutive_failures == 0,
    {
        StatusPoller {
            critical_components: crate::text::clone_texts(&config.critical_components),
            consecutive_failures: 0,
        }
    }

    pub fn is_critical_component(&self, name: &str) -> (r: bool)
        ensures
            r == is_critical(self.critical_components@, name@),
    {
        let mut i: usize = 0;
        while i < self.critical_components.len()
            invariant
                i <= self.critical_components.len(),
                forall|j: int|
                    0 <= j < i ==> !text_ignoring_case(
                        (#[trigger] self.critical_components@[j])@,
                        name@,
                    ),
            decreases self.critical_components.len() - i,
        {
            if same_ignoring_ascii_case(self.critical_components[i].as_str(), name) {
                return true;
            }
            i = i + 1;
        }
        false
    }

    fn judge_component(&self, c: &InstatusComponent) -> (r: Option<StatusVerdict>)
        ensures
            match component_verdict(self.critical_components@, *c) {
                Some(v) => r is Some && r->0@ == v,
                None => r is None,
            },
    {
        let status = c.status.as_str();
        if !self.is_critical_component(c.name.as_str()) {
            None
        } else if same_text(status, "MAJOROUTAGE") || same_text(status, "PARTIALOUTAGE") {
            let mut reason = c.name.clone();
            reason.append(" is in ");
            reason.append(status);
            reason.append(" state");
            Some(StatusVerdict::Critical { reason })
        } else if same_text(status, "DEGRADEDPERFORMANCE") {
            let mut reason = c.name.clone();
            reason.append(" is experiencing degraded performance");
            Some(StatusVerdict::Degraded { reason })
        } else if same_text(status, "UNDERMAINTENANCE") {
            let mut reason = c.name.clone();
            reason.append(" is under maintenance");
            Some(StatusVerdict::Degraded { reason })
        } else {
            None
        }
    }

    fn judge_incident(&self, incident: &InstatusIncident) -> (r: Option<StatusVerdict>)
        ensures
            match incident_verdict(self.critical_components@, *incident) {
                Some(v) => r is Some && r->0@ == v,
                None => r is None,
            },
    {
        let status = incident.status.as_str();
        if same_text(status, "INVESTIGATING") || same_text(status, "IDENTIFIED") {
            let mut affects = false;
            let mut i: usize = 0;
            while i < incident.components.len()
                invariant
                    i <= incident.components.len(),
                    affects == (exists|j: int|
                        0 <= j < i && is_critical(
                            self.critical_components@,
                            (#[trigger] incident.components@[j])@,
                        )),
                decreases incident.components.len() - i,
            {
                if self.is_critical_component(incident.components[i].as_str()) {
                    affects = true;
                }
                i = i + 1;
            }
            let mut reason = "Active incident '".to_owned();
            reason.append(incident.name.as_str());
            reason.append("' (status: ");
            reason.append(status);
            reason.append(")");
            if affects {
                reason.append(" affecting critical component");
                Some(StatusVerdict::Critical { reason })
            } else {
                Some(StatusVerdict::Degraded { reason })
            }
        } else if same_text(status, "MONITORING") {
            let mut reason = "Incident '".to_owned();
            reason.append(incident.name.as_str());
            reason.append("' being monitored");
            Some(StatusVerdict::Degraded { reason })
        } else {
            None
        }
    }

    /// The verdict on a status page.
    pub fn evaluate(&self, summary: &InstatusSummary) -> (r: StatusVerdict)
        ensures
            r@ == page_verdict(self.critical_components@, *summary),
    {
        let ghost critical = self.critical_components@;
        let ghost components = summary.components@;
        let ghost incidents = summary.incidents@;
        let mut i: usize = 0;
        assert(components.skip(0) =~= components);
        while i < summary.components.len()
            invariant
                i <= summary.components.len(),
                critical == self.critical_components@,
                components == summary.components@,
                first_component_verdict(critical, components) == first_component_verdict(
                    critical,
                    components.skip(i as int),
                ),
            decreases summary.components.len() - i,
        {
            assert(components.skip(i as int)[0] == components[i as int]);
            assert(components.skip(i as int).drop_first() =~= components.skip(i + 1));
            match self.judge_component(&summary.components[i]) {
                Some(v) => {
                    return v;
                },
                None => {},
            }
            i = i + 1;
        }
        let mut k: usize = 0;
        assert(incidents.skip(0) =~= incidents);
        while k < summary.incidents.len()
            invariant
                k <= summary.incidents.len(),
                critical == self.critical_components@,
                incidents == summary.incidents@,
                first_component_verdict(critical, summary.components@) is None,
                first_incident_verdict(critical, incidents) == first_incident_verdict(
                    critical,
                    incidents.skip(k as int),
                ),
            decreases summary.incidents.len() - k,
        {
            assert(incidents.skip(k as int)[0] == incidents[k as int]);
            assert(incidents.skip(k as int).drop_first() =~= incidents.skip(k + 1));
            match self.judge_incident(&summary.incidents[k]) {
                Some(v) => {
                    return v;
                },
                None => {},
            }
            k = k + 1;
        }
        if same_text(summary.page_status.as_str(), "HASISSUES") {
            StatusVerdict::Degraded { reason: "Status page reports issues".to_owned() }
        } else {
            StatusVerdict::Healthy
        }
    }

    /// The verdict after a poll, which may have failed. An unreachable status page is no outage of
    /// the exchange: only sustained failures degrade the verdict.
    pub fn poll_done(&mut self, summary: Option<&InstatusSummary>) -> (r: StatusVerdict)
        requires
            old(self).consecutive_failures < u32::MAX,
        ensures
            final(self).critical_components == old(self).critical_components,
            match summary {
                Some(summary) => {
                    &&& final(self).consecutive_failures == 0
                    &&& r@ == page_verdict(old(self).critical_components@, *summary)
                },
                None => {
                    let failures = old(self).consecutive_failures + 1;
                    &&& final(self).consecutive_failures == failures
                    &&& r@ == unreachable_verdict(failures as nat)
                },
            },
    {
        match summary {
            Some(summary) => {
                self.consecutive_failures = 0;
                self.evaluate(summary)
            },
            None => {
                self.consecutive_failures = self.consecutive_failures + 1;
                if self.consecutive_failures >= MAX_FAILURES_BEFORE_DEGRADED {
                    let mut reason = "Status page unreachable for ".to_owned();
                    reason.append(count_text(self.consecutive_failures as u64).as_str());
                    reason.append(" consecutive polls");
                    StatusVerdict::Degraded { reason }
                } else {
                    StatusVerdict::Healthy
                }
            },
        }
    }
}

/// The incident is open and names a component that matters.
pub open spec fn touches(critical: Seq<String>, incident: InstatusIncident) -> bool {
    (incident.status@ == "INVESTIGATING"@ || incident.status@ == "IDENTIFIED"@)
        && affects_critical(critical, incident)
}

/// Components that do not matter never make the verdict critical, neither by themselves nor by
/// incidents: without a listed component that does, and with no open incident that names one, the
/// verdict is not critical.
pub proof fn law_other_components_are_not_critical(critical: Seq<String>, summary: InstatusSummary)
    requires
        forall|i: int|
            0 <= i < summary.components@.len() ==> !is_critical(
                critical,
                (#[trigger] summary.components@[i]).name@,
            ),
        forall|i: int|
            0 <= i < summary.incidents@.len() ==> !touches(critical, #[trigger] summary.incidents@[i]),
    ensures
        !(page_verdict(critical, summary) is Critical),
{
    lemma_no_component(critical, summary.components@);
    lemma_no_incident(critical, summary.incidents@);
}

proof fn lemma_no_incident(critical: Seq<String>, s: Seq<InstatusIncident>)
    requires
        forall|i: int| 0 <= i < s.len() ==> !touches(critical, #[trigger] s[i]),
    ensures
        !(first_incident_verdict(critical, s) matches Some(VerdictView::Critical(_))),
    decreases s.len(),
{
    if s.len() > 0 {
        let rest = s.drop_first();
        assert forall|i: int| 0 <= i < rest.len() implies !touches(
            critical,
            #[trigger] rest[i],
        ) by {
            assert(rest[i] == s[i + 1]);
        }
        assert(!touches(critical, s[0]));
        lemma_no_incident(critical, rest);
    }
}

proof fn lemma_no_component(critical: Seq<String>, s: Seq<InstatusComponent>)
    requires
        forall|i: int| 0 <= i < s.len() ==> !is_critical(critical, (#[trigger] s[i]).name@),
    ensures
        first_component_verdict(critical, s) is None,
    decreases s.len(),
{
    if s.len() > 0 {
        let rest = s.drop_first();
        assert forall|i: int| 0 <= i < rest.len() implies !is_critical(
            critical,
            (#[trigger] rest[i]).name@,
        ) by {
            assert(rest[i] == s[i + 1]);
        }
        lemma_no_component(critical, rest);
    }
}

} // verus!
