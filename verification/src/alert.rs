//! When a change of status is worth a text message, and what it says.

use vstd::prelude::*;

use crate::text::str_eq;

verus! {

/// The text of the alert about service `name` now in state `status`.
pub open spec fn alert_text(name: Seq<char>, status: Seq<char>) -> Seq<char> {
    "[Observatory] "@ + name + (if status == "running"@ {
        " recovered"@
    } else if status == "degraded"@ {
        " is DEGRADED"@
    } else {
        " is DOWN"@
    })
}

/// Writes the alert about service `name` now in state `status`.
pub fn alert_message(name: &str, status: &str) -> (msg: String)
    ensures
        msg@ == alert_text(name@, status@),
{
    let mut msg = String::from_str("[Observatory] ");
    msg.append(name);
    if str_eq(status, "running") {
        msg.append(" recovered");
    } else if str_eq(status, "degraded") {
        msg.append(" is DEGRADED");
    } else {
        msg.append(" is DOWN");
    }
    msg
}

/// A message to post, and where to post it.
pub struct Alert {
    pub url: String,
    pub message: String,
}

/// Whether a check is a change of status that is alerted: the service was
/// seen before, its status differs now, and alerts are configured.
pub open spec fn alerts_on(prev: Option<String>, status: Seq<char>, txtme_url: Option<String>) -> bool {
    &&& txtme_url is Some
    &&& prev is Some
    &&& prev->0@ != status
}

/// The alert owed for a check of service `name` that found `status`, after
/// `prev` was the status stored before; none where the status did not
/// change, where the service is new, or where no alert URL is configured.
pub fn transition_alert(
    name: &str,
    prev: &Option<String>,
    status: &str,
    txtme_url: &Option<String>,
) -> (alert: Option<Alert>)
    ensures
        alert is Some <==> alerts_on(*prev, status@, *txtme_url),
        alert matches Some(a) ==> a.url@ == txtme_url->0@ && a.message@ == alert_text(name@, status@),
{
    match prev {
        Some(prev_status) => {
            if !str_eq(prev_status.as_str(), status) {
                match txtme_url {
                    Some(url) => {
                        return Some(Alert { url: url.clone(), message: alert_message(name, status) });
                    },
                    None => {},
                }
            }
        },
        None => {},
    }
    None
}

} // verus!
