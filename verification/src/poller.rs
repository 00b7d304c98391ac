//! The decisions of a poll: what a check of a service found, the address of
//! its health endpoint, and what a poll writes and alerts.

use vstd::prelude::*;
use vstd::utf8::{decode_utf8, valid_utf8};

use crate::clock::{current_timestamp, is_clock_timestamp, ClockError, LAST_FOUR_DIGIT_YEAR_SECOND};
use crate::alert::{alert_text, alerts_on, transition_alert, Alert};
use crate::text::{decimal, push_decimal};

verus! {

/// The status of a service that answers its health check, or that listens
/// and has no health check.
pub const RUNNING: &'static str = "running";

/// The status of a service that listens but whose health check fails.
pub const DEGRADED: &'static str = "degraded";

/// The status of a service whose port does not listen.
pub const STOPPED: &'static str = "stopped";

/// What one check of a service found.
pub struct CheckOutcome {
    pub status: String,
    pub response_ms: Option<i64>,
    pub status_code: Option<u16>,
}

/// The three statuses that a check can find.
pub open spec fn is_known_status(status: Seq<char>) -> bool {
    status == RUNNING@ || status == DEGRADED@ || status == STOPPED@
}

/// An outcome with `status` and no measurement.
pub open spec fn is_bare_outcome(outcome: CheckOutcome, status: Seq<char>) -> bool {
    &&& outcome.status@ == status
    &&& outcome.response_ms is None
    &&& outcome.status_code is None
}

fn bare_outcome(status: &str) -> (outcome: CheckOutcome)
    ensures
        is_bare_outcome(outcome, status@),
{
    CheckOutcome { status: String::from_str(status), response_ms: None, status_code: None }
}

/// Decides a check without probing where that is possible: a service whose
/// port does not listen is stopped, one that listens and has no health check
/// is running; `None` means that the health endpoint must be probed.
pub fn precheck(port_listening: bool, has_health_check: bool) -> (outcome: Option<CheckOutcome>)
    ensures
        !port_listening ==> (outcome matches Some(o) && is_bare_outcome(o, STOPPED@)),
        port_listening && !has_health_check ==> (outcome matches Some(o) && is_bare_outcome(
            o,
            RUNNING@,
        )),
        port_listening && has_health_check ==> outcome is None,
{
    if !port_listening {
        Some(bare_outcome(STOPPED))
    } else if !has_health_check {
        Some(bare_outcome(RUNNING))
    } else {
        None
    }
}

/// What probing a health endpoint gave.
pub enum ProbeResult {
    /// The endpoint answered with an HTTP status code.
    Responded { status_code: u16, elapsed_ms: i64 },
    /// The request failed or timed out.
    Failed { elapsed_ms: i64 },
}

/// A successful HTTP status: `200` through `299`.
pub open spec fn is_success_code(code: u16) -> bool {
    200 <= code && code <= 299
}

/// Whether an HTTP status code means success.
pub fn is_success(code: u16) -> (r: bool)
    ensures
        r == is_success_code(code),
{
    200 <= code && code <= 299
}

/// The status that a probe finds: running on a successful answer, degraded
/// on any other answer or on a failed request.
pub open spec fn probe_status(probe: ProbeResult) -> Seq<char> {
    match probe {
        ProbeResult::Responded { status_code, .. } => if is_success_code(status_code) {
            RUNNING@
        } else {
            DEGRADED@
        },
        ProbeResult::Failed { .. } => DEGRADED@,
    }
}

/// The outcome of a check that probed the health endpoint: the status of
/// the probe, the time it took, and the HTTP code where there was an answer.
pub fn probe_outcome(probe: ProbeResult) -> (outcome: CheckOutcome)
    ensures
        outcome.status@ == probe_status(probe),
        outcome.response_ms == Some(
            match probe {
                ProbeResult::Responded { elapsed_ms, .. } => elapsed_ms,
                ProbeResult::Failed { elapsed_ms } => elapsed_ms,
            },
        ),
        outcome.status_code == match probe {
            ProbeResult::Responded { status_code, .. } => Some(status_code),
            ProbeResult::Failed { .. } => None,
        },
{
    match probe {
        ProbeResult::Responded { status_code, elapsed_ms } => {
            let status = if is_success(status_code) {
                String::from_str(RUNNING)
            } else {
                String::from_str(DEGRADED)
            };
            CheckOutcome { status, response_ms: Some(elapsed_ms), status_code: Some(status_code) }
        },
        ProbeResult::Failed { elapsed_ms } => {
            CheckOutcome {
                status: String::from_str(DEGRADED),
                response_ms: Some(elapsed_ms),
                status_code: None,
            }
        },
    }
}

/// A probe that answered finds the service running exactly when the code
/// is from 200 through 299, and degraded otherwise; a failed request finds
/// it degraded.
pub proof fn lemma_probe_status_by_code(code: u16, ms: i64)
    ensures
        probe_status(ProbeResult::Responded { status_code: code, elapsed_ms: ms }) == (if 200 <= code
            && code <= 299 {
            "running"@
        } else {
            "degraded"@
        }),
        probe_status(ProbeResult::Failed { elapsed_ms: ms }) == "degraded"@,
{
}

/// The health endpoint of a service on port `port` of the host `ip`.
pub open spec fn health_url_spec(ip: Seq<char>, port: u16) -> Seq<char> {
    "http://"@ + ip + ":"@ + decimal(port as nat) + "/health"@
}

/// Writes the address of the health endpoint of a service.
pub fn health_url(ip: &str, port: u16) -> (url: String)
    ensures
        url@ == health_url_spec(ip@, port),
{
    let mut url = String::from_str("http://");
    url.append(ip);
    url.append(":");
    push_decimal(&mut url, port as u64);
    url.append("/health");
    url
}

/// The `[package]` table of an `eps.toml`.
pub struct EpsPackage {
    pub repository: Option<String>,
}

/// The `[service]` table of an `eps.toml`.
pub struct EpsService {
    pub health_check: Option<String>,
}

/// What a poll reads from the `eps.toml` of a service.
pub struct EpsManifest {
    pub package: Option<EpsPackage>,
    pub service: Option<EpsService>,
}

/// The health check that a manifest names, if it was read and names one.
pub open spec fn manifest_health_check(manifest: Option<EpsManifest>) -> Option<String> {
    match manifest {
        Some(m) => match m.service {
            Some(s) => s.health_check,
            None => None,
        },
        None => None,
    }
}

/// The repository that a manifest names, if it was read and names one.
pub open spec fn manifest_repository(manifest: Option<EpsManifest>) -> Option<String> {
    match manifest {
        Some(m) => match m.package {
            Some(p) => p.repository,
            None => None,
        },
        None => None,
    }
}

/// The health check and the repository of a service, from its manifest;
/// `None` stands for a manifest that could not be read or parsed.
pub fn eps_info(manifest: Option<EpsManifest>) -> (info: (Option<String>, Option<String>))
    ensures
        info.0 == manifest_health_check(manifest),
        info.1 == manifest_repository(manifest),
{
    match manifest {
        Some(m) => {
            let health_check = match m.service {
                Some(s) => s.health_check,
                None => None,
            };
            let repository = match m.package {
                Some(p) => p.repository,
                None => None,
            };
            (health_check, repository)
        },
        None => (None, None),
    }
}

/// Unicode White_Space, the characters that trimming removes.
pub open spec fn is_white_space(c: char) -> bool {
    let u = c as u32;
    ||| 0x09 <= u && u <= 0x0d
    ||| u == 0x20
    ||| u == 0x85
    ||| u == 0xa0
    ||| u == 0x1680
    ||| 0x2000 <= u && u <= 0x200a
    ||| u == 0x2028
    ||| u == 0x2029
    ||| u == 0x202f
    ||| u == 0x205f
    ||| u == 0x3000
}

/// Whether a character is Unicode White_Space.
pub fn white_space(c: char) -> (r: bool)
    ensures
        r == is_white_space(c),
{
    let u = c as u32;
    (0x09 <= u && u <= 0x0d) || u == 0x20 || u == 0x85 || u == 0xa0 || u == 0x1680 || (0x2000 <= u
        && u <= 0x200a) || u == 0x2028 || u == 0x2029 || u == 0x202f || u == 0x205f || u == 0x3000
}

/// A text without its leading white space.
pub open spec fn trim_start_spec(s: Seq<char>) -> Seq<char>
    decreases s.len(),
{
    if s.len() > 0 && is_white_space(s[0]) {
        trim_start_spec(s.drop_first())
    } else {
        s
    }
}

/// A text without its trailing white space.
pub open spec fn trim_end_spec(s: Seq<char>) -> Seq<char>
    decreases s.len(),
{
    if s.len() > 0 && is_white_space(s.last()) {
        trim_end_spec(s.drop_last())
    } else {
        s
    }
}

/// A text without leading and trailing white space.
pub open spec fn trim_spec(s: Seq<char>) -> Seq<char> {
    trim_end_spec(trim_start_spec(s))
}

proof fn lemma_trim_start_from(s: Seq<char>, i: int)
    requires
        0 <= i <= s.len(),
        forall|k: int| 0 <= k < i ==> is_white_space(#[trigger] s[k]),
    ensures
        trim_start_spec(s) == trim_start_spec(s.subrange(i, s.len() as int)),
    decreases i,
{
    if i > 0 {
        let t = s.drop_first();
        assert forall|k: int| 0 <= k < i - 1 implies is_white_space(#[trigger] t[k]) by {
            assert(t[k] == s[k + 1]);
        }
        lemma_trim_start_from(t, i - 1);
        assert(t.subrange(i - 1, t.len() as int) == s.subrange(i, s.len() as int));
    } else {
        assert(s.subrange(0, s.len() as int) == s);
    }
}

proof fn lemma_trim_end_to(s: Seq<char>, j: int)
    requires
        0 <= j <= s.len(),
        forall|k: int| j <= k < s.len() ==> is_white_space(#[trigger] s[k]),
    ensures
        trim_end_spec(s) == trim_end_spec(s.subrange(0, j)),
    decreases s.len() - j,
{
    if j < s.len() {
        let t = s.drop_last();
        assert forall|k: int| j <= k < t.len() implies is_white_space(#[trigger] t[k]) by {
            assert(t[k] == s[k]);
        }
        lemma_trim_end_to(t, j);
        assert(t.subrange(0, j) == s.subrange(0, j));
    } else {
        assert(s.subrange(0, j) == s);
    }
}

/// Removes leading and trailing white space.
pub fn trim(s: &str) -> (out: String)
    ensures
        out@ == trim_spec(s@),
{
    let mut chars: Vec<char> = Vec::new();
    for c in iter: s.chars()
        invariant
            iter.seq() == s@,
            chars@ == s@.take(iter.index()),
    {
        chars.push(c);
    }
    proof {
        assert(s@.take(s@.len() as int) == s@);
    }
    let n = chars.len();
    let mut i: usize = 0;
    while i < n && white_space(chars[i])
        invariant
            n == chars@.len(),
            chars@ == s@,
            i <= n,
            forall|k: int| 0 <= k < i ==> is_white_space(#[trigger] s@[k]),
        decreases n - i,
    {
        i = i + 1;
    }
    proof {
        lemma_trim_start_from(s@, i as int);
    }
    let ghost rest = s@.subrange(i as int, n as int);
    assert(trim_start_spec(rest) == rest);
    let mut j: usize = n;
    while j > i && white_space(chars[j - 1])
        invariant
            n == chars@.len(),
            chars@ == s@,
            i <= j <= n,
            forall|k: int| j <= k < n ==> is_white_space(#[trigger] s@[k]),
        decreases j,
    {
        j = j - 1;
    }
    proof {
        assert forall|k: int| j - i <= k < rest.len() implies is_white_space(#[trigger] rest[k]) by {
            assert(rest[k] == s@[k + i]);
        }
        lemma_trim_end_to(rest, j - i);
        assert(rest.subrange(0, j - i) == s@.subrange(i as int, j as int));
    }
    let mut out = String::new();
    let mut k: usize = i;
    while k < j
        invariant
            n == chars@.len(),
            chars@ == s@,
            i <= k <= j <= n,
            out@ == s@.subrange(i as int, k as int),
        decreases j - k,
    {
        out.push(chars[k]);
        proof {
            assert(s@.subrange(i as int, k + 1) == s@.subrange(i as int, k as int).push(s@[k as int]));
        }
        k = k + 1;
    }
    out
}

/// `String::from_utf8`: the string that the bytes encode when they are
/// valid UTF-8, and `None` otherwise.
#[verifier::external_body]
fn utf8_string(bytes: Vec<u8>) -> (s: Option<String>)
    ensures
        s is Some <==> valid_utf8(bytes@),
        s matches Some(t) ==> t@ == decode_utf8(bytes@),
{
    String::from_utf8(bytes).ok()
}

/// The IPv4 address printed by `tailscale ip -4`, from the output of the
/// command (`None` where it could not be run): the text trimmed, or empty
/// where the output is not UTF-8.
pub open spec fn ip_from_output_spec(stdout: Option<Seq<u8>>) -> Seq<char> {
    match stdout {
        Some(bytes) => if valid_utf8(bytes) {
            trim_spec(decode_utf8(bytes))
        } else {
            Seq::empty()
        },
        None => Seq::empty(),
    }
}

/// Reads the host address from the output of `tailscale ip -4`.
pub fn ip_from_output(stdout: Option<Vec<u8>>) -> (ip: String)
    ensures
        ip@ == ip_from_output_spec(
            match stdout {
                Some(v) => Some(v@),
                None => None,
            },
        ),
{
    match stdout {
        Some(bytes) => match utf8_string(bytes) {
            Some(text) => trim(text.as_str()),
            None => String::new(),
        },
        None => String::new(),
    }
}

/// What a poll does for one service: the check row and the state row it
/// writes, which share the service, the time and the outcome, and the alert
/// it sends, if any.
pub struct PollPlan {
    pub service: String,
    pub checked_at: String,
    pub outcome: CheckOutcome,
    pub repo_url: Option<String>,
    pub alert: Option<Alert>,
}

/// What a poll does for service `name` after a check at `checked_at` found
/// `outcome`, where `prev` was the status stored before.
pub fn plan_poll(
    name: &str,
    checked_at: String,
    outcome: CheckOutcome,
    repo_url: Option<String>,
    prev: &Option<String>,
    txtme_url: &Option<String>,
) -> (plan: PollPlan)
    ensures
        plan.service@ == name@,
        plan.checked_at == checked_at,
        plan.outcome == outcome,
        plan.repo_url == repo_url,
        plan.alert is Some <==> alerts_on(*prev, outcome.status@, *txtme_url),
        plan.alert matches Some(a) ==> a.url@ == txtme_url->0@ && a.message@ == alert_text(
            name@,
            outcome.status@,
        ),
{
    let alert = transition_alert(name, prev, outcome.status.as_str(), txtme_url);
    PollPlan { service: String::from_str(name), checked_at, outcome, repo_url, alert }
}

/// Plans the poll of service `name` at the current time; where the clock
/// gives no time stamp, the poll of the service is not planned and the error
/// says why.
pub fn poll_service(
    name: &str,
    outcome: CheckOutcome,
    repo_url: Option<String>,
    prev: &Option<String>,
    txtme_url: &Option<String>,
) -> (plan: Result<PollPlan, ClockError>)
    ensures
        plan matches Ok(p) ==> {
            &&& p.service@ == name@
            &&& is_clock_timestamp(p.checked_at@)
            &&& p.outcome == outcome
            &&& p.repo_url == repo_url
            &&& (p.alert is Some <==> alerts_on(*prev, outcome.status@, *txtme_url))
            &&& (p.alert matches Some(a) ==> a.url@ == txtme_url->0@ && a.message@ == alert_text(
                name@,
                outcome.status@,
            ))
        },
        plan matches Err(ClockError::OutOfRange { seconds, .. }) ==> seconds
            > LAST_FOUR_DIGIT_YEAR_SECOND,
{
    match current_timestamp() {
        Ok(now) => Ok(plan_poll(name, now, outcome, repo_url, prev, txtme_url)),
        Err(e) => Err(e),
    }
}

/// Every check finds one of the three statuses.
pub proof fn lemma_probe_status_known(probe: ProbeResult)
    ensures
        is_known_status(probe_status(probe)),
{
}

/// A poll that finds the status it stored last time sends no alert, and
/// neither does the first poll of a service.
pub proof fn lemma_quiet_without_change(stored: String, prev: Option<String>, status: String, txtme_url: Option<String>)
    requires
        prev is None || prev == Some(stored),
        stored@ == status@,
    ensures
        !alerts_on(prev, status@, txtme_url),
{
}

/// A poll that finds a status other than the stored one sends an alert
/// whenever an alert URL is configured.
pub proof fn lemma_alert_on_change(stored: String, status: String, txtme_url: Option<String>)
    requires
        stored@ != status@,
        txtme_url is Some,
    ensures
        alerts_on(Some(stored), status@, txtme_url),
{
}

/// Trimmed text starts and ends with a character that is not white space.
pub proof fn lemma_trim_edges(s: Seq<char>)
    ensures
        trim_spec(s).len() > 0 ==> !is_white_space(trim_spec(s)[0]) && !is_white_space(
            trim_spec(s).last(),
        ),
{
    lemma_trim_start_edge(s);
    lemma_trim_end_keeps_start(trim_start_spec(s));
}

proof fn lemma_trim_start_edge(s: Seq<char>)
    ensures
        trim_start_spec(s).len() > 0 ==> !is_white_space(trim_start_spec(s)[0]),
    decreases s.len(),
{
    if s.len() > 0 && is_white_space(s[0]) {
        lemma_trim_start_edge(s.drop_first());
    }
}

proof fn lemma_trim_end_keeps_start(t: Seq<char>)
    ensures
        trim_end_spec(t).len() > 0 ==> trim_end_spec(t)[0] == t[0] && !is_white_space(
            trim_end_spec(t).last(),
        ),
    decreases t.len(),
{
    if t.len() > 0 && is_white_space(t.last()) {
        lemma_trim_end_keeps_start(t.drop_last());
    }
}

/// Trimming twice gives what trimming once gives.
pub proof fn lemma_trim_idempotent(s: Seq<char>)
    ensures
        trim_spec(trim_spec(s)) == trim_spec(s),
{
    lemma_trim_edges(s);
    let t = trim_spec(s);
    if t.len() > 0 {
        assert(trim_start_spec(t) == t);
        assert(trim_end_spec(t) == t);
    }
}

} // verus!
