use vstd::prelude::*;
use crate::redact::{chars_of, has_pii, redact, redacted, string_of, Redaction};

verus! {

/// The ceiling, in seconds, on the wait for the upstream chat service.
pub const UPSTREAM_TIMEOUT_SECS: u64 = 10;

pub open spec fn fallback_text() -> Seq<char> {
    "Sistema em modo de segurança: Verifique a ligação ao nó de IA."@
}

pub open spec fn provider_text() -> Seq<char> {
    "Llama-3 (Groq Europe)"@
}

pub open spec fn node_text() -> Seq<char> {
    "LX-01"@
}

pub open spec fn audit_suffix() -> Seq<char> {
    "] BLOQUEIO RGPD: Dados sensíveis interceptados."@
}

/// The audit line written at `timestamp`: the timestamp in brackets and the
/// fixed interception notice.
pub open spec fn audit_line_text(timestamp: Seq<char>) -> Seq<char> {
    seq!['['] + timestamp + audit_suffix()
}

/// The audit lines that one request adds at `timestamp`: the interception
/// notice once when the message holds sensitive data, nothing otherwise.
pub open spec fn audit_lines(message: Seq<char>, timestamp: Seq<char>) -> Seq<Seq<char>> {
    if has_pii(message) {
        seq![audit_line_text(timestamp)]
    } else {
        Seq::empty()
    }
}

/// The log text made of `lines`, each followed by a newline.
pub open spec fn log_text(lines: Seq<Seq<char>>) -> Seq<char>
    decreases lines.len(),
{
    if lines.len() == 0 {
        Seq::empty()
    } else {
        log_text(lines.drop_last()) + lines.last() + seq!['\n']
    }
}

/// How one call to the upstream chat service ended.
pub enum UpstreamOutcome {
    /// It answered in time, and the answer held this reply text.
    Replied(String),
    /// It answered in time, but the answer held no reply text.
    NoReplyText,
    /// The call failed: a network error or an unsuccessful answer.
    Failed,
    /// The wait ceiling elapsed before it answered.
    TimedOut,
}

/// The reply that a caller gets for an upstream outcome: the service's own
/// text, or the fallback notice whatever went wrong.
pub open spec fn reply_text(outcome: UpstreamOutcome) -> Seq<char> {
    match outcome {
        UpstreamOutcome::Replied(text) => text@,
        _ => fallback_text(),
    }
}

/// The response to one chat request.
pub struct ChatResponse {
    pub reply: String,
    pub provider: String,
    pub node: String,
    pub latency_ms: u128,
}

/// `r` is the response for `outcome` measured at `latency_ms`.
pub open spec fn is_response_for(r: ChatResponse, outcome: UpstreamOutcome, latency_ms: u128) -> bool {
    &&& r.reply@ == reply_text(outcome)
    &&& r.provider@ == provider_text()
    &&& r.node@ == node_text()
    &&& r.latency_ms == latency_ms
}

/// The reply text for `outcome`.
pub fn reply_for(outcome: UpstreamOutcome) -> (r: String)
    ensures
        r@ == reply_text(outcome),
{
    match outcome {
        UpstreamOutcome::Replied(text) => text,
        _ => "Sistema em modo de segurança: Verifique a ligação ao nó de IA.".to_owned(),
    }
}

/// The response for `outcome`, with the constant provider and node labels and
/// the measured latency.
pub fn chat_response(outcome: UpstreamOutcome, latency_ms: u128) -> (r: ChatResponse)
    ensures
        is_response_for(r, outcome, latency_ms),
{
    ChatResponse {
        reply: reply_for(outcome),
        provider: "Llama-3 (Groq Europe)".to_owned(),
        node: "LX-01".to_owned(),
        latency_ms,
    }
}

/// A request whose upstream wait ran out is answered with the fallback notice,
/// and, its latency being measured from the start of the request to the
/// answer, reports at least the ceiling.
pub proof fn lemma_timeout_response(r: ChatResponse, latency_ms: u128)
    requires
        is_response_for(r, UpstreamOutcome::TimedOut, latency_ms),
        latency_ms >= UPSTREAM_TIMEOUT_SECS as u128 * 1000,
    ensures
        r.reply@ == fallback_text(),
        r.latency_ms >= 10_000,
{
}

/// A request whose upstream call answered in time with a reply text is
/// answered with exactly that text.
pub proof fn lemma_upstream_reply_passed_through(r: ChatResponse, text: String, latency_ms: u128)
    requires
        is_response_for(r, UpstreamOutcome::Replied(text), latency_ms),
    ensures
        r.reply@ == text@,
{
}

/// The audit line for an interception at `timestamp`.
pub fn audit_line(timestamp: &str) -> (r: String)
    ensures
        r@ == audit_line_text(timestamp@),
{
    let mut line: Vec<char> = vec!['['];
    let mut ts = chars_of(timestamp);
    line.append(&mut ts);
    let mut suffix = chars_of("] BLOQUEIO RGPD: Dados sensíveis interceptados.");
    line.append(&mut suffix);
    string_of(&line)
}

/// What the gateway does with one inbound message before it calls upstream.
pub struct ChatPlan {
    /// The text to send upstream: the message with sensitive data replaced.
    pub sanitized: String,
    /// The lines to append to the audit log for this request.
    pub audit: Vec<String>,
}

/// Redacts `message` and lists the audit lines that the request adds at
/// `timestamp`: exactly one when the message holds sensitive data, none
/// otherwise. The lines never hold the message or its sanitized copy.
pub fn plan_request(message: &str, timestamp: &str) -> (r: ChatPlan)
    ensures
        r.sanitized@ == redacted(message@),
        r.audit@.map_values(|l: String| l@) == audit_lines(message@, timestamp@),
{
    let Redaction { contains_pii, sanitized } = redact(message);
    let mut audit: Vec<String> = Vec::new();
    if contains_pii {
        audit.push(audit_line(timestamp));
    }
    assert(audit@.map_values(|l: String| l@) =~= audit_lines(message@, timestamp@));
    ChatPlan { sanitized, audit }
}

/// The text to append to the audit log for `lines`, in one write.
pub fn audit_text(lines: &Vec<String>) -> (r: String)
    ensures
        r@ == log_text(lines@.map_values(|l: String| l@)),
{
    let mut out: Vec<char> = Vec::new();
    let mut i: usize = 0;
    while i < lines.len()
        invariant
            i <= lines.len(),
            out@ == log_text(lines@.subrange(0, i as int).map_values(|l: String| l@)),
        decreases lines.len() - i,
    {
        let mut line = chars_of(lines[i].as_str());
        out.append(&mut line);
        out.push('\n');
        let ghost next = lines@.subrange(0, i + 1).map_values(|l: String| l@);
        assert(next.drop_last() =~= lines@.subrange(0, i as int).map_values(|l: String| l@));
        i += 1;
    }
    assert(lines@.subrange(0, i as int) =~= lines@);
    string_of(&out)
}

/// Starting from no audit log, one request whose message holds sensitive data
/// leaves a log of exactly one line, the timestamped interception notice;
/// a request whose message is clean leaves nothing to write.
pub proof fn lemma_log_after_one_request(message: Seq<char>, timestamp: Seq<char>)
    ensures
        has_pii(message) ==> log_text(audit_lines(message, timestamp)) == audit_line_text(
            timestamp,
        ) + seq!['\n'],
        !has_pii(message) ==> log_text(audit_lines(message, timestamp)) == Seq::<char>::empty(),
{
    let lines = audit_lines(message, timestamp);
    if has_pii(message) {
        assert(lines.drop_last() =~= Seq::<Seq<char>>::empty());
        assert(log_text(lines.drop_last()) == Seq::<char>::empty());
        assert(lines.last() == audit_line_text(timestamp));
        assert(log_text(lines) =~= audit_line_text(timestamp) + seq!['\n']);
    }
}

/// Why the audit log could not be served.
#[derive(Debug, PartialEq, Eq, Structural)]
pub enum LogsError {
    /// No audit log has been written yet.
    NotFound,
}

/// What the log endpoint answers, given the audit log's contents, or `None`
/// when no log exists yet.
pub fn logs_reply(contents: Option<String>) -> (r: Result<String, LogsError>)
    ensures
        match contents {
            Some(text) => r matches Ok(body) && body@ == text@,
            None => r == Err::<String, LogsError>(LogsError::NotFound),
        },
{
    match contents {
        Some(text) => Ok(text),
        None => Err(LogsError::NotFound),
    }
}

} // verus!
