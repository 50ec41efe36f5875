use pii_gateway::gateway::{
    audit_line, audit_text, chat_response, logs_reply, plan_request, reply_for, LogsError, UpstreamOutcome,
    UPSTREAM_TIMEOUT_SECS,
};

const FALLBACK: &str = "Sistema em modo de segurança: Verifique a ligação ao nó de IA.";
const STAMP: &str = "SystemTime { tv_sec: 1700000000, tv_nsec: 5 }";

#[test]
fn email_message_is_sanitized_and_audited() {
    let plan = plan_request("contact me at joao@example.com", STAMP);
    assert_eq!(plan.sanitized, "contact me at [DADO PROTEGIDO]");
    assert_eq!(plan.audit.len(), 1);
    assert_eq!(
        plan.audit[0],
        "[SystemTime { tv_sec: 1700000000, tv_nsec: 5 }] BLOQUEIO RGPD: Dados sensíveis interceptados."
    );
    let resp = chat_response(UpstreamOutcome::Replied("Obrigado".to_string()), 42);
    assert_eq!(resp.reply, "Obrigado");
}

#[test]
fn clean_message_gets_upstream_reply_and_no_audit() {
    let plan = plan_request("hello, how are you?", STAMP);
    assert_eq!(plan.sanitized, "hello, how are you?");
    assert!(plan.audit.is_empty());
    let resp = chat_response(UpstreamOutcome::Replied("I am fine".to_string()), 3);
    assert_eq!(resp.reply, "I am fine");
    assert_eq!(resp.provider, "Llama-3 (Groq Europe)");
    assert_eq!(resp.node, "LX-01");
    assert_eq!(resp.latency_ms, 3);
}

#[test]
fn timeout_gives_fallback() {
    let ceiling_ms = (UPSTREAM_TIMEOUT_SECS as u128) * 1000;
    assert_eq!(ceiling_ms, 10_000);
    let resp = chat_response(UpstreamOutcome::TimedOut, ceiling_ms + 7);
    assert_eq!(resp.reply, FALLBACK);
    assert!(resp.latency_ms >= ceiling_ms);
}

#[test]
fn failures_give_fallback() {
    assert_eq!(reply_for(UpstreamOutcome::Failed), FALLBACK);
    assert_eq!(reply_for(UpstreamOutcome::NoReplyText), FALLBACK);
}

#[test]
fn upstream_text_is_passed_through_exactly() {
    assert_eq!(reply_for(UpstreamOutcome::Replied("Erro".to_string())), "Erro");
    assert_eq!(reply_for(UpstreamOutcome::Replied(String::new())), "");
}

#[test]
fn audit_line_format() {
    assert_eq!(
        audit_line("t0"),
        "[t0] BLOQUEIO RGPD: Dados sensíveis interceptados."
    );
}

#[test]
fn audit_line_never_holds_the_message() {
    let plan = plan_request("my iban is PT50000201231234567890154", "now");
    assert_eq!(plan.audit.len(), 1);
    assert!(!plan.audit[0].contains("PT50"));
}

#[test]
fn logs_missing_is_not_found() {
    assert_eq!(logs_reply(None), Err(LogsError::NotFound));
}

#[test]
fn logs_after_one_interception_hold_one_line() {
    assert_eq!(logs_reply(None), Err(LogsError::NotFound));
    let plan = plan_request("call 912345678", STAMP);
    let log = audit_text(&plan.audit);
    let body = logs_reply(Some(log)).unwrap();
    assert_eq!(body.lines().count(), 1);
    assert_eq!(body.lines().next().unwrap(), audit_line(STAMP));
}

#[test]
fn audit_text_ends_each_line() {
    let lines = vec!["one".to_string(), "two".to_string()];
    assert_eq!(audit_text(&lines), "one\ntwo\n");
    assert_eq!(audit_text(&Vec::new()), "");
}

#[test]
fn clean_message_writes_nothing() {
    let plan = plan_request("x12345678", STAMP);
    assert_eq!(audit_text(&plan.audit), "");
}
