use email_sec::analyzer::score;
use email_sec::models::{QueryMeta, RiskLevel, SmtpHandshakeResult, SpfQualifier};
use email_sec::scan::{assess, choose_mode, conclude, merge_log, Mode};

fn some(text: &str) -> Option<String> {
    Some(text.to_string())
}

fn meta(query: &str) -> QueryMeta {
    QueryMeta { query: query.into(), latency_ms: 0, raw_response: None, status: "OK".into() }
}

#[test]
fn file_comes_before_header_before_domain() {
    assert!(matches!(choose_mode(some("f"), some("h"), some("d")), Mode::File(p) if p == "f"));
    assert!(matches!(choose_mode(None, some("h"), some("d")), Mode::Header(t) if t == "h"));
    assert!(matches!(choose_mode(None, None, some(" Test.COM\n")), Mode::Domain(d) if d == "test.com"));
    assert!(matches!(choose_mode(None, None, None), Mode::Nothing));
}

#[test]
fn log_is_merged_in_order() {
    let log = merge_log(meta("a"), meta("b"), vec![meta("c"), meta("d")]);
    let names: Vec<String> = log.iter().map(|m| m.query.clone()).collect();
    assert_eq!(names, vec!["a", "b", "c", "d"]);
}

#[test]
fn assessment_in_full() {
    let p = assess("test.com", "now".into(), some("v=spf1 ~all"), None, vec![], vec![meta("a")], false);
    assert_eq!(p.domain, "test.com");
    assert_eq!(p.timestamp, "now");
    assert_eq!(p.raw_spf, some("v=spf1 ~all"));
    assert_eq!(p.raw_dmarc, None);
    assert_eq!(p.spf.as_ref().unwrap().qualifier, SpfQualifier::SoftFail);
    assert!(p.dmarc.is_none());
    assert_eq!(p.risk_score, 75);
    assert_eq!(p.risk_level, RiskLevel::High);
    assert_eq!(p.remediations.len(), 3);
    assert_eq!(p.query_log.len(), 1);
    assert!(p.spoof_results.is_empty());
    assert!(p.smtp_handshake.is_none());
    assert_eq!(score(&p).0, p.risk_score);
}

#[test]
fn spoof_test_adds_prediction_and_comparison() {
    let p = assess("test.com", "now".into(), None, some("v=DMARC1; p=reject"), vec![], vec![], true);
    assert_eq!(p.spoof_results.len(), 4);
    let handshake = SmtpHandshakeResult {
        target_host: "mx".into(),
        target_port: 25,
        spoofed_domain: "test.com".into(),
        steps: vec![],
        dropped_at: None,
        delivered: true,
        theory_match: None,
    };
    let q = conclude(p.clone(), handshake);
    assert_eq!(q.risk_score, p.risk_score);
    let result = q.smtp_handshake.as_ref().unwrap();
    assert_eq!(result.target_host, "mx");
    assert!(result.theory_match.as_ref().unwrap().starts_with("MISMATCH"));
    assert_eq!(score(&q).0, q.risk_score);
}
