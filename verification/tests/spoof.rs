use email_sec::models::{DomainPosture, SmtpHandshakeResult, SmtpPhase};
use email_sec::scan::assess;
use email_sec::spoof::{correlate_theory, is_success, parse_smtp_response, simulate_spoof};
use email_sec::parser::parse_dkim_record;

fn posture(spf: Option<&str>, dmarc: Option<&str>) -> DomainPosture {
    assess(
        "test.com",
        String::new(),
        spf.map(|s| s.to_string()),
        dmarc.map(|s| s.to_string()),
        vec![],
        vec![],
        true,
    )
}

fn outcome(delivered: bool, dropped_at: Option<SmtpPhase>) -> SmtpHandshakeResult {
    SmtpHandshakeResult {
        target_host: "h".into(),
        target_port: 25,
        spoofed_domain: "test.com".into(),
        steps: vec![],
        dropped_at,
        delivered,
        theory_match: None,
    }
}

fn compare(p: &DomainPosture, delivered: bool, dropped_at: Option<SmtpPhase>) -> String {
    let mut result = outcome(delivered, dropped_at);
    correlate_theory(p, &mut result);
    assert_eq!(result.delivered, delivered);
    assert_eq!(result.dropped_at, dropped_at);
    result.theory_match.unwrap()
}

#[test]
fn stages_of_a_bare_domain() {
    let p = posture(None, None);
    let r = simulate_spoof(&p);
    let stages: Vec<&str> = r.iter().map(|s| s.stage.as_str()).collect();
    assert_eq!(
        stages,
        vec!["MAIL FROM (SPF Check)", "DATA (DKIM Verification)", "Post-DATA (DMARC Policy)", "Final Verdict"]
    );
    let verdicts: Vec<&str> = r.iter().map(|s| s.verdict.as_str()).collect();
    assert_eq!(
        verdicts,
        vec![
            "PASS (no record)",
            "SKIP → NO KEYS",
            "NO POLICY → DELIVERED",
            "Spoofed email would likely be DELIVERED to the inbox.",
        ]
    );
    assert_eq!(r[3].detail, "Without a DMARC record, there is no enforcement policy. The domain is vulnerable to direct spoofing.");
}

#[test]
fn spf_stage_of_each_qualifier() {
    let verdict = |spf: &str| simulate_spoof(&posture(Some(spf), None))[0].verdict.clone();
    assert_eq!(verdict("v=spf1 mx -all"), "FAIL → REJECTED");
    assert_eq!(verdict("v=spf1 ~all"), "SOFTFAIL → TAGGED");
    assert_eq!(verdict("v=spf1 ?all"), "PASS → ACCEPTED");
    assert_eq!(verdict("v=spf1 +all"), "PASS → ACCEPTED");
    assert_eq!(verdict("v=spf1 mx"), "PASS (no terminator)");
    let detail = simulate_spoof(&posture(Some("v=spf1 mx ip4:1.2.3.4 -all"), None))[0].detail.clone();
    assert_eq!(
        detail,
        "SPF -all means the receiving MTA should reject mail from IPs not listed in: [\"mx\", \"ip4:1.2.3.4\"]. A spoofed envelope from an unauthorized IP will be dropped here."
    );
}

#[test]
fn dkim_stage_names_selectors() {
    let mut p = posture(None, None);
    p.dkim_keys = vec![parse_dkim_record("s1", "v=DKIM1; p=a"), parse_dkim_record("k1", "v=DKIM1; p=b")];
    let r = simulate_spoof(&p);
    assert_eq!(r[1].verdict, "FAIL → SIGNATURE MISMATCH");
    assert_eq!(
        r[1].detail,
        "DKIM keys exist for selectors [\"s1\", \"k1\"]. A spoofed message won't have a valid signature, so DKIM verification will fail."
    );
}

#[test]
fn policy_decides_the_final_verdict() {
    let r = |spf: Option<&str>, dmarc: &str| simulate_spoof(&posture(spf, Some(dmarc)));
    let reject = r(None, "p=reject; pct=50");
    assert_eq!(reject[2].verdict, "REJECT → DROPPED");
    assert_eq!(reject[2].detail, "DMARC p=reject at pct=50. If both SPF and DKIM fail alignment, the message will be rejected outright.");
    assert_eq!(reject[3].verdict, "Spoofed email would be REJECTED by a compliant MTA.");
    let quarantine = r(None, "p=quarantine");
    assert_eq!(quarantine[2].verdict, "QUARANTINE → SPAM");
    assert_eq!(quarantine[2].detail, "DMARC p=quarantine at pct=100. Failing messages will be routed to spam/junk.");
    assert_eq!(quarantine[3].verdict, "Spoofed email would land in SPAM/JUNK on a compliant MTA.");
    assert_eq!(r(None, "p=none")[2].verdict, "NONE → DELIVERED");
    assert_eq!(r(None, "x")[3].verdict, "Spoofed email would likely be DELIVERED to the inbox.");
    assert!(r(Some("v=spf1 -all"), "p=none")[3].verdict.starts_with("SPF would fail, but"));
}

#[test]
fn replies_are_read() {
    assert_eq!(parse_smtp_response("220 mail ready\r\n"), (220, "220 mail ready".to_string()));
    assert_eq!(parse_smtp_response("250-one\r\n550 two\r\n").0, 550);
    assert_eq!(parse_smtp_response("250").0, 250);
    assert_eq!(parse_smtp_response("25").0, 25);
    assert_eq!(parse_smtp_response("2x0 y").0, 0);
    assert_eq!(parse_smtp_response(" \r\n"), (0, String::new()));
    assert_eq!(parse_smtp_response("9999").0, 999);
    assert_eq!(parse_smtp_response("+25 x").0, 25);
}

#[test]
fn codes_that_mean_success() {
    assert!(!is_success(199));
    assert!(is_success(200));
    assert!(is_success(354));
    assert!(is_success(399));
    assert!(!is_success(400));
    assert!(!is_success(0));
}

#[test]
fn comparison_with_a_rejecting_policy() {
    let p = posture(None, Some("p=reject"));
    assert!(compare(&p, true, None).starts_with("MISMATCH: Theory predicted REJECT, but"));
    assert_eq!(
        compare(&p, false, Some(SmtpPhase::MailFrom)),
        "MATCH: Theory predicted REJECT. Server dropped the connection at phase: MAIL_FROM."
    );
    assert_eq!(
        compare(&p, false, None),
        "MATCH: Theory predicted REJECT. Server dropped the connection at phase: UNKNOWN."
    );
}

#[test]
fn comparison_with_other_policies() {
    let spam = posture(None, Some("p=quarantine"));
    assert!(compare(&spam, true, None).starts_with("PARTIAL: Theory predicted QUARANTINE/SPAM"));
    let open = posture(Some("v=spf1 -all"), Some("p=none"));
    assert_eq!(
        compare(&open, true, None),
        "MATCH: Theory predicted delivery, and the SMTP server accepted the message."
    );
    assert_eq!(
        compare(&open, false, Some(SmtpPhase::Body)),
        "UNEXPECTED: Server rejected at phase BODY_END despite permissive DNS policy. The MTA may have local override rules or reputation-based filtering."
    );
    assert!(compare(&spam, false, Some(SmtpPhase::Connect)).starts_with("UNEXPECTED: Server rejected at phase TCP_CONNECT"));
}

#[test]
fn prediction_counts_as_delivery_without_results() {
    let mut p = posture(None, Some("p=reject"));
    p.spoof_results = vec![];
    assert!(compare(&p, true, None).starts_with("MATCH: Theory predicted delivery"));
}
