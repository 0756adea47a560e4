use email_sec::models::{DomainPosture, QueryMeta, SmtpHandshakeResult, SmtpPhase, SmtpStep};
use email_sec::page::{Page, Style};
use email_sec::parser::parse_dkim_record;
use email_sec::report::{print_console, summarize};
use email_sec::scan::{assess, conclude};
use email_sec::spoof::simulate_spoof;

fn text(page: &Page) -> String {
    page.spans.iter().map(|s| s.text.as_str()).collect()
}

fn style_of(page: &Page, text: &str) -> Style {
    page.spans.iter().find(|s| s.text == text).unwrap().style
}

fn posture(spf: Option<&str>, dmarc: Option<&str>, spoof_test: bool) -> DomainPosture {
    let log = vec![
        QueryMeta {
            query: "test.com".into(),
            latency_ms: 7,
            raw_response: Some("x".repeat(130)),
            status: "OK".into(),
        },
        QueryMeta {
            query: "_dmarc.test.com".into(),
            latency_ms: 5000,
            raw_response: None,
            status: "TIMEOUT".into(),
        },
    ];
    assess(
        "test.com",
        "now".into(),
        spf.map(|s| s.to_string()),
        dmarc.map(|s| s.to_string()),
        vec![],
        log,
        spoof_test,
    )
}

#[test]
fn summary_lines() {
    let page = summarize(&posture(None, None, false));
    assert_eq!(text(&page), "EMAIL SECURITY POSTURE: TEST.COM\nRisk Score: 90% (CRITICAL)\n");
}

#[test]
fn quiet_report_of_a_bare_domain() {
    let bar = "═".repeat(60);
    let page = print_console(&posture(None, None, false), false);
    let expected = format!(
        "\n{}\n  EMAIL SECURITY POSTURE: TEST.COM\n{}\n\n  Risk Score: 90%\n  Risk Level: CRITICAL\n\n── SPF ──────────────────────────────────\n  NOT FOUND\n\n── DMARC ────────────────────────────────\n  NOT FOUND\n\n── DKIM ─────────────────────────────────\n  No valid DKIM keys discovered.\n\n── REMEDIATIONS ─────────────────────────\n  1. [CRITICAL] No DMARC record found. The domain has zero spoofing protection at the policy level.\n     DNS Fix: v=DMARC1; p=quarantine; rua=mailto:dmarc-reports@test.com; pct=100; adkim=s; aspf=s\n  2. [HIGH] No SPF record. Any IP can claim to send mail for this domain.\n     DNS Fix: v=spf1 -all\n  3. [HIGH] No DKIM keys discovered across 15 common selectors. DKIM signing may not be configured.\n     DNS Fix: Generate a DKIM keypair and publish the public key at <selector>._domainkey.<domain>.\n\n{}\n",
        bar, bar, bar
    );
    assert_eq!(text(&page), expected);
    assert_eq!(style_of(&page, "90%"), Style::RedBold);
    assert_eq!(style_of(&page, "CRITICAL"), Style::Bold);
    assert_eq!(style_of(&page, "HIGH"), Style::Red);
    assert_eq!(style_of(&page, "  EMAIL SECURITY POSTURE: TEST.COM"), Style::CyanBold);
    assert_eq!(style_of(&page, "NOT FOUND"), Style::RedBold);
}

#[test]
fn records_are_shown() {
    let mut p = posture(Some("v=spf1 mx ~all"), Some("v=DMARC1; p=reject; pct=80; rua=r; adkim=s; aspf=r"), false);
    p.dkim_keys = vec![parse_dkim_record("s1", "v=DKIM1; p=abcd"), parse_dkim_record("s2", "p=ab")];
    let shown = text(&print_console(&p, false));
    assert!(shown.contains("  Policy:     ~all (SoftFail)\n  Mechanisms: [\"mx\"]\n\n"));
    assert!(shown.contains("  Policy:     reject\n  PCT:        80%\n  DKIM Align: strict (s)\n  SPF Align:  relaxed (r)\n  RUA:        r\n  RUF:        (not set)\n\n"));
    assert!(shown.contains("  [s1] type=rsa, ~24 bits ✓\n  [s2] type=rsa, ~8 bits ✗\n"));
    let verbose = text(&print_console(&p, true));
    assert!(verbose.contains("  Mechanisms: [\"mx\"]\n  Raw:        v=spf1 mx ~all\n"));
    assert!(verbose.contains("  Raw:        v=DMARC1; p=reject; pct=80; rua=r; adkim=s; aspf=r\n"));
}

#[test]
fn colours_of_the_score() {
    let mut p = posture(None, None, false);
    for (score, style) in [
        (0, Style::GreenBold),
        (29, Style::GreenBold),
        (30, Style::YellowBold),
        (59, Style::YellowBold),
        (60, Style::RedBold),
        (100, Style::RedBold),
    ] {
        p.risk_score = score;
        assert_eq!(style_of(&print_console(&p, false), &format!("{}%", score)), style);
    }
}

#[test]
fn prediction_is_shown() {
    let p = posture(Some("v=spf1 ~all"), Some("p=reject"), true);
    let page = print_console(&p, false);
    let shown = text(&page);
    assert!(shown.contains("── SPOOF SIMULATION (PASSIVE) ────────────\n  MAIL FROM (SPF Check) → SOFTFAIL → TAGGED\n  DATA (DKIM Verification) → SKIP → NO KEYS\n"));
    assert_eq!(style_of(&page, "SOFTFAIL → TAGGED"), Style::Yellow);
    assert_eq!(style_of(&page, "SKIP → NO KEYS"), Style::Red);
    assert_eq!(style_of(&page, "REJECT → DROPPED"), Style::Green);
    assert_eq!(style_of(&page, "Spoofed email would be REJECTED by a compliant MTA."), Style::Green);
    assert!(!shown.contains("SPF ~all tags"));
    assert!(text(&print_console(&p, true)).contains("\n    SPF ~all tags unauthorized senders"));
    let spam = print_console(&posture(None, Some("p=quarantine"), true), false);
    assert_eq!(style_of(&spam, "QUARANTINE → SPAM"), Style::Yellow);
}

#[test]
fn passed_checks_are_green_and_failed_ones_red() {
    let mut p = posture(Some("v=spf1 +all"), None, true);
    p.dkim_keys = vec![parse_dkim_record("s1", "v=DKIM1; p=abcd")];
    p.spoof_results = simulate_spoof(&p);
    let page = print_console(&p, false);
    assert_eq!(style_of(&page, "PASS → ACCEPTED"), Style::Green);
    assert_eq!(style_of(&page, "FAIL → SIGNATURE MISMATCH"), Style::Red);
    assert_eq!(style_of(&page, "NO POLICY → DELIVERED"), Style::Red);
    let page = print_console(&posture(Some("v=spf1 -all"), None, true), false);
    assert_eq!(style_of(&page, "FAIL → REJECTED"), Style::Red);
    let page = print_console(&posture(None, None, true), false);
    assert_eq!(style_of(&page, "PASS (no record)"), Style::Green);
}

fn step(phase: SmtpPhase, command: Option<&str>, code: u16, text: &str, success: bool) -> SmtpStep {
    SmtpStep {
        phase,
        command_sent: command.map(|c| c.to_string()),
        response_code: code,
        response_text: text.to_string(),
        success,
    }
}

fn handshake(delivered: bool, steps: Vec<SmtpStep>, dropped_at: Option<SmtpPhase>) -> SmtpHandshakeResult {
    SmtpHandshakeResult {
        target_host: "mx".into(),
        target_port: 25,
        spoofed_domain: "test.com".into(),
        steps,
        dropped_at,
        delivered,
        theory_match: None,
    }
}

#[test]
fn handshake_is_shown() {
    let long = format!("250-{}\r\n250 b", "x".repeat(200));
    let steps = vec![
        step(SmtpPhase::Connect, None, 220, "220 hi", true),
        step(SmtpPhase::Ehlo, Some("EHLO"), 250, &long, true),
        step(SmtpPhase::MailFrom, Some("MAIL"), 550, "", false),
    ];
    let p = conclude(posture(None, Some("p=reject"), true), handshake(false, steps, Some(SmtpPhase::MailFrom)));
    let page = print_console(&p, false);
    let expected = format!(
        "── SMTP HANDSHAKE (ACTIVE) ───────────────\n  Target: mx:25\n  Spoofed Domain: test.com\n\n  [TCP_CONNECT] 220 ✓\n    S: 220 hi\n  [EHLO] 250 ✓\n    C: EHLO\n    S: 250-{}\n  [MAIL_FROM] 550 ✗\n    C: MAIL\n\n  Result: CONNECTION DROPPED at phase MAIL_FROM\n  Theory: MATCH: Theory predicted REJECT. Server dropped the connection at phase: MAIL_FROM.\n",
        "x".repeat(96)
    );
    assert!(text(&page).contains(&expected));
    assert_eq!(style_of(&page, "220"), Style::Green);
    assert_eq!(style_of(&page, "550"), Style::RedBold);
    assert_eq!(style_of(&page, "CONNECTION DROPPED"), Style::GreenBold);
    assert!(text(&print_console(&p, true)).contains("    S: 250 b\n"));
}

#[test]
fn colours_of_codes_and_comparisons() {
    let codes = vec![
        step(SmtpPhase::Ehlo, None, 451, "", false),
        step(SmtpPhase::Data, None, 0, "", false),
    ];
    let p = conclude(posture(None, Some("p=reject"), true), handshake(true, codes, None));
    let page = print_console(&p, false);
    assert_eq!(style_of(&page, "451"), Style::YellowBold);
    assert_eq!(style_of(&page, "0"), Style::Red);
    assert_eq!(style_of(&page, "MESSAGE ACCEPTED BY SERVER"), Style::RedBold);
    let comparison = p.smtp_handshake.unwrap().theory_match.unwrap();
    assert_eq!(style_of(&page, &comparison), Style::Red);
    let p = conclude(posture(None, Some("p=quarantine"), true), handshake(true, vec![], None));
    let page = print_console(&p, false);
    assert_eq!(style_of(&page, &p.smtp_handshake.unwrap().theory_match.unwrap()), Style::Yellow);
    let p = conclude(posture(None, None, true), handshake(true, vec![], None));
    let page = print_console(&p, false);
    assert_eq!(style_of(&page, &p.smtp_handshake.unwrap().theory_match.unwrap()), Style::Green);
}

#[test]
fn query_log_is_verbose_only() {
    let mut p = posture(None, None, false);
    let quiet = text(&print_console(&p, false));
    let verbose = print_console(&p, true);
    assert!(!quiet.contains("DNS QUERY LOG"));
    let expected = format!(
        "── DNS QUERY LOG ────────────────────────\n  test.com [OK] 7ms\n    → {}\n  _dmarc.test.com [TIMEOUT] 5000ms\n",
        "x".repeat(120)
    );
    assert!(text(&verbose).contains(&expected));
    assert_eq!(style_of(&verbose, "OK"), Style::Green);
    assert_eq!(style_of(&verbose, "TIMEOUT"), Style::Red);
    assert!(text(&verbose).contains("     BIND:    test.com. IN TXT \"v=spf1 -all\"\n     PS:      Add-DnsServerResourceRecord"));
    p.query_log = vec![];
    assert_eq!(text(&print_console(&p, false)), quiet);
}
