use email_sec::analyzer::score;
use email_sec::models::{AlignmentMode, DmarcPolicy, SpfQualifier};
use email_sec::parser::{parse_dmarc, parse_spf};
use email_sec::scan::assess;

#[test]
fn published_fixes_leave_nothing_to_mend() {
    let before = assess("test.com", String::new(), None, None, vec![], vec![], false);
    let dmarc = before.remediations[0].dns_fix.clone();
    let spf = before.remediations[1].dns_fix.clone();
    let record = parse_dmarc(&dmarc);
    assert_eq!(record.policy, DmarcPolicy::Quarantine);
    assert_eq!(record.pct, 100);
    assert_eq!(record.rua, Some("mailto:dmarc-reports@test.com".to_string()));
    assert_eq!(record.adkim, AlignmentMode::Strict);
    assert_eq!(record.aspf, AlignmentMode::Strict);
    assert_eq!(parse_spf(&spf).qualifier, SpfQualifier::Fail);
    let after = assess("test.com", String::new(), Some(spf), Some(dmarc), vec![], vec![], false);
    assert_eq!(before.risk_score, 90);
    assert_eq!(after.risk_score, 15);
    assert_eq!(after.remediations.len(), 1);
}

#[test]
fn policy_fix_mends_policy_and_reports() {
    let before = assess("a.org", String::new(), None, Some("v=DMARC1; p=none".to_string()), vec![], vec![], false);
    let record = parse_dmarc(&before.remediations[0].dns_fix);
    assert_eq!(record.policy, DmarcPolicy::Quarantine);
    assert_eq!(record.rua, Some("mailto:dmarc-reports@a.org".to_string()));
    assert_eq!(record.adkim, AlignmentMode::Unset);
}

#[test]
fn commands_quote_the_fix() {
    let posture = assess("a.org", String::new(), Some("v=spf1 +all".to_string()), None, vec![], vec![], false);
    for fix in score(&posture).2.iter().take(2) {
        let quoted = format!("\"{}\"", fix.dns_fix);
        assert!(fix.bind_command.ends_with(&quoted));
        assert!(fix.ps_command.ends_with(&quoted));
    }
}
