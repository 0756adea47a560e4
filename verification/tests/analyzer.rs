use email_sec::analyzer::score;
use email_sec::models::{
    AlignmentMode, DkimKey, DmarcPolicy, DmarcRecord, DomainPosture, Remediation, RiskLevel,
    SpfQualifier, SpfRecord,
};

fn make_posture(
    spf: Option<SpfRecord>,
    dmarc: Option<DmarcRecord>,
    dkim: Vec<DkimKey>,
) -> DomainPosture {
    DomainPosture {
        domain: "test.com".into(),
        timestamp: String::new(),
        raw_spf: spf.as_ref().map(|s| s.raw.clone()),
        raw_dmarc: dmarc.as_ref().map(|d| d.raw.clone()),
        spf,
        dmarc,
        dkim_keys: dkim,
        risk_score: 0,
        risk_level: RiskLevel::Low,
        remediations: Vec::new(),
        query_log: Vec::new(),
        spoof_results: Vec::new(),
        smtp_handshake: None,
    }
}

#[test]
fn critical_no_dmarc_plus_all_spf() {
    let spf = SpfRecord { raw: "v=spf1 +all".into(), qualifier: SpfQualifier::Pass, mechanisms: vec![] };
    let p = make_posture(Some(spf), None, vec![]);
    let (score, level, _) = score(&p);
    assert!(score >= 80, "expected critical, got {}", score);
    assert!(matches!(level, RiskLevel::Critical));
}

#[test]
fn high_risk_none_policy_softfail() {
    let spf = SpfRecord { raw: "v=spf1 ~all".into(), qualifier: SpfQualifier::SoftFail, mechanisms: vec![] };
    let dmarc = DmarcRecord {
        raw: "v=DMARC1; p=none".into(), policy: DmarcPolicy::NoAction,
        subdomain_policy: None, rua: None, ruf: None, pct: 100,
        adkim: AlignmentMode::Unset, aspf: AlignmentMode::Unset,
    };
    let p = make_posture(Some(spf), Some(dmarc), vec![]);
    let (s, level, _) = score(&p);
    assert!(s >= 60 && s <= 100, "expected high/critical, got {}", s);
    assert!(matches!(level, RiskLevel::High | RiskLevel::Critical));
}

#[test]
fn low_risk_reject_strict() {
    let spf = SpfRecord { raw: "v=spf1 -all".into(), qualifier: SpfQualifier::Fail, mechanisms: vec![] };
    let dmarc = DmarcRecord {
        raw: "v=DMARC1; p=reject; rua=mailto:x@test.com; adkim=s; aspf=s".into(),
        policy: DmarcPolicy::Reject,
        subdomain_policy: None, rua: Some("mailto:x@test.com".into()), ruf: None,
        pct: 100, adkim: AlignmentMode::Strict, aspf: AlignmentMode::Strict,
    };
    let dkim = vec![DkimKey {
        selector: "google".into(), raw: "v=DKIM1; k=rsa; p=LONGKEY".into(),
        key_type: "rsa".into(), public_key: "A".repeat(400), key_bits_approx: 2400,
        valid_syntax: true,
    }];
    let p = make_posture(Some(spf), Some(dmarc), dkim);
    let (s, level, _) = score(&p);
    assert!(s <= 29, "expected low, got {}", s);
    assert!(matches!(level, RiskLevel::Low));
}

#[test]
fn medium_risk_no_reporting() {
    let spf = SpfRecord { raw: "v=spf1 -all".into(), qualifier: SpfQualifier::Fail, mechanisms: vec![] };
    let dmarc = DmarcRecord {
        raw: "v=DMARC1; p=quarantine".into(), policy: DmarcPolicy::Quarantine,
        subdomain_policy: None, rua: None, ruf: None, pct: 100,
        adkim: AlignmentMode::Unset, aspf: AlignmentMode::Unset,
    };
    let dkim = vec![DkimKey {
        selector: "s1".into(), raw: "v=DKIM1; k=rsa; p=LONGKEY".into(),
        key_type: "rsa".into(), public_key: "A".repeat(400), key_bits_approx: 2400,
        valid_syntax: true,
    }];
    let p = make_posture(Some(spf), Some(dmarc), dkim);
    let (s, level, _) = score(&p);
    assert!(s >= 10 && s <= 59, "expected medium, got {}", s);
    assert!(matches!(level, RiskLevel::Low | RiskLevel::Medium));
}

fn spf(qualifier: SpfQualifier) -> Option<SpfRecord> {
    Some(SpfRecord { raw: String::new(), qualifier, mechanisms: vec![] })
}

fn dmarc(policy: DmarcPolicy, pct: u8, rua: Option<&str>, mode: AlignmentMode) -> Option<DmarcRecord> {
    Some(DmarcRecord {
        raw: String::new(),
        policy,
        subdomain_policy: None,
        rua: rua.map(|s| s.to_string()),
        ruf: None,
        pct,
        adkim: mode,
        aspf: mode,
    })
}

fn key(bits: usize) -> DkimKey {
    DkimKey {
        selector: "s1".into(),
        raw: String::new(),
        key_type: "rsa".into(),
        public_key: "A".into(),
        key_bits_approx: bits,
        valid_syntax: true,
    }
}

#[test]
fn score_of_each_condition() {
    let strict = || dmarc(DmarcPolicy::Reject, 100, Some("r"), AlignmentMode::Strict);
    let points = |s: Option<SpfRecord>, d: Option<DmarcRecord>, k: Vec<DkimKey>| {
        let (points, _, fixes) = score(&make_posture(s, d, k));
        (points, fixes.len())
    };
    assert_eq!(points(spf(SpfQualifier::Fail), strict(), vec![key(2048)]), (0, 0));
    assert_eq!(points(spf(SpfQualifier::Missing), strict(), vec![key(2048)]), (0, 0));
    assert_eq!(points(spf(SpfQualifier::SoftFail), strict(), vec![key(2048)]), (15, 1));
    assert_eq!(points(spf(SpfQualifier::Neutral), strict(), vec![key(2048)]), (25, 1));
    assert_eq!(points(spf(SpfQualifier::Pass), strict(), vec![key(2048)]), (35, 1));
    assert_eq!(points(None, strict(), vec![key(2048)]), (30, 1));
    assert_eq!(points(spf(SpfQualifier::Fail), None, vec![key(2048)]), (45, 1));
    assert_eq!(points(spf(SpfQualifier::Fail), strict(), vec![]), (15, 1));
    assert_eq!(points(spf(SpfQualifier::Fail), strict(), vec![key(1023), key(8)]), (5, 1));
    assert_eq!(points(spf(SpfQualifier::Fail), strict(), vec![key(1023), key(1024)]), (0, 0));
    let none = dmarc(DmarcPolicy::NoAction, 100, Some("r"), AlignmentMode::Strict);
    assert_eq!(points(spf(SpfQualifier::Fail), none, vec![key(2048)]), (35, 1));
    let part = dmarc(DmarcPolicy::Quarantine, 99, Some("r"), AlignmentMode::Strict);
    assert_eq!(points(spf(SpfQualifier::Fail), part, vec![key(2048)]), (10, 1));
    let full = dmarc(DmarcPolicy::Quarantine, 100, Some("r"), AlignmentMode::Strict);
    assert_eq!(points(spf(SpfQualifier::Fail), full, vec![key(2048)]), (0, 0));
    let blind = dmarc(DmarcPolicy::Reject, 100, None, AlignmentMode::Strict);
    assert_eq!(points(spf(SpfQualifier::Fail), blind, vec![key(2048)]), (10, 1));
    let missing = dmarc(DmarcPolicy::Missing, 100, Some("r"), AlignmentMode::Strict);
    assert_eq!(points(spf(SpfQualifier::Fail), missing, vec![key(2048)]), (0, 0));
}

#[test]
fn relaxed_alignment_counts_with_weak_spf_only() {
    for mode in [AlignmentMode::Relaxed, AlignmentMode::Unset] {
        let d = || dmarc(DmarcPolicy::Reject, 100, Some("r"), mode);
        assert_eq!(score(&make_posture(spf(SpfQualifier::SoftFail), d(), vec![key(2048)])).0, 23);
        assert_eq!(score(&make_posture(None, d(), vec![key(2048)])).0, 38);
        assert_eq!(score(&make_posture(spf(SpfQualifier::Fail), d(), vec![key(2048)])).0, 0);
        assert_eq!(score(&make_posture(spf(SpfQualifier::Missing), d(), vec![key(2048)])).0, 0);
    }
}

#[test]
fn score_is_capped() {
    let d = dmarc(DmarcPolicy::NoAction, 100, None, AlignmentMode::Unset);
    let (points, level, fixes) = score(&make_posture(spf(SpfQualifier::Pass), d, vec![]));
    assert_eq!(points, 100);
    assert_eq!(level, RiskLevel::Critical);
    assert_eq!(fixes.len(), 5);
}

#[test]
fn levels_follow_the_score() {
    let strict = || dmarc(DmarcPolicy::Reject, 100, Some("r"), AlignmentMode::Strict);
    assert_eq!(score(&make_posture(spf(SpfQualifier::Neutral), strict(), vec![key(8)])).1, RiskLevel::Medium);
    assert_eq!(score(&make_posture(spf(SpfQualifier::Neutral), strict(), vec![key(2048)])).1, RiskLevel::Low);
    assert_eq!(score(&make_posture(spf(SpfQualifier::SoftFail), None, vec![key(2048)])).1, RiskLevel::High);
    assert_eq!(score(&make_posture(spf(SpfQualifier::Pass), None, vec![key(2048)])).1, RiskLevel::Critical);
}

#[test]
fn remediations_in_full() {
    let (_, _, fixes) = score(&make_posture(None, None, vec![]));
    assert_eq!(fixes.len(), 3);
    assert_eq!(fixes[0].severity, RiskLevel::Critical);
    assert_eq!(fixes[0].description, "No DMARC record found. The domain has zero spoofing protection at the policy level.");
    assert_eq!(fixes[0].dns_fix, "v=DMARC1; p=quarantine; rua=mailto:dmarc-reports@test.com; pct=100; adkim=s; aspf=s");
    assert_eq!(fixes[0].bind_command, "_dmarc.test.com. IN TXT \"v=DMARC1; p=quarantine; rua=mailto:dmarc-reports@test.com; pct=100; adkim=s; aspf=s\"");
    assert_eq!(fixes[0].ps_command, "Add-DnsServerResourceRecord -ZoneName \"test.com\" -Name \"_dmarc\" -Txt -DescriptiveText \"v=DMARC1; p=quarantine; rua=mailto:dmarc-reports@test.com; pct=100; adkim=s; aspf=s\"");
    assert_eq!(fixes[1].bind_command, "test.com. IN TXT \"v=spf1 -all\"");
    assert_eq!(fixes[1].ps_command, "Add-DnsServerResourceRecord -ZoneName \"test.com\" -Name \"@\" -Txt -DescriptiveText \"v=spf1 -all\"");
    assert_eq!(fixes[2].bind_command, "default._domainkey.test.com. IN TXT \"v=DKIM1; k=rsa; p=<base64-public-key>\"");

    let part = dmarc(DmarcPolicy::Quarantine, 42, None, AlignmentMode::Strict);
    let (_, _, fixes) = score(&make_posture(spf(SpfQualifier::Fail), part, vec![key(8)]));
    assert_eq!(fixes[0].description, "DMARC pct=42 means only 42% of failing mail is quarantined. Increase to 100.");
    assert_eq!(fixes[1].dns_fix, "Add rua=mailto:dmarc-agg@test.com; ruf=mailto:dmarc-forensic@test.com");
    assert_eq!(fixes[2].severity, RiskLevel::Medium);
}

#[test]
fn stricter_spf_never_costs() {
    let order = [SpfQualifier::Fail, SpfQualifier::SoftFail, SpfQualifier::Neutral, SpfQualifier::Pass];
    let points: Vec<u8> = order
        .iter()
        .map(|q| score(&make_posture(spf(*q), dmarc(DmarcPolicy::NoAction, 100, None, AlignmentMode::Unset), vec![])).0)
        .collect();
    assert_eq!(points, vec![60, 83, 93, 100]);
}

#[test]
fn another_key_never_costs() {
    let points = |keys: Vec<DkimKey>| score(&make_posture(spf(SpfQualifier::Neutral), None, keys)).0;
    assert_eq!(points(vec![]), 85);
    assert_eq!(points(vec![key(8)]), 75);
    assert_eq!(points(vec![key(8), key(512)]), 75);
    assert_eq!(points(vec![key(2048), key(8)]), 70);
    assert_eq!(points(vec![key(2048), key(8), key(8)]), 70);
}

#[test]
fn score_reads_qualifiers_policies_and_sizes_alone() {
    let a = make_posture(
        spf(SpfQualifier::SoftFail),
        dmarc(DmarcPolicy::Quarantine, 50, Some("r"), AlignmentMode::Relaxed),
        vec![key(512)],
    );
    let mut b = a.clone();
    let record = b.spf.as_mut().unwrap();
    record.raw = "v=spf1 mx ~all".into();
    record.mechanisms = vec!["mx".into()];
    let record = b.dmarc.as_mut().unwrap();
    record.raw = "other".into();
    record.rua = Some("elsewhere".into());
    record.subdomain_policy = Some(DmarcPolicy::Reject);
    b.dkim_keys[0].selector = "k1".into();
    b.dkim_keys[0].key_type = "ed25519".into();
    let (x, y) = (score(&a), score(&b));
    assert_eq!(x.0, 38);
    assert_eq!(x.0, y.0);
    assert_eq!(x.1, y.1);
    let texts = |fixes: &Vec<Remediation>| -> Vec<String> {
        fixes.iter().map(|f| f.description.clone()).collect()
    };
    assert_eq!(texts(&x.2), texts(&y.2));
}

#[test]
fn score_ignores_everything_but_the_records() {
    let plain = make_posture(spf(SpfQualifier::Neutral), None, vec![]);
    let mut other = plain.clone();
    other.timestamp = "now".into();
    other.risk_score = 77;
    other.risk_level = RiskLevel::High;
    assert_eq!(score(&plain).0, score(&other).0);
    assert_eq!(score(&plain).1, score(&other).1);
}
