use email_sec::models::{AlignmentMode, DmarcPolicy, SpfQualifier};
use email_sec::parser::{parse_dkim_record, parse_dmarc, parse_spf};

// ── SPF ────

#[test]
fn spf_hard_fail() {
    let r = parse_spf("v=spf1 include:_spf.google.com ip4:203.0.113.0/24 -all");
    assert_eq!(r.qualifier, SpfQualifier::Fail);
    assert!(r.mechanisms.contains(&"include:_spf.google.com".to_string()));
    assert!(r.mechanisms.contains(&"ip4:203.0.113.0/24".to_string()));
}

#[test]
fn spf_soft_fail() {
    let r = parse_spf("v=spf1 include:sendgrid.net ~all");
    assert_eq!(r.qualifier, SpfQualifier::SoftFail);
}

#[test]
fn spf_neutral() {
    let r = parse_spf("v=spf1 ?all");
    assert_eq!(r.qualifier, SpfQualifier::Neutral);
    assert!(r.mechanisms.is_empty());
}

#[test]
fn spf_pass_all() {
    let r = parse_spf("v=spf1 +all");
    assert_eq!(r.qualifier, SpfQualifier::Pass);
}

#[test]
fn spf_bare_all_passes() {
    assert_eq!(parse_spf("v=spf1 all").qualifier, SpfQualifier::Pass);
    assert_eq!(parse_spf("v=spf1 all mx").qualifier, SpfQualifier::Missing);
}

#[test]
fn spf_without_all_is_missing() {
    let r = parse_spf("v=spf1\tmx  redirect=_spf.example.com");
    assert_eq!(r.qualifier, SpfQualifier::Missing);
    assert_eq!(r.mechanisms, vec!["mx".to_string(), "redirect=_spf.example.com".to_string()]);
    assert_eq!(r.raw, "v=spf1\tmx  redirect=_spf.example.com");
}

#[test]
fn spf_terminator_decides() {
    assert_eq!(parse_spf("v=spf1 -all ~all").qualifier, SpfQualifier::SoftFail);
    assert_eq!(parse_spf("v=spf1 -all ?all").qualifier, SpfQualifier::Neutral);
    assert_eq!(parse_spf("v=spf1 ?all ~all +all").qualifier, SpfQualifier::Pass);
    assert_eq!(parse_spf("v=spf1 -all all").qualifier, SpfQualifier::Pass);
    assert_eq!(parse_spf("v=spf1 +all -all").qualifier, SpfQualifier::Fail);
    assert_eq!(parse_spf("-all").qualifier, SpfQualifier::Fail);
}

#[test]
fn spf_terms_inside_count_where_the_end_is_none() {
    assert_eq!(parse_spf("v=spf1 +all -all ~all mx").qualifier, SpfQualifier::Fail);
    assert_eq!(parse_spf("v=spf1 ?all ~all mx").qualifier, SpfQualifier::SoftFail);
    assert_eq!(parse_spf("v=spf1 ?all exp=x").qualifier, SpfQualifier::Neutral);
    assert_eq!(parse_spf("v=spf1 +all exp=x").qualifier, SpfQualifier::Pass);
    assert_eq!(parse_spf("v=spf1 mx\t-all x").qualifier, SpfQualifier::Missing);
}

#[test]
fn spf_words_that_end_in_all_are_no_mechanisms() {
    let r = parse_spf("v=spf1 include:install a:wall.example mx -all");
    assert_eq!(r.mechanisms, vec!["a:wall.example".to_string(), "mx".to_string()]);
}

#[test]
fn spf_of_nothing() {
    let r = parse_spf("");
    assert_eq!(r.qualifier, SpfQualifier::Missing);
    assert!(r.mechanisms.is_empty());
}

// ── DMARC ──

#[test]
fn dmarc_full_parse() {
    let r = parse_dmarc(
        "v=DMARC1; p=reject; rua=mailto:d@example.com; ruf=mailto:f@example.com; pct=100; adkim=s; aspf=s",
    );
    assert_eq!(r.policy, DmarcPolicy::Reject);
    assert_eq!(r.rua, Some("mailto:d@example.com".to_string()));
    assert_eq!(r.ruf, Some("mailto:f@example.com".to_string()));
    assert_eq!(r.pct, 100);
    assert_eq!(r.adkim, AlignmentMode::Strict);
    assert_eq!(r.aspf, AlignmentMode::Strict);
}

#[test]
fn dmarc_minimal() {
    let r = parse_dmarc("v=DMARC1; p=none");
    assert_eq!(r.policy, DmarcPolicy::NoAction);
    assert!(r.rua.is_none());
    assert!(r.ruf.is_none());
    assert_eq!(r.pct, 100); // default
    assert_eq!(r.adkim, AlignmentMode::Unset);
}

#[test]
fn dmarc_quarantine_with_pct() {
    let r = parse_dmarc("v=DMARC1; p=quarantine; pct=50");
    assert_eq!(r.policy, DmarcPolicy::Quarantine);
    assert_eq!(r.pct, 50);
}

#[test]
fn dmarc_subdomain_policy() {
    assert_eq!(parse_dmarc("p=none").subdomain_policy, None);
    assert_eq!(parse_dmarc("sp=reject").subdomain_policy, Some(DmarcPolicy::Reject));
    assert_eq!(parse_dmarc("sp=quarantine").subdomain_policy, Some(DmarcPolicy::Quarantine));
    assert_eq!(parse_dmarc("sp=none").subdomain_policy, Some(DmarcPolicy::NoAction));
    assert_eq!(parse_dmarc("sp=other").subdomain_policy, Some(DmarcPolicy::NoAction));
}

#[test]
fn dmarc_unknown_policy_is_missing() {
    assert_eq!(parse_dmarc("v=DMARC1; p=Reject").policy, DmarcPolicy::Missing);
    assert_eq!(parse_dmarc("v=DMARC1").policy, DmarcPolicy::Missing);
}

#[test]
fn dmarc_first_tag_wins() {
    let r = parse_dmarc("p=reject; p=none; rua=a; rua=b");
    assert_eq!(r.policy, DmarcPolicy::Reject);
    assert_eq!(r.rua, Some("a".to_string()));
}

#[test]
fn dmarc_space_and_equals_signs() {
    let r = parse_dmarc(" p \t= quarantine ;; junk ; rua = mailto:x?a=b ; adkim = r; aspf=x");
    assert_eq!(r.policy, DmarcPolicy::Quarantine);
    assert_eq!(r.rua, Some("mailto:x?a=b".to_string()));
    assert_eq!(r.adkim, AlignmentMode::Relaxed);
    assert_eq!(r.aspf, AlignmentMode::Unset);
}

#[test]
fn dmarc_order_and_space_do_not_matter() {
    let a = parse_dmarc("v=DMARC1;p=reject;rua=mailto:x?a=b;pct=7;adkim=s;sp=none");
    let b = parse_dmarc(" sp\t= none ; adkim =s; pct= 7;rua =mailto:x?a=b ;  p = reject;v=DMARC1 ");
    assert_eq!(a.policy, DmarcPolicy::Reject);
    assert_eq!(a.policy, b.policy);
    assert_eq!(a.subdomain_policy, b.subdomain_policy);
    assert_eq!(a.rua, b.rua);
    assert_eq!(a.ruf, b.ruf);
    assert_eq!(a.pct, b.pct);
    assert_eq!(a.adkim, b.adkim);
    assert_eq!(a.aspf, b.aspf);
    assert_ne!(a.raw, b.raw);
}

#[test]
fn dmarc_pct_that_is_no_byte_is_100() {
    for (text, pct) in [("0", 0), ("255", 255), ("+7", 7), ("007", 7), ("256", 100), ("-1", 100), ("", 100), ("+", 100), ("5%", 100)] {
        assert_eq!(parse_dmarc(&format!("pct={}", text)).pct, pct, "{}", text);
    }
}

// ── DKIM ──

#[test]
fn dkim_valid_rsa() {
    let raw = "v=DKIM1; k=rsa; p=MIIBIjANBgkqhkiG9w0BAQEFAAOCAQ8AMIIBCgKCAQ";
    let k = parse_dkim_record("google", raw);
    assert!(k.valid_syntax);
    assert_eq!(k.key_type, "rsa");
    assert!(k.key_bits_approx > 0);
}

#[test]
fn dkim_empty_key_revoked() {
    let raw = "v=DKIM1; k=rsa; p=";
    let k = parse_dkim_record("old", raw);
    assert!(!k.valid_syntax);
}

#[test]
fn dkim_no_version() {
    let raw = "k=rsa; p=MIIBIjANBgkq";
    let k = parse_dkim_record("test", raw);
    assert!(!k.valid_syntax);
}

#[test]
fn dkim_order_and_space_do_not_matter() {
    let a = parse_dkim_record("s", "v=DKIM1;k=ed25519;p=abcd");
    let b = parse_dkim_record("s", " p = abcd ; v=DKIM1; k =ed25519");
    assert_eq!(a.public_key, b.public_key);
    assert_eq!(a.key_type, b.key_type);
    assert_eq!(a.key_bits_approx, b.key_bits_approx);
}

#[test]
fn dkim_bits_are_counted_from_bytes() {
    let k = parse_dkim_record("s", "v=dkim1; p=abcde");
    assert_eq!(k.key_bits_approx, 24);
    assert_eq!(k.public_key, "abcde");
    assert_eq!(k.key_type, "rsa");
    assert_eq!(k.selector, "s");
    assert!(k.valid_syntax);
    let wide = parse_dkim_record("s", "v=DKIM1; k=ed25519; p=éé");
    assert_eq!(wide.key_bits_approx, 24);
    assert_eq!(wide.key_type, "ed25519");
    assert_eq!(parse_dkim_record("s", "v=DKIM1").key_bits_approx, 0);
}
