//! What the suggested records do once they are published.

use crate::analyzer::{
    dmarc_findings, dmarc_none, no_dmarc, no_spf, policy_findings, report_findings, spf_findings,
    spf_pass,
};
use crate::models::{AlignmentMode, DmarcPolicy, SpfQualifier, SpfRecordView};
use crate::parser::{dmarc_record, spf_record, tag_of, tag_value};
use crate::tags::{
    law_tags_read_in_order, lemma_last_segment, lemma_tag, lemma_trimmed_end_cut, one_segment,
};
use crate::text::{digits_value, trimmed_end, unsigned_value, without_plus};
use vstd::prelude::*;

verus! {

broadcast use vstd::string::group_string_axioms;

// ─── The suggested records ─────────────────────────────────────────

proof fn lemma_v_and_p()
    ensures
        tag_of("v=DMARC1"@) == Some(("v"@, "DMARC1"@)),
        tag_of(" p=quarantine"@) == Some(("p"@, "quarantine"@)),
        one_segment("v=DMARC1"@),
        one_segment(" p=quarantine"@),
{
    reveal_strlit("v=DMARC1");
    reveal_strlit("v");
    reveal_strlit("DMARC1");
    reveal_strlit(" p=quarantine");
    reveal_strlit("p");
    reveal_strlit("quarantine");
    let none = Seq::<char>::empty();
    assert("v=DMARC1"@ =~= none + "v"@ + seq!['='] + "DMARC1"@);
    lemma_tag("v=DMARC1"@, none, "v"@, "DMARC1"@);
    assert(" p=quarantine"@ =~= seq![' '] + "p"@ + seq!['='] + "quarantine"@);
    lemma_tag(" p=quarantine"@, seq![' '], "p"@, "quarantine"@);
}

proof fn lemma_rua(domain: Seq<char>)
    requires
        one_segment(domain),
    ensures
        tag_of(" rua=mailto:dmarc-reports@"@ + domain) == Some(
            ("rua"@, "mailto:dmarc-reports@"@ + trimmed_end(domain)),
        ),
        one_segment(" rua=mailto:dmarc-reports@"@ + domain),
{
    reveal_strlit(" rua=mailto:dmarc-reports@");
    reveal_strlit("mailto:dmarc-reports@");
    reveal_strlit("rua");
    let segment = " rua=mailto:dmarc-reports@"@ + domain;
    let value = "mailto:dmarc-reports@"@ + domain;
    assert(" rua=mailto:dmarc-reports@"@ =~= seq![' '] + "rua"@ + seq!['=']
        + "mailto:dmarc-reports@"@);
    assert(segment =~= seq![' '] + "rua"@ + seq!['='] + value);
    assert(value[0] == 'm');
    lemma_tag(segment, seq![' '], "rua"@, value);
    lemma_trimmed_end_cut("mailto:dmarc-reports@"@, domain);
}

proof fn lemma_strict_tail()
    ensures
        tag_of(" pct=100"@) == Some(("pct"@, "100"@)),
        tag_of(" adkim=s"@) == Some(("adkim"@, "s"@)),
        tag_of(" aspf=s"@) == Some(("aspf"@, "s"@)),
        one_segment(" pct=100"@),
        one_segment(" adkim=s"@),
        one_segment(" aspf=s"@),
        unsigned_value("100"@, 255) == Some(100nat),
{
    reveal_strlit(" pct=100");
    reveal_strlit("pct");
    reveal_strlit("100");
    reveal_strlit(" adkim=s");
    reveal_strlit("adkim");
    reveal_strlit("s");
    reveal_strlit(" aspf=s");
    reveal_strlit("aspf");
    assert(" pct=100"@ =~= seq![' '] + "pct"@ + seq!['='] + "100"@);
    lemma_tag(" pct=100"@, seq![' '], "pct"@, "100"@);
    assert(" adkim=s"@ =~= seq![' '] + "adkim"@ + seq!['='] + "s"@);
    lemma_tag(" adkim=s"@, seq![' '], "adkim"@, "s"@);
    assert(" aspf=s"@ =~= seq![' '] + "aspf"@ + seq!['='] + "s"@);
    lemma_tag(" aspf=s"@, seq![' '], "aspf"@, "s"@);
    assert(without_plus("100"@) == "100"@);
    reveal_with_fuel(digits_value, 4);
    assert("100"@.drop_last() =~= seq!['1', '0']);
    assert(seq!['1', '0'].drop_last() =~= seq!['1']);
    assert(seq!['1'].drop_last() =~= Seq::empty());
    assert(digits_value("100"@) == 100);
}

/// What the suggested `rua` tag says.
pub open spec fn suggested_rua(domain: Seq<char>) -> Seq<char> {
    "mailto:dmarc-reports@"@ + trimmed_end(domain)
}

/// The record suggested to a domain without DMARC asks for quarantine of all failing mail, for
/// reports and for strict alignment, and leaves nothing to mend in DMARC.
pub proof fn law_dmarc_fix_mends(domain: Seq<char>, spf: Option<SpfRecordView>)
    requires
        one_segment(domain),
    ensures
        ({
            let record = dmarc_record(no_dmarc(domain).remediation.dns_fix);
            &&& record.policy == DmarcPolicy::Quarantine
            &&& record.pct == 100
            &&& record.rua == Some(suggested_rua(domain))
            &&& record.adkim == AlignmentMode::Strict
            &&& record.aspf == AlignmentMode::Strict
            &&& dmarc_findings(domain, Some(record), spf).len() == 0
        }),
{
    let semicolon = seq![';'];
    let rua = " rua=mailto:dmarc-reports@"@ + domain;
    let after_adkim = " aspf=s"@;
    let after_pct = " adkim=s"@ + semicolon + after_adkim;
    let after_rua = " pct=100"@ + semicolon + after_pct;
    let after_p = rua + semicolon + after_rua;
    let after_v = " p=quarantine"@ + semicolon + after_p;
    let raw = "v=DMARC1"@ + semicolon + after_v;
    let fix = no_dmarc(domain).remediation.dns_fix;
    assert(fix =~= raw) by {
        reveal_strlit("v=DMARC1; p=quarantine; rua=mailto:dmarc-reports@");
        reveal_strlit("; pct=100; adkim=s; aspf=s");
        reveal_strlit("v=DMARC1");
        reveal_strlit(" p=quarantine");
        reveal_strlit(" rua=mailto:dmarc-reports@");
        reveal_strlit(" pct=100");
        reveal_strlit(" adkim=s");
        reveal_strlit(" aspf=s");
        assert("v=DMARC1; p=quarantine; rua=mailto:dmarc-reports@"@ =~= "v=DMARC1"@ + semicolon
            + " p=quarantine"@ + semicolon + " rua=mailto:dmarc-reports@"@);
        assert("; pct=100; adkim=s; aspf=s"@ =~= semicolon + " pct=100"@ + semicolon
            + " adkim=s"@ + semicolon + " aspf=s"@);
    }
    lemma_v_and_p();
    lemma_rua(domain);
    lemma_strict_tail();
    lemma_keys_differ();
    assert forall|key: Seq<char>| #[trigger] tag_value(raw, key) == (if key == "v"@ {
        Some("DMARC1"@)
    } else if key == "p"@ {
        Some("quarantine"@)
    } else if key == "rua"@ {
        Some(suggested_rua(domain))
    } else if key == "pct"@ {
        Some("100"@)
    } else if key == "adkim"@ {
        Some("s"@)
    } else if key == "aspf"@ {
        Some("s"@)
    } else {
        None
    }) by {
        law_tags_read_in_order("v=DMARC1"@, after_v, key);
        law_tags_read_in_order(" p=quarantine"@, after_p, key);
        law_tags_read_in_order(rua, after_rua, key);
        law_tags_read_in_order(" pct=100"@, after_pct, key);
        law_tags_read_in_order(" adkim=s"@, after_adkim, key);
        lemma_last_segment(" aspf=s"@, key);
    }
    let record = dmarc_record(fix);
    assert(record.policy == DmarcPolicy::Quarantine);
    assert(dmarc_findings(domain, Some(record), spf) =~= Seq::empty());
}

/// The record suggested in place of a policy of `none` asks for quarantine of all failing mail
/// and for reports, and leaves neither the policy nor the reports to mend.
pub proof fn law_policy_fix_mends(domain: Seq<char>)
    requires
        one_segment(domain),
    ensures
        ({
            let record = dmarc_record(dmarc_none(domain).remediation.dns_fix);
            &&& record.policy == DmarcPolicy::Quarantine
            &&& record.pct == 100
            &&& record.rua == Some(suggested_rua(domain))
            &&& policy_findings(domain, record).len() == 0
            &&& report_findings(domain, record).len() == 0
        }),
{
    let semicolon = seq![';'];
    let rua = " rua=mailto:dmarc-reports@"@ + domain;
    let after_v = " p=quarantine"@ + semicolon + rua;
    let raw = "v=DMARC1"@ + semicolon + after_v;
    let fix = dmarc_none(domain).remediation.dns_fix;
    assert(fix =~= raw) by {
        reveal_strlit("v=DMARC1; p=quarantine; rua=mailto:dmarc-reports@");
        reveal_strlit("v=DMARC1");
        reveal_strlit(" p=quarantine");
        reveal_strlit(" rua=mailto:dmarc-reports@");
        assert("v=DMARC1; p=quarantine; rua=mailto:dmarc-reports@"@ =~= "v=DMARC1"@ + semicolon
            + " p=quarantine"@ + semicolon + " rua=mailto:dmarc-reports@"@);
    }
    lemma_v_and_p();
    lemma_rua(domain);
    lemma_keys_differ();
    assert forall|key: Seq<char>| #[trigger] tag_value(raw, key) == (if key == "v"@ {
        Some("DMARC1"@)
    } else if key == "p"@ {
        Some("quarantine"@)
    } else if key == "rua"@ {
        Some(suggested_rua(domain))
    } else {
        None
    }) by {
        law_tags_read_in_order("v=DMARC1"@, after_v, key);
        law_tags_read_in_order(" p=quarantine"@, rua, key);
        lemma_last_segment(rua, key);
    }
}

/// The record suggested to a domain without SPF fails every sender, and leaves nothing to mend
/// in SPF.
pub proof fn law_spf_fix_mends(domain: Seq<char>)
    ensures
        ({
            let record = spf_record(no_spf(domain).remediation.dns_fix);
            &&& record.qualifier == SpfQualifier::Fail
            &&& spf_findings(domain, Some(record)).len() == 0
        }),
{
    reveal_strlit("v=spf1 -all");
    reveal_strlit("-all");
    let raw = "v=spf1 -all"@;
    assert(raw.subrange(raw.len() - 4, raw.len() as int) =~= "-all"@);
    assert("-all"@.is_suffix_of(raw));
}

proof fn lemma_keys_differ()
    ensures
        "p"@ != "v"@,
        "rua"@ != "v"@,
        "rua"@ != "p"@,
        "ruf"@ != "v"@,
        "ruf"@ != "p"@,
        "ruf"@ != "rua"@,
        "pct"@ != "v"@,
        "pct"@ != "p"@,
        "pct"@ != "rua"@,
        "adkim"@ != "v"@,
        "adkim"@ != "p"@,
        "adkim"@ != "rua"@,
        "adkim"@ != "pct"@,
        "aspf"@ != "v"@,
        "aspf"@ != "p"@,
        "aspf"@ != "rua"@,
        "aspf"@ != "pct"@,
        "aspf"@ != "adkim"@,
        "quarantine"@ != "reject"@,
{
    reveal_strlit("v");
    reveal_strlit("p");
    reveal_strlit("rua");
    reveal_strlit("ruf");
    reveal_strlit("pct");
    reveal_strlit("adkim");
    reveal_strlit("aspf");
    reveal_strlit("quarantine");
    reveal_strlit("reject");
    assert("v"@[0] != "p"@[0]);
    assert("ruf"@[2] != "rua"@[2]);
    assert("pct"@[0] != "rua"@[0]);
    assert("pct"@.len() != "p"@.len());
    assert("aspf"@.len() != "adkim"@.len());
    assert("quarantine"@.len() != "reject"@.len());
}

// ─── The suggested commands ────────────────────────────────────────

/// The BIND and PowerShell commands that go with a suggested record publish that record, in
/// quotes, for the domain.
pub proof fn law_commands_publish_the_fix(domain: Seq<char>)
    ensures
        ({
            let fix = no_dmarc(domain).remediation;
            &&& fix.bind_command == "_dmarc."@ + domain + ". IN TXT \""@ + fix.dns_fix + "\""@
            &&& fix.ps_command == "Add-DnsServerResourceRecord -ZoneName \""@ + domain
                + "\" -Name \"_dmarc\" -Txt -DescriptiveText \""@ + fix.dns_fix + "\""@
        }),
        ({
            let fix = dmarc_none(domain).remediation;
            &&& fix.bind_command == "_dmarc."@ + domain + ". IN TXT \""@ + fix.dns_fix + "\""@
            &&& fix.ps_command == "Set-DnsServerResourceRecord -ZoneName \""@ + domain
                + "\" -Name \"_dmarc\" -Txt -DescriptiveText \""@ + fix.dns_fix + "\""@
        }),
        ({
            let fix = no_spf(domain).remediation;
            &&& fix.bind_command == domain + ". IN TXT \""@ + fix.dns_fix + "\""@
            &&& fix.ps_command == "Add-DnsServerResourceRecord -ZoneName \""@ + domain
                + "\" -Name \"@\" -Txt -DescriptiveText \""@ + fix.dns_fix + "\""@
        }),
        ({
            let fix = spf_pass(domain).remediation;
            &&& fix.bind_command == domain + ". IN TXT \""@ + fix.dns_fix + "\""@
            &&& fix.ps_command == "Set-DnsServerResourceRecord -ZoneName \""@ + domain
                + "\" -Name \"@\" -Txt -DescriptiveText \""@ + fix.dns_fix + "\""@
        }),
{
    let head = "v=DMARC1; p=quarantine; rua=mailto:dmarc-reports@"@;
    let tail = "; pct=100; adkim=s; aspf=s"@;
    let quote = "\""@;
    let bind = ". IN TXT \""@;
    let ps = "\" -Name \"_dmarc\" -Txt -DescriptiveText \""@;
    let root = "\" -Name \"@\" -Txt -DescriptiveText \""@;
    assert(". IN TXT \"v=DMARC1; p=quarantine; rua=mailto:dmarc-reports@"@ =~= bind + head && "; pct=100; adkim=s; aspf=s\""@
        =~= tail + quote
        && "\" -Name \"_dmarc\" -Txt -DescriptiveText \"v=DMARC1; p=quarantine; rua=mailto:dmarc-reports@"@
        =~= ps + head) by {
        reveal_strlit("v=DMARC1; p=quarantine; rua=mailto:dmarc-reports@");
        reveal_strlit("; pct=100; adkim=s; aspf=s");
        reveal_strlit("\"");
        reveal_strlit(". IN TXT \"");
        reveal_strlit("\" -Name \"_dmarc\" -Txt -DescriptiveText \"");
        reveal_strlit(". IN TXT \"v=DMARC1; p=quarantine; rua=mailto:dmarc-reports@");
        reveal_strlit("; pct=100; adkim=s; aspf=s\"");
        reveal_strlit("\" -Name \"_dmarc\" -Txt -DescriptiveText \"v=DMARC1; p=quarantine; rua=mailto:dmarc-reports@");
    }
    assert(". IN TXT \"v=spf1 -all\""@ =~= bind + "v=spf1 -all"@ + quote
        && "\" -Name \"@\" -Txt -DescriptiveText \"v=spf1 -all\""@ =~= root + "v=spf1 -all"@ + quote) by {
        reveal_strlit("v=spf1 -all");
        reveal_strlit("\"");
        reveal_strlit(". IN TXT \"");
        reveal_strlit("\" -Name \"@\" -Txt -DescriptiveText \"");
        reveal_strlit(". IN TXT \"v=spf1 -all\"");
        reveal_strlit("\" -Name \"@\" -Txt -DescriptiveText \"v=spf1 -all\"");
    }
    assert(". IN TXT \"v=spf1 <your-mechanisms> -all\""@ =~= bind + "v=spf1 <your-mechanisms> -all"@
        + quote && "\" -Name \"@\" -Txt -DescriptiveText \"v=spf1 <your-mechanisms> -all\""@ =~= root
        + "v=spf1 <your-mechanisms> -all"@ + quote) by {
        reveal_strlit("v=spf1 <your-mechanisms> -all");
        reveal_strlit("\"");
        reveal_strlit(". IN TXT \"");
        reveal_strlit("\" -Name \"@\" -Txt -DescriptiveText \"");
        reveal_strlit(". IN TXT \"v=spf1 <your-mechanisms> -all\"");
        reveal_strlit("\" -Name \"@\" -Txt -DescriptiveText \"v=spf1 <your-mechanisms> -all\"");
    }
    let add = "Add-DnsServerResourceRecord -ZoneName \""@;
    let change = "Set-DnsServerResourceRecord -ZoneName \""@;
    assert("_dmarc."@ + domain + (bind + head) + domain + (tail + quote) =~= "_dmarc."@ + domain
        + bind + (head + domain + tail) + quote);
    assert(add + domain + (ps + head) + domain + (tail + quote) =~= add + domain + ps + (head
        + domain + tail) + quote);
    assert("_dmarc."@ + domain + (bind + head) + domain + quote =~= "_dmarc."@ + domain + bind
        + (head + domain) + quote);
    assert(change + domain + (ps + head) + domain + quote =~= change + domain + ps + (head + domain)
        + quote);
    assert(domain + (bind + "v=spf1 -all"@ + quote) =~= domain + bind + "v=spf1 -all"@ + quote);
    assert(add + domain + (root + "v=spf1 -all"@ + quote) =~= add + domain + root
        + "v=spf1 -all"@ + quote);
    assert(domain + (bind + "v=spf1 <your-mechanisms> -all"@ + quote) =~= domain + bind
        + "v=spf1 <your-mechanisms> -all"@ + quote);
    assert(change + domain + (root + "v=spf1 <your-mechanisms> -all"@ + quote) =~= change + domain
        + root + "v=spf1 <your-mechanisms> -all"@ + quote);
}

} // verus!
