//! The risk score of a domain and what mends it.
//!
//! | Condition                                              | Points |
//! |--------------------------------------------------------|--------|
//! | DMARC missing                                          | +45    |
//! | DMARC p=none                                           | +35    |
//! | DMARC p=quarantine with pct < 100                      | +10    |
//! | DMARC missing rua AND ruf (blind to abuse)             | +10    |
//! | DMARC relaxed alignment (adkim=r or aspf=r) + weak SPF | +8     |
//! | SPF +all                                               | +35    |
//! | SPF ?all                                               | +25    |
//! | SPF ~all                                               | +15    |
//! | SPF missing                                            | +30    |
//! | No DKIM keys found at all                              | +15    |
//! | DKIM keys found but all <1024 bits                     | +5     |
//!
//! The points add up and are capped at 100.

use crate::models::{
    AlignmentMode, DkimKey, DkimKeyView, DmarcPolicy, DmarcRecordView, DomainPosture, PostureView,
    Remediation, RemediationView, RiskLevel, SpfQualifier, SpfRecord, SpfRecordView,
};
use crate::text::{cat2, cat3, cat4, cat5, decimal, to_decimal};
use vstd::prelude::*;

verus! {

broadcast use vstd::string::group_string_axioms;

/// Something wrong with a domain: the points it adds to the score, and what mends it.
pub struct Finding {
    pub points: nat,
    pub remediation: RemediationView,
}

// ─── The findings ──────────────────────────────────────────────────

/// There is no DMARC record.
pub open spec fn no_dmarc(domain: Seq<char>) -> Finding {
    Finding {
        points: 45,
        remediation: RemediationView {
            severity: RiskLevel::Critical,
            description: "No DMARC record found. The domain has zero spoofing protection at the policy level."@,
            dns_fix: "v=DMARC1; p=quarantine; rua=mailto:dmarc-reports@"@ + domain + "; pct=100; adkim=s; aspf=s"@,
            bind_command: "_dmarc."@ + domain + ". IN TXT \"v=DMARC1; p=quarantine; rua=mailto:dmarc-reports@"@ + domain + "; pct=100; adkim=s; aspf=s\""@,
            ps_command: "Add-DnsServerResourceRecord -ZoneName \""@ + domain + "\" -Name \"_dmarc\" -Txt -DescriptiveText \"v=DMARC1; p=quarantine; rua=mailto:dmarc-reports@"@ + domain + "; pct=100; adkim=s; aspf=s\""@,
        },
    }
}

/// The DMARC policy is `none`.
pub open spec fn dmarc_none(domain: Seq<char>) -> Finding {
    Finding {
        points: 35,
        remediation: RemediationView {
            severity: RiskLevel::High,
            description: "DMARC policy is 'none'. Mail servers will not reject or quarantine spoofed messages."@,
            dns_fix: "v=DMARC1; p=quarantine; rua=mailto:dmarc-reports@"@ + domain,
            bind_command: "_dmarc."@ + domain + ". IN TXT \"v=DMARC1; p=quarantine; rua=mailto:dmarc-reports@"@ + domain + "\""@,
            ps_command: "Set-DnsServerResourceRecord -ZoneName \""@ + domain + "\" -Name \"_dmarc\" -Txt -DescriptiveText \"v=DMARC1; p=quarantine; rua=mailto:dmarc-reports@"@ + domain + "\""@,
        },
    }
}

/// Only a part of failing mail is quarantined.
pub open spec fn partial_quarantine(pct: u8) -> Finding {
    Finding {
        points: 10,
        remediation: RemediationView {
            severity: RiskLevel::Medium,
            description: "DMARC pct="@ + decimal(pct as nat) + " means only "@ + decimal(pct as nat) + "% of failing mail is quarantined. Increase to 100."@,
            dns_fix: "Amend pct=100 in existing DMARC record."@,
            bind_command: "Update the pct tag in your existing _dmarc TXT record to pct=100."@,
            ps_command: "Update the pct tag in your existing _dmarc TXT record to pct=100."@,
        },
    }
}

/// The DMARC record asks for no reports.
pub open spec fn no_reports(domain: Seq<char>) -> Finding {
    Finding {
        points: 10,
        remediation: RemediationView {
            severity: RiskLevel::Medium,
            description: "DMARC record has no rua or ruf reporting URIs. You cannot see who is spoofing your domain."@,
            dns_fix: "Add rua=mailto:dmarc-agg@"@ + domain + "; ruf=mailto:dmarc-forensic@"@ + domain,
            bind_command: "Add rua= and ruf= tags to existing DMARC TXT record."@,
            ps_command: "Add rua= and ruf= tags to existing DMARC TXT record."@,
        },
    }
}

/// Alignment is relaxed and SPF is weak.
pub open spec fn loose_alignment() -> Finding {
    Finding {
        points: 8,
        remediation: RemediationView {
            severity: RiskLevel::Medium,
            description: "Relaxed DKIM/SPF alignment combined with a weak SPF policy allows cousin-domain spoofing."@,
            dns_fix: "Set adkim=s; aspf=s in DMARC record for strict alignment."@,
            bind_command: "Update adkim and aspf tags to 's' in existing DMARC TXT record."@,
            ps_command: "Update adkim and aspf tags to 's' in existing DMARC TXT record."@,
        },
    }
}

/// There is no SPF record.
pub open spec fn no_spf(domain: Seq<char>) -> Finding {
    Finding {
        points: 30,
        remediation: RemediationView {
            severity: RiskLevel::High,
            description: "No SPF record. Any IP can claim to send mail for this domain."@,
            dns_fix: "v=spf1 -all"@,
            bind_command: domain + ". IN TXT \"v=spf1 -all\""@,
            ps_command: "Add-DnsServerResourceRecord -ZoneName \""@ + domain + "\" -Name \"@\" -Txt -DescriptiveText \"v=spf1 -all\""@,
        },
    }
}

/// SPF lets every sender pass.
pub open spec fn spf_pass(domain: Seq<char>) -> Finding {
    Finding {
        points: 35,
        remediation: RemediationView {
            severity: RiskLevel::Critical,
            description: "SPF +all authorizes every IP on the internet to send as this domain."@,
            dns_fix: "v=spf1 <your-mechanisms> -all"@,
            bind_command: domain + ". IN TXT \"v=spf1 <your-mechanisms> -all\""@,
            ps_command: "Set-DnsServerResourceRecord -ZoneName \""@ + domain + "\" -Name \"@\" -Txt -DescriptiveText \"v=spf1 <your-mechanisms> -all\""@,
        },
    }
}

/// SPF is neutral on other senders.
pub open spec fn spf_neutral() -> Finding {
    Finding {
        points: 25,
        remediation: RemediationView {
            severity: RiskLevel::High,
            description: "SPF ?all treats unauthorized senders as neutral — most filters will not block spoofed mail."@,
            dns_fix: "Change ?all to -all in SPF record."@,
            bind_command: "Change ?all to -all in existing SPF TXT record."@,
            ps_command: "Change ?all to -all in existing SPF TXT record."@,
        },
    }
}

/// SPF only tags other senders.
pub open spec fn spf_softfail() -> Finding {
    Finding {
        points: 15,
        remediation: RemediationView {
            severity: RiskLevel::Medium,
            description: "SPF ~all (softfail) tags unauthorized mail but does not reject it. Upgrade to -all when ready."@,
            dns_fix: "Change ~all to -all in SPF record."@,
            bind_command: "Change ~all to -all in existing SPF TXT record."@,
            ps_command: "Change ~all to -all in existing SPF TXT record."@,
        },
    }
}

/// No DKIM key was found.
pub open spec fn no_dkim(domain: Seq<char>) -> Finding {
    Finding {
        points: 15,
        remediation: RemediationView {
            severity: RiskLevel::High,
            description: "No DKIM keys discovered across 15 common selectors. DKIM signing may not be configured."@,
            dns_fix: "Generate a DKIM keypair and publish the public key at <selector>._domainkey.<domain>."@,
            bind_command: "default._domainkey."@ + domain + ". IN TXT \"v=DKIM1; k=rsa; p=<base64-public-key>\""@,
            ps_command: "Add-DnsServerResourceRecord -ZoneName \""@ + domain + "\" -Name \"default._domainkey\" -Txt -DescriptiveText \"v=DKIM1; k=rsa; p=<base64-public-key>\""@,
        },
    }
}

/// Every DKIM key found is short.
pub open spec fn weak_dkim() -> Finding {
    Finding {
        points: 5,
        remediation: RemediationView {
            severity: RiskLevel::Medium,
            description: "All discovered DKIM keys appear to be under 1024 bits. Use 2048-bit RSA minimum."@,
            dns_fix: "Regenerate DKIM keypair with 2048-bit RSA."@,
            bind_command: "Regenerate DKIM keypair and update TXT record."@,
            ps_command: "Regenerate DKIM keypair and update TXT record."@,
        },
    }
}

// ─── When each applies ─────────────────────────────────────────────

/// An SPF policy that lets unlisted senders through, or none.
pub open spec fn spf_weak(spf: Option<SpfRecordView>) -> bool {
    match spf {
        Some(record) => record.qualifier == SpfQualifier::SoftFail || record.qualifier
            == SpfQualifier::Neutral || record.qualifier == SpfQualifier::Pass,
        None => true,
    }
}

/// Relaxed alignment, asked for or by default.
pub open spec fn loose(mode: AlignmentMode) -> bool {
    mode == AlignmentMode::Relaxed || mode == AlignmentMode::Unset
}

/// What a DMARC policy leaves open.
pub open spec fn policy_findings(domain: Seq<char>, dmarc: DmarcRecordView) -> Seq<Finding> {
    if dmarc.policy == DmarcPolicy::NoAction {
        seq![dmarc_none(domain)]
    } else if dmarc.policy == DmarcPolicy::Quarantine && dmarc.pct < 100 {
        seq![partial_quarantine(dmarc.pct)]
    } else {
        seq![]
    }
}

/// Whether abuse would be seen.
pub open spec fn report_findings(domain: Seq<char>, dmarc: DmarcRecordView) -> Seq<Finding> {
    if dmarc.rua is None && dmarc.ruf is None {
        seq![no_reports(domain)]
    } else {
        seq![]
    }
}

/// Whether a neighbouring domain could pass.
pub open spec fn alignment_findings(dmarc: DmarcRecordView, spf: Option<SpfRecordView>) -> Seq<
    Finding,
> {
    if (loose(dmarc.adkim) || loose(dmarc.aspf)) && spf_weak(spf) {
        seq![loose_alignment()]
    } else {
        seq![]
    }
}

/// What is wrong with DMARC.
pub open spec fn dmarc_findings(
    domain: Seq<char>,
    dmarc: Option<DmarcRecordView>,
    spf: Option<SpfRecordView>,
) -> Seq<Finding> {
    match dmarc {
        None => seq![no_dmarc(domain)],
        Some(record) => policy_findings(domain, record) + report_findings(domain, record)
            + alignment_findings(record, spf),
    }
}

/// What is wrong with SPF.
pub open spec fn spf_findings(domain: Seq<char>, spf: Option<SpfRecordView>) -> Seq<Finding> {
    match spf {
        None => seq![no_spf(domain)],
        Some(record) => match record.qualifier {
            SpfQualifier::Pass => seq![spf_pass(domain)],
            SpfQualifier::Neutral => seq![spf_neutral()],
            SpfQualifier::SoftFail => seq![spf_softfail()],
            SpfQualifier::Fail => seq![],
            SpfQualifier::Missing => seq![],
        },
    }
}

/// What is wrong with DKIM.
pub open spec fn dkim_findings(domain: Seq<char>, keys: Seq<DkimKeyView>) -> Seq<Finding> {
    if keys.len() == 0 {
        seq![no_dkim(domain)]
    } else if forall|i: int| 0 <= i < keys.len() ==> (#[trigger] keys[i]).key_bits_approx < 1024 {
        seq![weak_dkim()]
    } else {
        seq![]
    }
}

/// Everything wrong with a domain, in the order in which it is reported.
pub open spec fn findings(posture: PostureView) -> Seq<Finding> {
    dmarc_findings(posture.domain, posture.dmarc, posture.spf) + spf_findings(
        posture.domain,
        posture.spf,
    ) + dkim_findings(posture.domain, posture.dkim_keys)
}

// ─── The score ─────────────────────────────────────────────────────

/// The points of a list of findings.
pub open spec fn total(list: Seq<Finding>) -> nat
    decreases list.len(),
{
    if list.len() == 0 {
        0
    } else {
        total(list.drop_last()) + list.last().points
    }
}

/// What mends a list of findings.
pub open spec fn remediations(list: Seq<Finding>) -> Seq<RemediationView> {
    list.map_values(|f: Finding| f.remediation)
}

/// The risk score: the points of all findings, at most 100.
pub open spec fn risk_score(posture: PostureView) -> nat {
    if total(findings(posture)) <= 100 {
        total(findings(posture))
    } else {
        100
    }
}

/// The risk level of a score.
pub open spec fn risk_level(score: nat) -> RiskLevel {
    if score <= 29 {
        RiskLevel::Low
    } else if score <= 59 {
        RiskLevel::Medium
    } else if score <= 79 {
        RiskLevel::High
    } else {
        RiskLevel::Critical
    }
}

/// The points of two lists add up.
pub proof fn lemma_total_adds(a: Seq<Finding>, b: Seq<Finding>)
    ensures
        total(a + b) == total(a) + total(b),
    decreases b.len(),
{
    if b.len() == 0 {
        assert(a + b =~= a);
    } else {
        lemma_total_adds(a, b.drop_last());
        assert((a + b).drop_last() =~= a + b.drop_last());
    }
}

proof fn lemma_total_one(f: Finding)
    ensures
        total(seq![f]) == f.points,
{
    assert(seq![f].drop_last() =~= Seq::empty());
    assert(total(Seq::empty()) == 0);
}

fn remedy_no_dmarc(domain: &str) -> (r: Remediation)
    ensures
        r@ == no_dmarc(domain@).remediation,
{
    Remediation {
        severity: RiskLevel::Critical,
        description: "No DMARC record found. The domain has zero spoofing protection at the policy level.".to_owned(),
        dns_fix: cat3("v=DMARC1; p=quarantine; rua=mailto:dmarc-reports@", domain, "; pct=100; adkim=s; aspf=s"),
        bind_command: cat5("_dmarc.", domain, ". IN TXT \"v=DMARC1; p=quarantine; rua=mailto:dmarc-reports@", domain, "; pct=100; adkim=s; aspf=s\""),
        ps_command: cat5("Add-DnsServerResourceRecord -ZoneName \"", domain, "\" -Name \"_dmarc\" -Txt -DescriptiveText \"v=DMARC1; p=quarantine; rua=mailto:dmarc-reports@", domain, "; pct=100; adkim=s; aspf=s\""),
    }
}

fn remedy_dmarc_none(domain: &str) -> (r: Remediation)
    ensures
        r@ == dmarc_none(domain@).remediation,
{
    Remediation {
        severity: RiskLevel::High,
        description: "DMARC policy is 'none'. Mail servers will not reject or quarantine spoofed messages.".to_owned(),
        dns_fix: cat2("v=DMARC1; p=quarantine; rua=mailto:dmarc-reports@", domain),
        bind_command: cat5("_dmarc.", domain, ". IN TXT \"v=DMARC1; p=quarantine; rua=mailto:dmarc-reports@", domain, "\""),
        ps_command: cat5("Set-DnsServerResourceRecord -ZoneName \"", domain, "\" -Name \"_dmarc\" -Txt -DescriptiveText \"v=DMARC1; p=quarantine; rua=mailto:dmarc-reports@", domain, "\""),
    }
}

fn remedy_partial_quarantine(pct: u8) -> (r: Remediation)
    ensures
        r@ == partial_quarantine(pct).remediation,
{
    let pct_text = to_decimal(pct as u64);
    Remediation {
        severity: RiskLevel::Medium,
        description: cat5("DMARC pct=", pct_text.as_str(), " means only ", pct_text.as_str(), "% of failing mail is quarantined. Increase to 100."),
        dns_fix: "Amend pct=100 in existing DMARC record.".to_owned(),
        bind_command: "Update the pct tag in your existing _dmarc TXT record to pct=100.".to_owned(),
        ps_command: "Update the pct tag in your existing _dmarc TXT record to pct=100.".to_owned(),
    }
}

fn remedy_no_reports(domain: &str) -> (r: Remediation)
    ensures
        r@ == no_reports(domain@).remediation,
{
    Remediation {
        severity: RiskLevel::Medium,
        description: "DMARC record has no rua or ruf reporting URIs. You cannot see who is spoofing your domain.".to_owned(),
        dns_fix: cat4("Add rua=mailto:dmarc-agg@", domain, "; ruf=mailto:dmarc-forensic@", domain),
        bind_command: "Add rua= and ruf= tags to existing DMARC TXT record.".to_owned(),
        ps_command: "Add rua= and ruf= tags to existing DMARC TXT record.".to_owned(),
    }
}

fn remedy_loose_alignment() -> (r: Remediation)
    ensures
        r@ == loose_alignment().remediation,
{
    Remediation {
        severity: RiskLevel::Medium,
        description: "Relaxed DKIM/SPF alignment combined with a weak SPF policy allows cousin-domain spoofing.".to_owned(),
        dns_fix: "Set adkim=s; aspf=s in DMARC record for strict alignment.".to_owned(),
        bind_command: "Update adkim and aspf tags to 's' in existing DMARC TXT record.".to_owned(),
        ps_command: "Update adkim and aspf tags to 's' in existing DMARC TXT record.".to_owned(),
    }
}

fn remedy_no_spf(domain: &str) -> (r: Remediation)
    ensures
        r@ == no_spf(domain@).remediation,
{
    Remediation {
        severity: RiskLevel::High,
        description: "No SPF record. Any IP can claim to send mail for this domain.".to_owned(),
        dns_fix: "v=spf1 -all".to_owned(),
        bind_command: cat2(domain, ". IN TXT \"v=spf1 -all\""),
        ps_command: cat3("Add-DnsServerResourceRecord -ZoneName \"", domain, "\" -Name \"@\" -Txt -DescriptiveText \"v=spf1 -all\""),
    }
}

fn remedy_spf_pass(domain: &str) -> (r: Remediation)
    ensures
        r@ == spf_pass(domain@).remediation,
{
    Remediation {
        severity: RiskLevel::Critical,
        description: "SPF +all authorizes every IP on the internet to send as this domain.".to_owned(),
        dns_fix: "v=spf1 <your-mechanisms> -all".to_owned(),
        bind_command: cat2(domain, ". IN TXT \"v=spf1 <your-mechanisms> -all\""),
        ps_command: cat3("Set-DnsServerResourceRecord -ZoneName \"", domain, "\" -Name \"@\" -Txt -DescriptiveText \"v=spf1 <your-mechanisms> -all\""),
    }
}

fn remedy_spf_neutral() -> (r: Remediation)
    ensures
        r@ == spf_neutral().remediation,
{
    Remediation {
        severity: RiskLevel::High,
        description: "SPF ?all treats unauthorized senders as neutral — most filters will not block spoofed mail.".to_owned(),
        dns_fix: "Change ?all to -all in SPF record.".to_owned(),
        bind_command: "Change ?all to -all in existing SPF TXT record.".to_owned(),
        ps_command: "Change ?all to -all in existing SPF TXT record.".to_owned(),
    }
}

fn remedy_spf_softfail() -> (r: Remediation)
    ensures
        r@ == spf_softfail().remediation,
{
    Remediation {
        severity: RiskLevel::Medium,
        description: "SPF ~all (softfail) tags unauthorized mail but does not reject it. Upgrade to -all when ready.".to_owned(),
        dns_fix: "Change ~all to -all in SPF record.".to_owned(),
        bind_command: "Change ~all to -all in existing SPF TXT record.".to_owned(),
        ps_command: "Change ~all to -all in existing SPF TXT record.".to_owned(),
    }
}

fn remedy_no_dkim(domain: &str) -> (r: Remediation)
    ensures
        r@ == no_dkim(domain@).remediation,
{
    Remediation {
        severity: RiskLevel::High,
        description: "No DKIM keys discovered across 15 common selectors. DKIM signing may not be configured.".to_owned(),
        dns_fix: "Generate a DKIM keypair and publish the public key at <selector>._domainkey.<domain>.".to_owned(),
        bind_command: cat3("default._domainkey.", domain, ". IN TXT \"v=DKIM1; k=rsa; p=<base64-public-key>\""),
        ps_command: cat3("Add-DnsServerResourceRecord -ZoneName \"", domain, "\" -Name \"default._domainkey\" -Txt -DescriptiveText \"v=DKIM1; k=rsa; p=<base64-public-key>\""),
    }
}

fn remedy_weak_dkim() -> (r: Remediation)
    ensures
        r@ == weak_dkim().remediation,
{
    Remediation {
        severity: RiskLevel::Medium,
        description: "All discovered DKIM keys appear to be under 1024 bits. Use 2048-bit RSA minimum.".to_owned(),
        dns_fix: "Regenerate DKIM keypair with 2048-bit RSA.".to_owned(),
        bind_command: "Regenerate DKIM keypair and update TXT record.".to_owned(),
        ps_command: "Regenerate DKIM keypair and update TXT record.".to_owned(),
    }
}

/// What has been found so far.
struct Tally {
    points: u16,
    remediations: Vec<Remediation>,
}

impl Tally {
    spec fn holds(self, list: Seq<Finding>) -> bool {
        self.points as nat == total(list) && self.remediations.deep_view() == remediations(list)
    }

    fn note(&mut self, points: u16, remediation: Remediation, list: Ghost<Seq<Finding>>, finding: Ghost<Finding>)
        requires
            old(self).holds(list@),
            old(self).points < 1000,
            points < 1000,
            finding@.points == points,
            finding@.remediation == remediation@,
        ensures
            final(self).holds(list@ + seq![finding@]),
            final(self).points == old(self).points + points,
    {
        proof {
            lemma_total_adds(list@, seq![finding@]);
            lemma_total_one(finding@);
        }
        let ghost before = self.remediations.deep_view();
        self.points = self.points + points;
        self.remediations.push(remediation);
        assert(self.remediations.deep_view() =~= before.push(remediation@));
        assert(remediations(list@ + seq![finding@]) =~= before.push(remediation@));
    }
}

fn is_loose(mode: AlignmentMode) -> (r: bool)
    ensures
        r == loose(mode),
{
    mode == AlignmentMode::Relaxed || mode == AlignmentMode::Unset
}

fn is_spf_weak(spf: &Option<SpfRecord>) -> (r: bool)
    ensures
        r == spf_weak(spf.deep_view()),
{
    match spf {
        Some(record) => record.qualifier == SpfQualifier::SoftFail || record.qualifier
            == SpfQualifier::Neutral || record.qualifier == SpfQualifier::Pass,
        None => true,
    }
}

fn all_short(keys: &Vec<DkimKey>) -> (r: bool)
    ensures
        r == (forall|i: int|
            0 <= i < keys@.len() ==> (#[trigger] keys.deep_view()[i]).key_bits_approx < 1024),
{
    for i in 0..keys.len()
        invariant
            forall|j: int| 0 <= j < i ==> (#[trigger] keys.deep_view()[j]).key_bits_approx < 1024,
    {
        if keys[i].key_bits_approx >= 1024 {
            assert(keys.deep_view()[i as int].key_bits_approx >= 1024);
            return false;
        }
    }
    true
}

fn assess_dmarc(tally: &mut Tally, posture: &DomainPosture)
    requires
        old(tally).holds(seq![]),
    ensures
        final(tally).holds(dmarc_findings(posture@.domain, posture@.dmarc, posture@.spf)),
        final(tally).points <= 53,
{
    let domain = posture.domain.as_str();
    let ghost mut list: Seq<Finding> = Seq::empty();
    match &posture.dmarc {
        None => {
            tally.note(45, remedy_no_dmarc(domain), Ghost(list), Ghost(no_dmarc(domain@)));
            assert(Seq::empty() + seq![no_dmarc(domain@)] =~= seq![no_dmarc(domain@)]);
        },
        Some(dmarc) => {
            let ghost view = dmarc@;
            if dmarc.policy == DmarcPolicy::NoAction {
                tally.note(35, remedy_dmarc_none(domain), Ghost(list), Ghost(dmarc_none(domain@)));
                proof {
                    list = list + seq![dmarc_none(domain@)];
                }
            } else if dmarc.policy == DmarcPolicy::Quarantine && dmarc.pct < 100 {
                tally.note(
                    10,
                    remedy_partial_quarantine(dmarc.pct),
                    Ghost(list),
                    Ghost(partial_quarantine(dmarc.pct)),
                );
                proof {
                    list = list + seq![partial_quarantine(dmarc.pct)];
                }
            }
            assert(list =~= policy_findings(domain@, view));
            if dmarc.rua.is_none() && dmarc.ruf.is_none() {
                tally.note(10, remedy_no_reports(domain), Ghost(list), Ghost(no_reports(domain@)));
                proof {
                    list = list + seq![no_reports(domain@)];
                }
            }
            assert(list =~= policy_findings(domain@, view) + report_findings(domain@, view));
            if (is_loose(dmarc.adkim) || is_loose(dmarc.aspf)) && is_spf_weak(&posture.spf) {
                tally.note(8, remedy_loose_alignment(), Ghost(list), Ghost(loose_alignment()));
                proof {
                    list = list + seq![loose_alignment()];
                }
            }
            assert(list =~= dmarc_findings(posture@.domain, posture@.dmarc, posture@.spf));
        },
    }
}

fn assess_spf(tally: &mut Tally, posture: &DomainPosture, list: Ghost<Seq<Finding>>)
    requires
        old(tally).holds(list@),
        old(tally).points <= 53,
    ensures
        final(tally).holds(list@ + spf_findings(posture@.domain, posture@.spf)),
        final(tally).points <= 88,
{
    let domain = posture.domain.as_str();
    match &posture.spf {
        None => tally.note(30, remedy_no_spf(domain), list, Ghost(no_spf(domain@))),
        Some(spf) => match spf.qualifier {
            SpfQualifier::Pass => tally.note(
                35,
                remedy_spf_pass(domain),
                list,
                Ghost(spf_pass(domain@)),
            ),
            SpfQualifier::Neutral => tally.note(
                25,
                remedy_spf_neutral(),
                list,
                Ghost(spf_neutral()),
            ),
            SpfQualifier::SoftFail => tally.note(
                15,
                remedy_spf_softfail(),
                list,
                Ghost(spf_softfail()),
            ),
            SpfQualifier::Fail | SpfQualifier::Missing => {
                assert(list@ + Seq::<Finding>::empty() =~= list@);
            },
        },
    }
}

fn assess_dkim(tally: &mut Tally, posture: &DomainPosture, list: Ghost<Seq<Finding>>)
    requires
        old(tally).holds(list@),
        old(tally).points <= 88,
    ensures
        final(tally).holds(list@ + dkim_findings(posture@.domain, posture@.dkim_keys)),
        final(tally).points <= 103,
{
    let domain = posture.domain.as_str();
    if posture.dkim_keys.is_empty() {
        tally.note(15, remedy_no_dkim(domain), list, Ghost(no_dkim(domain@)));
    } else if all_short(&posture.dkim_keys) {
        tally.note(5, remedy_weak_dkim(), list, Ghost(weak_dkim()));
    } else {
        assert(list@ + Seq::<Finding>::empty() =~= list@);
    }
}

/// Scores a domain: its risk score, its risk level, and one remediation for each finding.
pub fn score(posture: &DomainPosture) -> (r: (u8, RiskLevel, Vec<Remediation>))
    ensures
        r.0 as nat == risk_score(posture@),
        r.1 == risk_level(risk_score(posture@)),
        r.2.deep_view() == remediations(findings(posture@)),
{
    let mut tally = Tally { points: 0, remediations: Vec::new() };
    assert(tally.remediations.deep_view() =~= remediations(seq![]));
    assess_dmarc(&mut tally, posture);
    let ghost dmarc = dmarc_findings(posture@.domain, posture@.dmarc, posture@.spf);
    assess_spf(&mut tally, posture, Ghost(dmarc));
    let ghost spf = spf_findings(posture@.domain, posture@.spf);
    assess_dkim(&mut tally, posture, Ghost(dmarc + spf));
    let capped: u8 = if tally.points <= 100 {
        tally.points as u8
    } else {
        100
    };
    let level = if capped <= 29 {
        RiskLevel::Low
    } else if capped <= 59 {
        RiskLevel::Medium
    } else if capped <= 79 {
        RiskLevel::High
    } else {
        RiskLevel::Critical
    };
    (capped, level, tally.remediations)
}

// ─── Laws ──────────────────────────────────────────────────────────

/// The points that DMARC adds.
pub open spec fn dmarc_points(dmarc: Option<DmarcRecordView>, spf: Option<SpfRecordView>) -> nat {
    match dmarc {
        None => 45,
        Some(record) => (if record.policy == DmarcPolicy::NoAction {
            35nat
        } else if record.policy == DmarcPolicy::Quarantine && record.pct < 100 {
            10
        } else {
            0
        }) + (if record.rua is None && record.ruf is None {
            10nat
        } else {
            0
        }) + (if (loose(record.adkim) || loose(record.aspf)) && spf_weak(spf) {
            8nat
        } else {
            0
        }),
    }
}

/// The points that SPF adds.
pub open spec fn spf_points(spf: Option<SpfRecordView>) -> nat {
    match spf {
        None => 30,
        Some(record) => match record.qualifier {
            SpfQualifier::Pass => 35,
            SpfQualifier::Neutral => 25,
            SpfQualifier::SoftFail => 15,
            SpfQualifier::Fail => 0,
            SpfQualifier::Missing => 0,
        },
    }
}

/// The points that DKIM adds.
pub open spec fn dkim_points(keys: Seq<DkimKeyView>) -> nat {
    if keys.len() == 0 {
        15
    } else if forall|i: int| 0 <= i < keys.len() ==> (#[trigger] keys[i]).key_bits_approx < 1024 {
        5
    } else {
        0
    }
}

/// The points of DMARC, SPF and DKIM add up to the score, which is capped at 100.
pub proof fn law_points_add_up(posture: PostureView)
    ensures
        total(findings(posture)) == dmarc_points(posture.dmarc, posture.spf) + spf_points(
            posture.spf,
        ) + dkim_points(posture.dkim_keys),
        risk_score(posture) <= 100,
        risk_score(posture) <= total(findings(posture)),
        total(findings(posture)) <= 100 ==> risk_score(posture) == total(findings(posture)),
{
    let d = dmarc_findings(posture.domain, posture.dmarc, posture.spf);
    let s = spf_findings(posture.domain, posture.spf);
    let k = dkim_findings(posture.domain, posture.dkim_keys);
    lemma_total_adds(d + s, k);
    lemma_total_adds(d, s);
    assert(total(Seq::empty()) == 0);
    match posture.dmarc {
        None => lemma_total_one(no_dmarc(posture.domain)),
        Some(record) => {
            let a = policy_findings(posture.domain, record);
            let b = report_findings(posture.domain, record);
            let c = alignment_findings(record, posture.spf);
            lemma_total_adds(a + b, c);
            lemma_total_adds(a, b);
            lemma_total_one(dmarc_none(posture.domain));
            lemma_total_one(partial_quarantine(record.pct));
            lemma_total_one(no_reports(posture.domain));
            lemma_total_one(loose_alignment());
        },
    }
    lemma_total_one(no_spf(posture.domain));
    lemma_total_one(spf_pass(posture.domain));
    lemma_total_one(spf_neutral());
    lemma_total_one(spf_softfail());
    lemma_total_one(no_dkim(posture.domain));
    lemma_total_one(weak_dkim());
}

/// Two SPF records that the score does not tell apart: both missing, or with one qualifier.
pub open spec fn alike_spf(a: Option<SpfRecordView>, b: Option<SpfRecordView>) -> bool {
    match (a, b) {
        (Some(x), Some(y)) => x.qualifier == y.qualifier,
        (None, None) => true,
        _ => false,
    }
}

/// Two DMARC records that the score does not tell apart: both missing, or with one policy, share
/// and alignment, and with reports of the same kinds.
pub open spec fn alike_dmarc(a: Option<DmarcRecordView>, b: Option<DmarcRecordView>) -> bool {
    match (a, b) {
        (Some(x), Some(y)) => {
            &&& x.policy == y.policy
            &&& x.pct == y.pct
            &&& x.rua is Some == y.rua is Some
            &&& x.ruf is Some == y.ruf is Some
            &&& x.adkim == y.adkim
            &&& x.aspf == y.aspf
        },
        (None, None) => true,
        _ => false,
    }
}

/// The sizes of a list of keys.
pub open spec fn key_sizes(keys: Seq<DkimKeyView>) -> Seq<usize> {
    keys.map_values(|key: DkimKeyView| key.key_bits_approx)
}

/// The score depends on the SPF qualifier, on the DMARC policy, share, alignment and whether
/// reports are asked for, and on the sizes of the DKIM keys; with the domain these determine the
/// findings too. Nothing else that is known of a domain matters.
pub proof fn law_records_determine_score(a: PostureView, b: PostureView)
    requires
        alike_spf(a.spf, b.spf),
        alike_dmarc(a.dmarc, b.dmarc),
        key_sizes(a.dkim_keys) == key_sizes(b.dkim_keys),
    ensures
        risk_score(a) == risk_score(b),
        a.domain == b.domain ==> findings(a) == findings(b),
{
    law_points_add_up(a);
    law_points_add_up(b);
    let (x, y) = (a.dkim_keys, b.dkim_keys);
    assert(key_sizes(x).len() == x.len() && key_sizes(y).len() == y.len());
    assert forall|i: int|
        #![trigger x[i]]
        #![trigger y[i]]
        0 <= i < x.len() implies x[i].key_bits_approx == y[i].key_bits_approx by {
        assert(key_sizes(x)[i] == x[i].key_bits_approx);
        assert(key_sizes(y)[i] == y[i].key_bits_approx);
    }
}

/// There is something to mend exactly where the score is not zero.
pub proof fn law_nothing_to_mend_means_zero(posture: PostureView)
    ensures
        remediations(findings(posture)).len() == findings(posture).len(),
        risk_score(posture) == 0 <==> remediations(findings(posture)).len() == 0,
{
    law_points_add_up(posture);
}

/// Without DMARC a domain is never at low risk; with an SPF record that lets everyone pass its
/// risk is critical.
pub proof fn law_exposed_without_dmarc(posture: PostureView)
    requires
        posture.dmarc is None,
    ensures
        risk_level(risk_score(posture)) != RiskLevel::Low,
        posture.spf is Some && posture.spf->0.qualifier == SpfQualifier::Pass ==> risk_score(posture)
            >= 80 && risk_level(risk_score(posture)) == RiskLevel::Critical,
{
    law_points_add_up(posture);
}

/// A policy of `none` without reports, over an SPF record that is not strict, is a high risk at
/// least where no DKIM key was found and alignment is not strict.
pub proof fn law_unenforced_policy_is_high(posture: PostureView)
    requires
        posture.dmarc is Some,
        posture.dmarc->0.policy == DmarcPolicy::NoAction,
        posture.dmarc->0.rua is None && posture.dmarc->0.ruf is None,
        loose(posture.dmarc->0.adkim) || loose(posture.dmarc->0.aspf),
        spf_weak(posture.spf),
        posture.dkim_keys.len() == 0,
    ensures
        risk_score(posture) >= 60,
        risk_level(risk_score(posture)) == RiskLevel::High || risk_level(risk_score(posture))
            == RiskLevel::Critical,
{
    law_points_add_up(posture);
}

/// A domain that rejects, reports, aligns strictly, fails other senders and has a key of 1024
/// bits scores nothing.
pub proof fn law_guarded_domain_scores_nothing(posture: PostureView, key: int)
    requires
        posture.dmarc is Some,
        posture.dmarc->0.policy == DmarcPolicy::Reject,
        posture.dmarc->0.rua is Some || posture.dmarc->0.ruf is Some,
        posture.dmarc->0.adkim == AlignmentMode::Strict,
        posture.dmarc->0.aspf == AlignmentMode::Strict,
        posture.spf is Some && posture.spf->0.qualifier == SpfQualifier::Fail,
        0 <= key < posture.dkim_keys.len(),
        posture.dkim_keys[key].key_bits_approx >= 1024,
    ensures
        risk_score(posture) == 0,
        risk_level(risk_score(posture)) == RiskLevel::Low,
        remediations(findings(posture)).len() == 0,
{
    law_points_add_up(posture);
    law_nothing_to_mend_means_zero(posture);
}

/// How much an SPF record lets through: `-all`, `~all`, `?all`, `+all`.
pub open spec fn leniency(qualifier: SpfQualifier) -> int {
    match qualifier {
        SpfQualifier::Fail => 0,
        SpfQualifier::SoftFail => 1,
        SpfQualifier::Neutral => 2,
        SpfQualifier::Pass => 3,
        SpfQualifier::Missing => 4,
    }
}

/// A stricter `all` mechanism never raises the score.
pub proof fn law_stricter_spf_never_costs(
    posture: PostureView,
    strict: SpfRecordView,
    lenient: SpfRecordView,
)
    requires
        leniency(strict.qualifier) <= leniency(lenient.qualifier) <= 3,
    ensures
        risk_score(PostureView { spf: Some(strict), ..posture }) <= risk_score(
            PostureView { spf: Some(lenient), ..posture },
        ),
{
    law_points_add_up(PostureView { spf: Some(strict), ..posture });
    law_points_add_up(PostureView { spf: Some(lenient), ..posture });
}

/// One more DKIM key, wherever it stands, never raises the score.
pub proof fn law_another_key_never_costs(posture: PostureView, at: int, key: DkimKeyView)
    requires
        0 <= at <= posture.dkim_keys.len(),
    ensures
        risk_score(PostureView { dkim_keys: posture.dkim_keys.insert(at, key), ..posture })
            <= risk_score(posture),
{
    let keys = posture.dkim_keys;
    let more = keys.insert(at, key);
    law_points_add_up(posture);
    law_points_add_up(PostureView { dkim_keys: more, ..posture });
    if dkim_points(keys) == 0 {
        let i = choose|i: int|
            0 <= i < keys.len() && !((#[trigger] keys[i]).key_bits_approx < 1024);
        let j = if i < at {
            i
        } else {
            i + 1
        };
        assert(more[j] == keys[i]);
    }
}

/// A score is at low level up to 29, at medium level from 30 to 59, at high level from 60 to 79 and
/// at critical level from 80 on.
pub proof fn law_levels_are_bands(score: nat)
    ensures
        risk_level(score) == RiskLevel::Low <==> 0 <= score <= 29,
        risk_level(score) == RiskLevel::Medium <==> 30 <= score <= 59,
        risk_level(score) == RiskLevel::High <==> 60 <= score <= 79,
        risk_level(score) == RiskLevel::Critical <==> 80 <= score,
{
}

/// Some key has 1024 bits or more.
pub open spec fn has_long_key(keys: Seq<DkimKeyView>) -> bool {
    exists|i: int| 0 <= i < keys.len() && (#[trigger] keys[i]).key_bits_approx >= 1024
}

/// A score adds up row by row: each condition of the matrix adds its points where it holds and
/// nothing where it does not, and the sum is cut off at 100.
pub proof fn law_scoring_matrix(posture: PostureView)
    ensures
        total(findings(posture)) == (if posture.dmarc is None {
            45int
        } else {
            0
        }) + (if posture.dmarc is Some && posture.dmarc->0.policy == DmarcPolicy::NoAction {
            35int
        } else {
            0
        }) + (if posture.dmarc is Some && posture.dmarc->0.policy == DmarcPolicy::Quarantine
            && posture.dmarc->0.pct < 100 {
            10int
        } else {
            0
        }) + (if posture.dmarc is Some && posture.dmarc->0.rua is None && posture.dmarc->0.ruf is None {
            10int
        } else {
            0
        }) + (if posture.dmarc is Some && (posture.dmarc->0.adkim != AlignmentMode::Strict
            || posture.dmarc->0.aspf != AlignmentMode::Strict) && (posture.spf is None || (
        posture.spf->0.qualifier != SpfQualifier::Fail && posture.spf->0.qualifier
            != SpfQualifier::Missing)) {
            8int
        } else {
            0
        }) + (if posture.spf is None {
            30int
        } else {
            0
        }) + (if posture.spf is Some && posture.spf->0.qualifier == SpfQualifier::Pass {
            35int
        } else {
            0
        }) + (if posture.spf is Some && posture.spf->0.qualifier == SpfQualifier::Neutral {
            25int
        } else {
            0
        }) + (if posture.spf is Some && posture.spf->0.qualifier == SpfQualifier::SoftFail {
            15int
        } else {
            0
        }) + (if posture.dkim_keys.len() == 0 {
            15int
        } else {
            0
        }) + (if posture.dkim_keys.len() > 0 && !has_long_key(posture.dkim_keys) {
            5int
        } else {
            0
        }),
        total(findings(posture)) <= 100 ==> risk_score(posture) == total(findings(posture)),
        total(findings(posture)) >= 100 ==> risk_score(posture) == 100,
{
    law_points_add_up(posture);
}

/// A domain that lacks DMARC and nothing else is at medium level, with one thing to mend.
pub proof fn law_only_dmarc_missing_is_medium(posture: PostureView)
    requires
        posture.dmarc is None,
        posture.spf is Some,
        posture.spf->0.qualifier == SpfQualifier::Fail || posture.spf->0.qualifier
            == SpfQualifier::Missing,
        has_long_key(posture.dkim_keys),
    ensures
        risk_score(posture) == 45,
        risk_level(risk_score(posture)) == RiskLevel::Medium,
        remediations(findings(posture)).len() == 1,
{
    law_scoring_matrix(posture);
}

/// How many rows of the matrix hold is how much there is to mend.
pub proof fn law_one_remediation_for_each_row(posture: PostureView)
    ensures
        remediations(findings(posture)).len() == (if posture.dmarc is None {
            1int
        } else {
            (if posture.dmarc->0.policy == DmarcPolicy::NoAction || (posture.dmarc->0.policy
                == DmarcPolicy::Quarantine && posture.dmarc->0.pct < 100) {
                1int
            } else {
                0
            }) + (if posture.dmarc->0.rua is None && posture.dmarc->0.ruf is None {
                1int
            } else {
                0
            }) + (if (posture.dmarc->0.adkim != AlignmentMode::Strict || posture.dmarc->0.aspf
                != AlignmentMode::Strict) && (posture.spf is None || (posture.spf->0.qualifier
                != SpfQualifier::Fail && posture.spf->0.qualifier != SpfQualifier::Missing)) {
                1int
            } else {
                0
            })
        }) + (if posture.spf is None || (posture.spf->0.qualifier != SpfQualifier::Fail
            && posture.spf->0.qualifier != SpfQualifier::Missing) {
            1int
        } else {
            0
        }) + (if has_long_key(posture.dkim_keys) {
            0int
        } else {
            1
        }),
{
}

/// A list of remediations holds one of a severity with a description.
pub open spec fn advises(
    list: Seq<RemediationView>,
    severity: RiskLevel,
    description: Seq<char>,
) -> bool {
    exists|i: int|
        0 <= i < list.len() && (#[trigger] list[i]).severity == severity && list[i].description
            == description
}

proof fn lemma_advises(posture: PostureView, part: Seq<Finding>, offset: int, i: int)
    requires
        0 <= offset,
        offset + part.len() <= findings(posture).len(),
        0 <= i < part.len(),
        forall|k: int| 0 <= k < part.len() ==> findings(posture)[offset + k] == #[trigger] part[k],
    ensures
        advises(
            remediations(findings(posture)),
            part[i].remediation.severity,
            part[i].remediation.description,
        ),
{
    let list = remediations(findings(posture));
    assert(findings(posture)[offset + i] == part[i]);
    assert(list[offset + i] == part[i].remediation);
}

/// What is wrong with DMARC is described and graded: critical where there is no record, high for a
/// policy of `none`, medium for the rest.
pub proof fn law_dmarc_faults_are_described(posture: PostureView)
    ensures
        ({
            let list = remediations(findings(posture));
            let d = posture.dmarc;
            &&& d is None ==> list[0].severity == RiskLevel::Critical && list[0].description
                == "No DMARC record found. The domain has zero spoofing protection at the policy level."@
            &&& d is Some && d->0.policy == DmarcPolicy::NoAction ==> advises(
                list,
                RiskLevel::High,
                "DMARC policy is 'none'. Mail servers will not reject or quarantine spoofed messages."@,
            )
            &&& d is Some && d->0.policy == DmarcPolicy::Quarantine && d->0.pct < 100 ==> advises(
                list,
                RiskLevel::Medium,
                "DMARC pct="@ + decimal(d->0.pct as nat) + " means only "@ + decimal(
                    d->0.pct as nat,
                ) + "% of failing mail is quarantined. Increase to 100."@,
            )
            &&& d is Some && d->0.rua is None && d->0.ruf is None ==> advises(
                list,
                RiskLevel::Medium,
                "DMARC record has no rua or ruf reporting URIs. You cannot see who is spoofing your domain."@,
            )
            &&& d is Some && (d->0.adkim != AlignmentMode::Strict || d->0.aspf
                != AlignmentMode::Strict) && (posture.spf is None || (posture.spf->0.qualifier
                != SpfQualifier::Fail && posture.spf->0.qualifier != SpfQualifier::Missing))
                ==> advises(
                list,
                RiskLevel::Medium,
                "Relaxed DKIM/SPF alignment combined with a weak SPF policy allows cousin-domain spoofing."@,
            )
        }),
{
    if let Some(record) = posture.dmarc {
        let all = dmarc_findings(posture.domain, posture.dmarc, posture.spf);
        let a = policy_findings(posture.domain, record);
        let b = report_findings(posture.domain, record);
        let c = alignment_findings(record, posture.spf);
        assert(forall|k: int| 0 <= k < all.len() ==> findings(posture)[0 + k] == #[trigger] all[k]);
        if a.len() > 0 {
            assert(all[0] == a[0]);
            lemma_advises(posture, all, 0, 0);
        }
        if b.len() > 0 {
            assert(all[a.len() as int] == b[0]);
            lemma_advises(posture, all, 0, a.len() as int);
        }
        if c.len() > 0 {
            assert(all[(a.len() + b.len()) as int] == c[0]);
            lemma_advises(posture, all, 0, (a.len() + b.len()) as int);
        }
    }
}

/// What is wrong with SPF is described and graded: critical where everyone passes, high where there
/// is no record or it is neutral, medium for a soft failure.
pub proof fn law_spf_faults_are_described(posture: PostureView)
    ensures
        ({
            let list = remediations(findings(posture));
            let s = posture.spf;
            &&& s is None ==> advises(
                list,
                RiskLevel::High,
                "No SPF record. Any IP can claim to send mail for this domain."@,
            )
            &&& s is Some && s->0.qualifier == SpfQualifier::Pass ==> advises(
                list,
                RiskLevel::Critical,
                "SPF +all authorizes every IP on the internet to send as this domain."@,
            )
            &&& s is Some && s->0.qualifier == SpfQualifier::Neutral ==> advises(
                list,
                RiskLevel::High,
                "SPF ?all treats unauthorized senders as neutral — most filters will not block spoofed mail."@,
            )
            &&& s is Some && s->0.qualifier == SpfQualifier::SoftFail ==> advises(
                list,
                RiskLevel::Medium,
                "SPF ~all (softfail) tags unauthorized mail but does not reject it. Upgrade to -all when ready."@,
            )
        }),
{
    let d = dmarc_findings(posture.domain, posture.dmarc, posture.spf);
    let part = spf_findings(posture.domain, posture.spf);
    assert(forall|k: int|
        0 <= k < part.len() ==> findings(posture)[d.len() + k] == #[trigger] part[k]);
    if part.len() > 0 {
        lemma_advises(posture, part, d.len() as int, 0);
    }
}

/// What is wrong with DKIM is described and graded, behind everything else: high where there is no
/// key, medium where every key is short.
pub proof fn law_dkim_faults_are_described(posture: PostureView)
    ensures
        ({
            let list = remediations(findings(posture));
            &&& posture.dkim_keys.len() == 0 ==> list.last().severity == RiskLevel::High
                && list.last().description
                == "No DKIM keys discovered across 15 common selectors. DKIM signing may not be configured."@
            &&& posture.dkim_keys.len() > 0 && !has_long_key(posture.dkim_keys)
                ==> list.last().severity == RiskLevel::Medium && list.last().description
                == "All discovered DKIM keys appear to be under 1024 bits. Use 2048-bit RSA minimum."@
        }),
{
    let part = dkim_findings(posture.domain, posture.dkim_keys);
    if part.len() > 0 {
        assert(findings(posture).last() == part[0]);
    }
}

/// Advice that names no record to publish says what to change in the one that is there.
pub proof fn law_advice_names_the_change(domain: Seq<char>, pct: u8)
    ensures
        partial_quarantine(pct).remediation.dns_fix == "Amend pct=100 in existing DMARC record."@,
        partial_quarantine(pct).remediation.bind_command
            == "Update the pct tag in your existing _dmarc TXT record to pct=100."@,
        partial_quarantine(pct).remediation.ps_command
            == partial_quarantine(pct).remediation.bind_command,
        no_reports(domain).remediation.dns_fix == "Add rua=mailto:dmarc-agg@"@ + domain
            + "; ruf=mailto:dmarc-forensic@"@ + domain,
        no_reports(domain).remediation.bind_command
            == "Add rua= and ruf= tags to existing DMARC TXT record."@,
        no_reports(domain).remediation.ps_command == no_reports(domain).remediation.bind_command,
        loose_alignment().remediation.dns_fix
            == "Set adkim=s; aspf=s in DMARC record for strict alignment."@,
        loose_alignment().remediation.bind_command
            == "Update adkim and aspf tags to 's' in existing DMARC TXT record."@,
        loose_alignment().remediation.ps_command == loose_alignment().remediation.bind_command,
        spf_neutral().remediation.dns_fix == "Change ?all to -all in SPF record."@,
        spf_neutral().remediation.bind_command == "Change ?all to -all in existing SPF TXT record."@,
        spf_neutral().remediation.ps_command == spf_neutral().remediation.bind_command,
        spf_softfail().remediation.dns_fix == "Change ~all to -all in SPF record."@,
        spf_softfail().remediation.bind_command == "Change ~all to -all in existing SPF TXT record."@,
        spf_softfail().remediation.ps_command == spf_softfail().remediation.bind_command,
        no_dkim(domain).remediation.dns_fix
            == "Generate a DKIM keypair and publish the public key at <selector>._domainkey.<domain>."@,
        no_dkim(domain).remediation.bind_command == "default._domainkey."@ + domain
            + ". IN TXT \"v=DKIM1; k=rsa; p=<base64-public-key>\""@,
        no_dkim(domain).remediation.ps_command == "Add-DnsServerResourceRecord -ZoneName \""@
            + domain
            + "\" -Name \"default._domainkey\" -Txt -DescriptiveText \"v=DKIM1; k=rsa; p=<base64-public-key>\""@,
        weak_dkim().remediation.dns_fix == "Regenerate DKIM keypair with 2048-bit RSA."@,
        weak_dkim().remediation.bind_command == "Regenerate DKIM keypair and update TXT record."@,
        weak_dkim().remediation.ps_command == weak_dkim().remediation.bind_command,
        spf_pass(domain).remediation.dns_fix == "v=spf1 <your-mechanisms> -all"@,
{
}

} // verus!
