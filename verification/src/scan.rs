//! The assessment of a domain: what is asked for, and how the parts come together.

use crate::analyzer::{
    findings, law_points_add_up, remediations, risk_level, risk_score, score,
};
use crate::models::{
    DkimKey, DkimKeyView, DmarcPolicy, DmarcRecord, DmarcRecordView, DomainPosture, PostureView,
    QueryMeta, QueryMetaView, RiskLevel, SmtpHandshakeResult, SmtpHandshakeResultView, SpfRecord,
    SpfRecordView, SpoofTestResultView,
};
use crate::parser::{dmarc_record, parse_dmarc, parse_spf, spf_record};
use crate::spoof::{
    correlate_theory, law_comparison_follows_policy, simulate_spoof, simulation, theory,
};
use crate::text::{
    blank, law_case_changes_letters, law_trim_drops_blank_ends, lower_text, lowercase, trim,
    trimmed, white_space,
};
use vstd::prelude::*;
use vstd::utf8::is_ascii_chars;

verus! {

broadcast use vstd::string::group_string_axioms;

// ─── What is asked for ─────────────────────────────────────────────

/// What a call of the program asks for.
#[derive(Debug)]
pub enum Mode {
    /// Analyse the headers of the mail in a file.
    File(String),
    /// Analyse the headers given.
    Header(String),
    /// Assess a domain.
    Domain(String),
    /// Nothing that can be done.
    Nothing,
}

/// The view of a `Mode`.
pub enum ModeView {
    File(Seq<char>),
    Header(Seq<char>),
    Domain(Seq<char>),
    Nothing,
}

impl View for Mode {
    type V = ModeView;

    open spec fn view(&self) -> ModeView {
        match self {
            Mode::File(path) => ModeView::File(path@),
            Mode::Header(text) => ModeView::Header(text@),
            Mode::Domain(name) => ModeView::Domain(name@),
            Mode::Nothing => ModeView::Nothing,
        }
    }
}

/// A domain as it is looked up: without white space around it, in lower case.
pub open spec fn normal_domain(name: Seq<char>) -> Seq<char> {
    lower_text(trimmed(name))
}

/// A file comes before a header, and a header before a domain.
pub open spec fn mode_of(
    file: Option<Seq<char>>,
    header: Option<Seq<char>>,
    domain: Option<Seq<char>>,
) -> ModeView {
    match file {
        Some(path) => ModeView::File(path),
        None => match header {
            Some(text) => ModeView::Header(text),
            None => match domain {
                Some(name) => ModeView::Domain(normal_domain(name)),
                None => ModeView::Nothing,
            },
        },
    }
}

/// Decides what is asked for.
pub fn choose_mode(file: Option<String>, header: Option<String>, domain: Option<String>) -> (mode:
    Mode)
    ensures
        mode@ == mode_of(file.deep_view(), header.deep_view(), domain.deep_view()),
{
    match file {
        Some(path) => Mode::File(path),
        None => match header {
            Some(text) => Mode::Header(text),
            None => match domain {
                Some(name) => Mode::Domain(lowercase(trim(name.as_str()).as_str())),
                None => Mode::Nothing,
            },
        },
    }
}

// ─── The assessment ────────────────────────────────────────────────

/// The SPF record that a domain publishes.
pub open spec fn read_spf(raw: Option<Seq<char>>) -> Option<SpfRecordView> {
    match raw {
        Some(text) => Some(spf_record(text)),
        None => None,
    }
}

/// The DMARC record that a domain publishes.
pub open spec fn read_dmarc(raw: Option<Seq<char>>) -> Option<DmarcRecordView> {
    match raw {
        Some(text) => Some(dmarc_record(text)),
        None => None,
    }
}

/// What was found out about a domain before it is scored.
pub open spec fn gathered(
    domain: Seq<char>,
    timestamp: Seq<char>,
    raw_spf: Option<Seq<char>>,
    raw_dmarc: Option<Seq<char>>,
    dkim_keys: Seq<DkimKeyView>,
    query_log: Seq<QueryMetaView>,
) -> PostureView {
    PostureView {
        domain,
        timestamp,
        raw_spf,
        raw_dmarc,
        spf: read_spf(raw_spf),
        dmarc: read_dmarc(raw_dmarc),
        dkim_keys,
        risk_score: 0,
        risk_level: RiskLevel::Low,
        remediations: Seq::empty(),
        query_log,
        spoof_results: Seq::empty(),
        smtp_handshake: None,
    }
}

/// A domain with its score.
pub open spec fn scored(posture: PostureView) -> PostureView {
    PostureView {
        risk_score: risk_score(posture) as u8,
        risk_level: risk_level(risk_score(posture)),
        remediations: remediations(findings(posture)),
        ..posture
    }
}

/// A domain with the predicted fate of spoofed mail, where it was asked for.
pub open spec fn predicted(posture: PostureView, spoof_test: bool) -> PostureView {
    if spoof_test {
        PostureView { spoof_results: simulation(posture), ..posture }
    } else {
        posture
    }
}

/// A domain with the outcome of a handshake, compared with the prediction.
pub open spec fn tested(posture: PostureView, handshake: SmtpHandshakeResultView) -> PostureView {
    PostureView {
        smtp_handshake: Some(
            SmtpHandshakeResultView {
                theory_match: Some(
                    theory(posture.spoof_results, handshake.delivered, handshake.dropped_at),
                ),
                ..handshake
            },
        ),
        ..posture
    }
}

fn parse_raw_spf(raw: &Option<String>) -> (record: Option<SpfRecord>)
    ensures
        record.deep_view() == read_spf(raw.deep_view()),
{
    match raw {
        Some(text) => Some(parse_spf(text.as_str())),
        None => None,
    }
}

fn parse_raw_dmarc(raw: &Option<String>) -> (record: Option<DmarcRecord>)
    ensures
        record.deep_view() == read_dmarc(raw.deep_view()),
{
    match raw {
        Some(text) => Some(parse_dmarc(text.as_str())),
        None => None,
    }
}

/// Puts the query log together: SPF, DMARC, then DKIM.
pub fn merge_log(spf: QueryMeta, dmarc: QueryMeta, dkim: Vec<QueryMeta>) -> (log: Vec<QueryMeta>)
    ensures
        log.deep_view() == seq![spf@, dmarc@] + dkim.deep_view(),
{
    let mut log: Vec<QueryMeta> = Vec::new();
    let mut rest = dkim;
    log.push(spf);
    log.push(dmarc);
    log.append(&mut rest);
    assert(log.deep_view() =~= seq![spf@, dmarc@] + dkim.deep_view());
    log
}

/// Assesses a domain from what DNS says of it: reads the records, scores them, and, where asked
/// to, predicts what becomes of spoofed mail.
pub fn assess(
    domain: &str,
    timestamp: String,
    raw_spf: Option<String>,
    raw_dmarc: Option<String>,
    dkim_keys: Vec<DkimKey>,
    query_log: Vec<QueryMeta>,
    spoof_test: bool,
) -> (posture: DomainPosture)
    ensures
        posture@ == predicted(
            scored(
                gathered(
                    domain@,
                    timestamp@,
                    raw_spf.deep_view(),
                    raw_dmarc.deep_view(),
                    dkim_keys.deep_view(),
                    query_log.deep_view(),
                ),
            ),
            spoof_test,
        ),
{
    let ghost found = gathered(
        domain@,
        timestamp@,
        raw_spf.deep_view(),
        raw_dmarc.deep_view(),
        dkim_keys.deep_view(),
        query_log.deep_view(),
    );
    let spf = parse_raw_spf(&raw_spf);
    let dmarc = parse_raw_dmarc(&raw_dmarc);
    let mut posture = DomainPosture {
        domain: domain.to_string(),
        timestamp,
        raw_spf,
        raw_dmarc,
        spf,
        dmarc,
        dkim_keys,
        risk_score: 0,
        risk_level: RiskLevel::Low,
        remediations: Vec::new(),
        query_log,
        spoof_results: Vec::new(),
        smtp_handshake: None,
    };
    assert(posture.remediations.deep_view() =~= Seq::empty());
    assert(posture.spoof_results.deep_view() =~= Seq::empty());
    assert(posture@ == found);
    let (points, level, fixes) = score(&posture);
    posture.risk_score = points;
    posture.risk_level = level;
    posture.remediations = fixes;
    assert(posture@ == scored(found));
    if spoof_test {
        posture.spoof_results = simulate_spoof(&posture);
    }
    posture
}

/// Adds the outcome of a handshake, compared with the prediction.
pub fn conclude(posture: DomainPosture, handshake: SmtpHandshakeResult) -> (r: DomainPosture)
    ensures
        r@ == tested(posture@, handshake@),
{
    let mut posture = posture;
    let mut handshake = handshake;
    correlate_theory(&posture, &mut handshake);
    posture.smtp_handshake = Some(handshake);
    posture
}

// ─── Laws ──────────────────────────────────────────────────────────

/// The score, level and remediations of an assessed domain are those of the domain as it stands,
/// after the prediction and after a handshake too.
pub proof fn law_assessment_agrees_with_itself(
    found: PostureView,
    spoof_test: bool,
    handshake: SmtpHandshakeResultView,
)
    ensures
        ({
            let posture = predicted(scored(found), spoof_test);
            &&& posture.risk_score == risk_score(posture)
            &&& posture.risk_level == risk_level(risk_score(posture))
            &&& posture.remediations == remediations(findings(posture))
            &&& scored(posture) == posture
            &&& scored(tested(posture, handshake)) == tested(posture, handshake)
        }),
{
    law_points_add_up(found);
}

/// Without a spoof test nothing is predicted, and the domain is left as it was scored.
pub proof fn law_no_test_no_prediction(
    domain: Seq<char>,
    timestamp: Seq<char>,
    raw_spf: Option<Seq<char>>,
    raw_dmarc: Option<Seq<char>>,
    dkim_keys: Seq<DkimKeyView>,
    query_log: Seq<QueryMetaView>,
)
    ensures
        ({
            let found = gathered(domain, timestamp, raw_spf, raw_dmarc, dkim_keys, query_log);
            let posture = predicted(scored(found), false);
            &&& posture.spoof_results.len() == 0
            &&& posture.smtp_handshake is None
            &&& posture == scored(found)
        }),
{
}

/// A live test of a domain that asks for rejection reports a mismatch exactly where the message
/// was taken.
pub proof fn law_rejecting_domain_unmasks_server(
    found: PostureView,
    handshake: SmtpHandshakeResultView,
)
    requires
        found.dmarc is Some,
        found.dmarc->0.policy == DmarcPolicy::Reject,
    ensures
        ({
            let posture = tested(predicted(scored(found), true), handshake);
            let comparison = posture.smtp_handshake->0.theory_match->0;
            "MISMATCH"@.is_prefix_of(comparison) <==> handshake.delivered
        }),
{
    let posture = predicted(scored(found), true);
    law_comparison_follows_policy(scored(found), DmarcPolicy::Reject, handshake.dropped_at);
    let comparison = theory(posture.spoof_results, handshake.delivered, handshake.dropped_at);
    reveal_strlit("MISMATCH");
    if handshake.delivered {
        reveal_strlit("MISMATCH: Theory predicted REJECT, but the SMTP server accepted the message. The target MTA may not enforce DMARC/SPF, or this is a testing sink (Mailpit/MailHog).");
        assert(comparison.subrange(0, 8) =~= "MISMATCH"@);
    } else {
        reveal_strlit("MATCH: Theory predicted REJECT. Server dropped the connection at phase: ");
        assert(comparison.subrange(0, 8)[1] == comparison[1]);
    }
}

/// A file is analysed whatever else is asked for, a header wherever there is no file, and a domain
/// only where there is neither; without any of them there is nothing to do.
pub proof fn law_file_before_header_before_domain(
    path: Seq<char>,
    text: Seq<char>,
    name: Seq<char>,
    header: Option<Seq<char>>,
    domain: Option<Seq<char>>,
)
    ensures
        mode_of(Some(path), header, domain) == ModeView::File(path),
        mode_of(None, Some(text), domain) == ModeView::Header(text),
        mode_of(None, None, Some(name)) is Domain,
        mode_of(None, None, None) is Nothing,
{
}

/// A domain is looked up without the white space around it and with its letters in lower case.
pub proof fn law_domain_is_trimmed_and_lowered(
    front: Seq<char>,
    name: Seq<char>,
    back: Seq<char>,
    i: int,
)
    requires
        blank(front),
        blank(back),
        is_ascii_chars(name),
        0 <= i < name.len(),
        !white_space(name[0]),
        !white_space(name.last()),
    ensures
        ({
            let mode = mode_of(None, None, Some(front + name + back));
            &&& mode->Domain_0.len() == name.len()
            &&& 'A' <= name[i] <= 'Z' ==> mode->Domain_0[i] as int == name[i] as int + 32
            &&& !('A' <= name[i] <= 'Z') ==> mode->Domain_0[i] == name[i]
        }),
{
    law_trim_drops_blank_ends(front, name, back);
    law_case_changes_letters(name, i);
}

/// An assessment keeps what was found, reads each record from its own text, and scores what it
/// found; it holds no handshake.
pub proof fn law_assessment_keeps_what_was_found(
    domain: Seq<char>,
    timestamp: Seq<char>,
    raw_spf: Option<Seq<char>>,
    raw_dmarc: Option<Seq<char>>,
    dkim_keys: Seq<DkimKeyView>,
    query_log: Seq<QueryMetaView>,
    spoof_test: bool,
)
    ensures
        ({
            let found = gathered(domain, timestamp, raw_spf, raw_dmarc, dkim_keys, query_log);
            let posture = predicted(scored(found), spoof_test);
            &&& posture.domain == domain
            &&& posture.timestamp == timestamp
            &&& posture.raw_spf == raw_spf
            &&& posture.raw_dmarc == raw_dmarc
            &&& posture.dkim_keys == dkim_keys
            &&& posture.query_log == query_log
            &&& posture.smtp_handshake is None
            &&& posture.spf is Some <==> raw_spf is Some
            &&& raw_spf is Some ==> posture.spf->0 == spf_record(raw_spf->0)
            &&& posture.dmarc is Some <==> raw_dmarc is Some
            &&& raw_dmarc is Some ==> posture.dmarc->0 == dmarc_record(raw_dmarc->0)
            &&& posture.risk_score == risk_score(posture)
            &&& posture.risk_level == risk_level(risk_score(posture))
            &&& posture.remediations == remediations(findings(posture))
            &&& spoof_test ==> posture.spoof_results == simulation(posture)
            &&& !spoof_test ==> posture.spoof_results == Seq::<SpoofTestResultView>::empty()
        }),
{
    let found = gathered(domain, timestamp, raw_spf, raw_dmarc, dkim_keys, query_log);
    law_points_add_up(found);
    assert(simulation(scored(found)) == simulation(predicted(scored(found), spoof_test)));
}

/// A handshake is kept as it went; only the comparison with the prediction is added, and nothing
/// else about the domain changes.
pub proof fn law_handshake_is_kept(posture: PostureView, handshake: SmtpHandshakeResultView)
    ensures
        ({
            let after = tested(posture, handshake);
            let kept = after.smtp_handshake->0;
            &&& after.smtp_handshake is Some
            &&& kept.target_host == handshake.target_host
            &&& kept.target_port == handshake.target_port
            &&& kept.spoofed_domain == handshake.spoofed_domain
            &&& kept.steps == handshake.steps
            &&& kept.delivered == handshake.delivered
            &&& kept.dropped_at == handshake.dropped_at
            &&& kept.theory_match is Some
            &&& kept.theory_match->0 == theory(
                posture.spoof_results,
                handshake.delivered,
                handshake.dropped_at,
            )
            &&& (PostureView { smtp_handshake: posture.smtp_handshake, ..after }) == posture
        }),
{
}

} // verus!
