//! The report on a domain as the terminal shows it.

use crate::models::{
    DkimKey, DkimKeyView, DmarcPolicy, DmarcRecord, DmarcRecordView, DomainPosture, PostureView,
    QueryMeta, QueryMetaView, Remediation, RemediationView, RiskLevel, SmtpHandshakeResult,
    SmtpHandshakeResultView, SmtpPhase, SmtpStep, SmtpStepView, SpfRecord, SpfRecordView,
    SpoofTestResult, SpoofTestResultView,
};
use crate::page::{field, heading, plain, span, Page, SpanView, Style};
use crate::spoof::{
    final_stage, lemma_absent, lemma_dropped, lemma_rejected, lemma_spam, name_phase, phase_label,
    predicts_reject, predicts_spam, theory,
};
use crate::text::{
    cat2, cat3, contains, debug_list, decimal, law_shortened_is_a_prefix, lines, occurs_at, occurs_in, same, shorten, shortened,
    split_lines, starts_with, to_debug_list, to_decimal, upper_text, uppercase,
};
use vstd::prelude::*;

verus! {

broadcast use vstd::string::group_string_axioms;

/// The rule above and below the report.
pub open spec fn bar() -> Seq<char> {
    "════════════════════════════════════════════════════════════"@
}

fn rule() -> (s: &'static str)
    ensures
        s@ == bar(),
{
    "════════════════════════════════════════════════════════════"
}

/// A tick or a cross.
pub open spec fn tick(good: bool) -> Seq<char> {
    if good {
        "✓"@
    } else {
        "✗"@
    }
}

fn mark(good: bool) -> (s: &'static str)
    ensures
        s@ == tick(good),
{
    if good {
        "✓"
    } else {
        "✗"
    }
}

// ─── The summary ───────────────────────────────────────────────────

/// The two lines above the report.
pub open spec fn summary(posture: PostureView) -> Seq<SpanView> {
    seq![
        plain("EMAIL SECURITY POSTURE: "@ + upper_text(posture.domain)),
        plain("\n"@),
        plain(
            "Risk Score: "@ + decimal(posture.risk_score as nat) + "% ("@
                + posture.risk_level.label() + ")"@,
        ),
        plain("\n"@),
    ]
}

/// Writes the two lines above the report.
pub fn summarize(posture: &DomainPosture) -> (page: Page)
    ensures
        page@ == summary(posture@),
{
    let mut page = Page::new();
    let upper = uppercase(posture.domain.as_str());
    page.say(cat2("EMAIL SECURITY POSTURE: ", upper.as_str()).as_str());
    page.say("\n");
    let mut line = cat3("Risk Score: ", to_decimal(posture.risk_score as u64).as_str(), "% (");
    line.append(posture.risk_level.to_string().as_str());
    line.append(")");
    page.say(line.as_str());
    page.say("\n");
    assert(page@ =~= summary(posture@));
    page
}

// ─── Banner and score ──────────────────────────────────────────────

/// The domain between two rules.
pub open spec fn banner(domain: Seq<char>) -> Seq<SpanView> {
    seq![
        plain("\n"@),
        span(Style::Cyan, bar()),
        plain("\n"@),
        span(Style::CyanBold, "  EMAIL SECURITY POSTURE: "@ + upper_text(domain)),
        plain("\n"@),
        span(Style::Cyan, bar()),
        plain("\n"@),
    ]
}

/// Green for a low score, yellow for a medium one, red above.
pub open spec fn score_style(score: u8) -> Style {
    if score <= 29 {
        Style::GreenBold
    } else if score <= 59 {
        Style::YellowBold
    } else {
        Style::RedBold
    }
}

/// The score and its level.
pub open spec fn score_section(score: u8, level: RiskLevel) -> Seq<SpanView> {
    seq![
        plain("\n  "@),
        span(Style::Bold, "Risk Score:"@),
        plain(" "@),
        span(score_style(score), decimal(score as nat) + "%"@),
        plain("\n"@),
        plain("  "@),
        span(Style::Bold, "Risk Level:"@),
        plain(" "@),
        span(Style::Bold, level.label()),
        plain("\n"@),
    ]
}

fn show_banner(page: &mut Page, domain: &str)
    ensures
        final(page)@ == old(page)@ + banner(domain@),
{
    let upper = uppercase(domain);
    page.say("\n");
    page.put(Style::Cyan, rule());
    page.say("\n");
    page.put(Style::CyanBold, cat2("  EMAIL SECURITY POSTURE: ", upper.as_str()).as_str());
    page.say("\n");
    page.put(Style::Cyan, rule());
    page.say("\n");
    assert(page@ =~= old(page)@ + banner(domain@));
}

fn show_score(page: &mut Page, score: u8, level: RiskLevel)
    ensures
        final(page)@ == old(page)@ + score_section(score, level),
{
    let style = if score <= 29 {
        Style::GreenBold
    } else if score <= 59 {
        Style::YellowBold
    } else {
        Style::RedBold
    };
    page.say("\n  ");
    page.put(Style::Bold, "Risk Score:");
    page.say(" ");
    page.put(style, cat2(to_decimal(score as u64).as_str(), "%").as_str());
    page.say("\n");
    page.say("  ");
    page.put(Style::Bold, "Risk Level:");
    page.say(" ");
    page.put(Style::Bold, level.to_string().as_str());
    page.say("\n");
    assert(page@ =~= old(page)@ + score_section(score, level));
}

// ─── SPF, DMARC and DKIM ───────────────────────────────────────────

/// What is shown where a record is missing.
pub open spec fn not_found() -> Seq<SpanView> {
    field("  "@, Style::RedBold, "NOT FOUND"@)
}

/// A line that is shown only in a verbose report.
pub open spec fn verbose_field(verbose: bool, name: Seq<char>, text: Seq<char>) -> Seq<SpanView> {
    if verbose {
        field(name, Style::Dim, text)
    } else {
        seq![]
    }
}

/// The SPF record.
pub open spec fn spf_section(spf: Option<SpfRecordView>, verbose: bool) -> Seq<SpanView> {
    heading("── SPF ──────────────────────────────────"@) + match spf {
        Some(record) => field("  Policy:     "@, Style::Plain, record.qualifier.label()) + field(
            "  Mechanisms: "@,
            Style::Plain,
            debug_list(record.mechanisms),
        ) + verbose_field(verbose, "  Raw:        "@, record.raw),
        None => not_found(),
    }
}

/// A text, or a note that there is none.
pub open spec fn or_unset(text: Option<Seq<char>>) -> Seq<char> {
    match text {
        Some(t) => t,
        None => "(not set)"@,
    }
}

/// The DMARC record.
pub open spec fn dmarc_section(dmarc: Option<DmarcRecordView>, verbose: bool) -> Seq<SpanView> {
    heading("── DMARC ────────────────────────────────"@) + match dmarc {
        Some(record) => field("  Policy:     "@, Style::Plain, record.policy.label()) + field(
            "  PCT:        "@,
            Style::Plain,
            decimal(record.pct as nat) + "%"@,
        ) + field("  DKIM Align: "@, Style::Plain, record.adkim.label()) + field(
            "  SPF Align:  "@,
            Style::Plain,
            record.aspf.label(),
        ) + field("  RUA:        "@, Style::Plain, or_unset(record.rua)) + field(
            "  RUF:        "@,
            Style::Plain,
            or_unset(record.ruf),
        ) + verbose_field(verbose, "  Raw:        "@, record.raw),
        None => not_found(),
    }
}

/// One DKIM key.
pub open spec fn key_line(key: DkimKeyView) -> Seq<SpanView> {
    seq![
        plain("  ["@),
        span(Style::Green, key.selector),
        plain("] type="@),
        plain(key.key_type),
        plain(", ~"@),
        plain(decimal(key.key_bits_approx as nat)),
        plain(" bits "@),
        plain(tick(key.valid_syntax)),
        plain("\n"@),
    ]
}

/// The DKIM keys.
pub open spec fn dkim_section(keys: Seq<DkimKeyView>) -> Seq<SpanView> {
    heading("── DKIM ─────────────────────────────────"@) + if keys.len() == 0 {
        field("  "@, Style::RedBold, "No valid DKIM keys discovered."@)
    } else {
        keys.flat_map(|key: DkimKeyView| key_line(key))
    }
}

fn show_if_verbose(page: &mut Page, verbose: bool, name: &str, text: &str)
    ensures
        final(page)@ == old(page)@ + verbose_field(verbose, name@, text@),
{
    if verbose {
        page.show(name, Style::Dim, text);
    }
    assert(!verbose ==> page@ =~= old(page)@ + verbose_field(verbose, name@, text@));
}

fn show_spf(page: &mut Page, spf: &Option<SpfRecord>, verbose: bool)
    ensures
        final(page)@ == old(page)@ + spf_section(spf.deep_view(), verbose),
{
    page.head("── SPF ──────────────────────────────────");
    match spf {
        Some(record) => {
            page.show("  Policy:     ", Style::Plain, record.qualifier.to_string().as_str());
            page.show(
                "  Mechanisms: ",
                Style::Plain,
                to_debug_list(&record.mechanisms).as_str(),
            );
            show_if_verbose(page, verbose, "  Raw:        ", record.raw.as_str());
        },
        None => page.show("  ", Style::RedBold, "NOT FOUND"),
    }
    assert(page@ =~= old(page)@ + spf_section(spf.deep_view(), verbose));
}

fn text_or_unset(text: &Option<String>) -> (s: String)
    ensures
        s@ == or_unset(text.deep_view()),
{
    match text {
        Some(t) => t.clone(),
        None => "(not set)".to_owned(),
    }
}

fn show_dmarc(page: &mut Page, dmarc: &Option<DmarcRecord>, verbose: bool)
    ensures
        final(page)@ == old(page)@ + dmarc_section(dmarc.deep_view(), verbose),
{
    page.head("── DMARC ────────────────────────────────");
    match dmarc {
        Some(record) => {
            page.show("  Policy:     ", Style::Plain, record.policy.to_string().as_str());
            let pct = cat2(to_decimal(record.pct as u64).as_str(), "%");
            page.show("  PCT:        ", Style::Plain, pct.as_str());
            page.show("  DKIM Align: ", Style::Plain, record.adkim.to_string().as_str());
            page.show("  SPF Align:  ", Style::Plain, record.aspf.to_string().as_str());
            page.show("  RUA:        ", Style::Plain, text_or_unset(&record.rua).as_str());
            page.show("  RUF:        ", Style::Plain, text_or_unset(&record.ruf).as_str());
            show_if_verbose(page, verbose, "  Raw:        ", record.raw.as_str());
        },
        None => page.show("  ", Style::RedBold, "NOT FOUND"),
    }
    assert(page@ =~= old(page)@ + dmarc_section(dmarc.deep_view(), verbose));
}

fn show_key(page: &mut Page, key: &DkimKey)
    ensures
        final(page)@ == old(page)@ + key_line(key@),
{
    page.say("  [");
    page.put(Style::Green, key.selector.as_str());
    page.say("] type=");
    page.say(key.key_type.as_str());
    page.say(", ~");
    page.say(to_decimal(key.key_bits_approx as u64).as_str());
    page.say(" bits ");
    page.say(mark(key.valid_syntax));
    page.say("\n");
    assert(page@ =~= old(page)@ + key_line(key@));
}

fn show_dkim(page: &mut Page, keys: &Vec<DkimKey>)
    ensures
        final(page)@ == old(page)@ + dkim_section(keys.deep_view()),
{
    page.head("── DKIM ─────────────────────────────────");
    let ghost start = page@;
    let ghost all = keys.deep_view();
    let ghost f = |key: DkimKeyView| key_line(key);
    if keys.is_empty() {
        page.show("  ", Style::RedBold, "No valid DKIM keys discovered.");
    } else {
        assert(start =~= start + all.take(0).flat_map(f));
        for i in 0..keys.len()
            invariant
                all == keys.deep_view(),
                f == (|key: DkimKeyView| key_line(key)),
                page@ == start + all.take(i as int).flat_map(f),
        {
            show_key(page, &keys[i]);
            proof {
                all.lemma_flat_map_take_append(f, i as int);
                assert(page@ =~= start + all.take(i + 1).flat_map(f));
            }
        }
        assert(all.take(keys.len() as int) =~= all);
    }
    assert(page@ =~= old(page)@ + dkim_section(keys.deep_view()));
}

// ─── The prediction ────────────────────────────────────────────────

/// Yellow where a check fails softly, red where it fails and green where it passes; otherwise green
/// where spoofed mail is turned away, yellow where it is set aside, and red where it goes through.
pub open spec fn verdict_style(verdict: Seq<char>) -> Style {
    if occurs_in(verdict, "SOFTFAIL"@) {
        Style::Yellow
    } else if occurs_in(verdict, "FAIL"@) {
        Style::Red
    } else if occurs_in(verdict, "PASS"@) {
        Style::Green
    } else if occurs_in(verdict, "REJECTED"@) || occurs_in(verdict, "DROPPED"@) {
        Style::Green
    } else if occurs_in(verdict, "SPAM"@) || occurs_in(verdict, "TAGGED"@) || occurs_in(
        verdict,
        "QUARANTINE"@,
    ) {
        Style::Yellow
    } else {
        Style::Red
    }
}

/// One stage of the prediction.
pub open spec fn spoof_entry(result: SpoofTestResultView, verbose: bool) -> Seq<SpanView> {
    seq![
        plain("  "@),
        span(Style::Bold, result.stage),
        plain(" → "@),
        span(verdict_style(result.verdict), result.verdict),
        plain("\n"@),
    ] + verbose_field(verbose, "    "@, result.detail)
}

/// The prediction.
pub open spec fn spoof_section(results: Seq<SpoofTestResultView>, verbose: bool) -> Seq<SpanView> {
    if results.len() == 0 {
        seq![]
    } else {
        heading("── SPOOF SIMULATION (PASSIVE) ────────────"@) + results.flat_map(
            |result: SpoofTestResultView| spoof_entry(result, verbose),
        )
    }
}

fn style_verdict(verdict: &str) -> (style: Style)
    ensures
        style == verdict_style(verdict@),
{
    if contains(verdict, "SOFTFAIL") {
        Style::Yellow
    } else if contains(verdict, "FAIL") {
        Style::Red
    } else if contains(verdict, "PASS") {
        Style::Green
    } else if contains(verdict, "REJECTED") || contains(verdict, "DROPPED") {
        Style::Green
    } else if contains(verdict, "SPAM") || contains(verdict, "TAGGED") || contains(
        verdict,
        "QUARANTINE",
    ) {
        Style::Yellow
    } else {
        Style::Red
    }
}

fn show_spoof_entry(page: &mut Page, result: &SpoofTestResult, verbose: bool)
    ensures
        final(page)@ == old(page)@ + spoof_entry(result@, verbose),
{
    page.say("  ");
    page.put(Style::Bold, result.stage.as_str());
    page.say(" → ");
    page.put(style_verdict(result.verdict.as_str()), result.verdict.as_str());
    page.say("\n");
    show_if_verbose(page, verbose, "    ", result.detail.as_str());
    assert(page@ =~= old(page)@ + spoof_entry(result@, verbose));
}

fn show_spoof(page: &mut Page, results: &Vec<SpoofTestResult>, verbose: bool)
    ensures
        final(page)@ == old(page)@ + spoof_section(results.deep_view(), verbose),
{
    if results.is_empty() {
        assert(page@ =~= old(page)@ + spoof_section(results.deep_view(), verbose));
        return;
    }
    page.head("── SPOOF SIMULATION (PASSIVE) ────────────");
    let ghost start = page@;
    let ghost all = results.deep_view();
    let ghost f = |result: SpoofTestResultView| spoof_entry(result, verbose);
    assert(start =~= start + all.take(0).flat_map(f));
    for i in 0..results.len()
        invariant
            all == results.deep_view(),
            f == (|result: SpoofTestResultView| spoof_entry(result, verbose)),
            page@ == start + all.take(i as int).flat_map(f),
    {
        show_spoof_entry(page, &results[i], verbose);
        proof {
            all.lemma_flat_map_take_append(f, i as int);
            assert(page@ =~= start + all.take(i + 1).flat_map(f));
        }
    }
    assert(all.take(results.len() as int) =~= all);
    assert(page@ =~= old(page)@ + spoof_section(results.deep_view(), verbose));
}

// ─── The handshake ─────────────────────────────────────────────────

/// Green for success, bold red for a permanent refusal, bold yellow for a temporary one, red
/// where there was no such reply.
pub open spec fn code_style(step: SmtpStepView) -> Style {
    if step.success {
        Style::Green
    } else if step.response_code >= 500 {
        Style::RedBold
    } else if step.response_code >= 400 {
        Style::YellowBold
    } else {
        Style::Red
    }
}

/// A line of a server's reply.
pub open spec fn reply_line(line: Seq<char>) -> Seq<SpanView> {
    field("    S: "@, Style::Dim, line)
}

/// A server's reply: all of it in a verbose report, else the beginning of its first line.
pub open spec fn reply_lines(text: Seq<char>, verbose: bool) -> Seq<SpanView> {
    if verbose {
        lines(text).flat_map(|line: Seq<char>| reply_line(line))
    } else if lines(text).len() > 0 {
        reply_line(shortened(lines(text)[0], 100))
    } else {
        seq![]
    }
}

/// What was sent to a server.
pub open spec fn command_line(command: Option<Seq<char>>) -> Seq<SpanView> {
    match command {
        Some(text) => field("    C: "@, Style::Cyan, text),
        None => seq![],
    }
}

/// One step of a handshake.
pub open spec fn step_entry(step: SmtpStepView, verbose: bool) -> Seq<SpanView> {
    seq![
        plain("  "@),
        span(Style::Bold, "["@ + step.phase.label() + "]"@),
        plain(" "@),
        span(code_style(step), decimal(step.response_code as nat)),
        plain(" "@),
        plain(tick(step.success)),
        plain("\n"@),
    ] + command_line(step.command_sent) + reply_lines(step.response_text, verbose)
}

/// How a handshake ended.
pub open spec fn result_line(hs: SmtpHandshakeResultView) -> Seq<SpanView> {
    if hs.delivered {
        field("  Result: "@, Style::RedBold, "MESSAGE ACCEPTED BY SERVER"@)
    } else {
        seq![
            plain("  Result: "@),
            span(Style::GreenBold, "CONNECTION DROPPED"@),
            plain(" at phase "@),
            span(Style::Bold, phase_label(hs.dropped_at)),
            plain("\n"@),
        ]
    }
}

/// Green where prediction and outcome agree, yellow where they do in part, red where not.
pub open spec fn theory_style(text: Seq<char>) -> Style {
    if "MATCH"@.is_prefix_of(text) {
        Style::Green
    } else if "PARTIAL"@.is_prefix_of(text) {
        Style::Yellow
    } else {
        Style::Red
    }
}

/// How a handshake compares with the prediction.
pub open spec fn theory_line(theory: Option<Seq<char>>) -> Seq<SpanView> {
    match theory {
        Some(text) => field("  Theory: "@, theory_style(text), text),
        None => seq![],
    }
}

/// The server and the domain of a handshake.
pub open spec fn target_lines(hs: SmtpHandshakeResultView) -> Seq<SpanView> {
    seq![
        plain("  Target: "@),
        span(Style::Bold, hs.target_host),
        plain(":"@),
        plain(decimal(hs.target_port as nat)),
        plain("\n"@),
    ] + field("  Spoofed Domain: "@, Style::Bold, hs.spoofed_domain)
}

/// The handshake.
pub open spec fn handshake_section(hs: Option<SmtpHandshakeResultView>, verbose: bool) -> Seq<
    SpanView,
> {
    match hs {
        Some(h) => heading("── SMTP HANDSHAKE (ACTIVE) ───────────────"@) + target_lines(h) + seq![
            plain("\n"@),
        ] + h.steps.flat_map(|step: SmtpStepView| step_entry(step, verbose)) + seq![plain("\n"@)]
            + result_line(h) + theory_line(h.theory_match),
        None => seq![],
    }
}

fn show_reply(page: &mut Page, text: &str, verbose: bool)
    ensures
        final(page)@ == old(page)@ + reply_lines(text@, verbose),
{
    let all = split_lines(text);
    let ghost start = page@;
    let ghost shown = all.deep_view();
    let ghost f = |line: Seq<char>| reply_line(line);
    if verbose {
        assert(start =~= start + shown.take(0).flat_map(f));
        for i in 0..all.len()
            invariant
                shown == all.deep_view(),
                f == (|line: Seq<char>| reply_line(line)),
                page@ == start + shown.take(i as int).flat_map(f),
        {
            page.show("    S: ", Style::Dim, all[i].as_str());
            proof {
                shown.lemma_flat_map_take_append(f, i as int);
                assert(page@ =~= start + shown.take(i + 1).flat_map(f));
            }
        }
        assert(shown.take(all.len() as int) =~= shown);
    } else if all.len() > 0 {
        assert(shown[0] == all@[0]@);
        page.show("    S: ", Style::Dim, shorten(all[0].as_str(), 100).as_str());
    }
    assert(page@ =~= start + reply_lines(text@, verbose));
}

fn show_step(page: &mut Page, step: &SmtpStep, verbose: bool)
    ensures
        final(page)@ == old(page)@ + step_entry(step@, verbose),
{
    let style = if step.success {
        Style::Green
    } else if step.response_code >= 500 {
        Style::RedBold
    } else if step.response_code >= 400 {
        Style::YellowBold
    } else {
        Style::Red
    };
    page.say("  ");
    page.put(Style::Bold, cat3("[", step.phase.to_string().as_str(), "]").as_str());
    page.say(" ");
    page.put(style, to_decimal(step.response_code as u64).as_str());
    page.say(" ");
    page.say(mark(step.success));
    page.say("\n");
    if let Some(command) = &step.command_sent {
        page.show("    C: ", Style::Cyan, command.as_str());
    }
    show_reply(page, step.response_text.as_str(), verbose);
    assert(page@ =~= old(page)@ + step_entry(step@, verbose));
}

fn show_result(page: &mut Page, hs: &SmtpHandshakeResult)
    ensures
        final(page)@ == old(page)@ + result_line(hs@),
{
    if hs.delivered {
        page.show("  Result: ", Style::RedBold, "MESSAGE ACCEPTED BY SERVER");
    } else {
        page.say("  Result: ");
        page.put(Style::GreenBold, "CONNECTION DROPPED");
        page.say(" at phase ");
        page.put(Style::Bold, name_phase(&hs.dropped_at).as_str());
        page.say("\n");
    }
    assert(page@ =~= old(page)@ + result_line(hs@));
}

fn show_theory(page: &mut Page, theory: &Option<String>)
    ensures
        final(page)@ == old(page)@ + theory_line(theory.deep_view()),
{
    if let Some(text) = theory {
        let style = if starts_with(text.as_str(), "MATCH") {
            Style::Green
        } else if starts_with(text.as_str(), "PARTIAL") {
            Style::Yellow
        } else {
            Style::Red
        };
        page.show("  Theory: ", style, text.as_str());
    }
    assert(page@ =~= old(page)@ + theory_line(theory.deep_view()));
}

fn show_handshake(page: &mut Page, hs: &SmtpHandshakeResult, verbose: bool)
    ensures
        final(page)@ == old(page)@ + handshake_section(Some(hs@), verbose),
{
    page.head("── SMTP HANDSHAKE (ACTIVE) ───────────────");
    page.say("  Target: ");
    page.put(Style::Bold, hs.target_host.as_str());
    page.say(":");
    page.say(to_decimal(hs.target_port as u64).as_str());
    page.say("\n");
    page.show("  Spoofed Domain: ", Style::Bold, hs.spoofed_domain.as_str());
    page.say("\n");
    let ghost start = page@;
    let ghost all = hs.steps.deep_view();
    let ghost f = |step: SmtpStepView| step_entry(step, verbose);
    assert(start =~= start + all.take(0).flat_map(f));
    for i in 0..hs.steps.len()
        invariant
            all == hs.steps.deep_view(),
            f == (|step: SmtpStepView| step_entry(step, verbose)),
            page@ == start + all.take(i as int).flat_map(f),
    {
        show_step(page, &hs.steps[i], verbose);
        proof {
            all.lemma_flat_map_take_append(f, i as int);
            assert(page@ =~= start + all.take(i + 1).flat_map(f));
        }
    }
    assert(all.take(hs.steps.len() as int) =~= all);
    page.say("\n");
    show_result(page, hs);
    show_theory(page, &hs.theory_match);
    assert(page@ =~= old(page)@ + handshake_section(Some(hs@), verbose));
}

// ─── Remediations ──────────────────────────────────────────────────

/// How a severity is set.
pub open spec fn severity_style(severity: RiskLevel) -> Style {
    match severity {
        RiskLevel::Critical => Style::RedBold,
        RiskLevel::High => Style::Red,
        RiskLevel::Medium => Style::Yellow,
        RiskLevel::Low => Style::Green,
    }
}

/// A numbered remediation.
pub open spec fn remediation_entry(number: nat, item: RemediationView, verbose: bool) -> Seq<
    SpanView,
> {
    seq![
        plain("  "@),
        plain(decimal(number)),
        plain(". ["@),
        span(severity_style(item.severity), item.severity.label()),
        plain("] "@),
        plain(item.description),
        plain("\n"@),
    ] + field("     DNS Fix: "@, Style::Cyan, item.dns_fix) + verbose_field(
        verbose,
        "     BIND:    "@,
        item.bind_command,
    ) + verbose_field(verbose, "     PS:      "@, item.ps_command)
}

/// The remediations, numbered from one.
pub open spec fn remediation_entries(items: Seq<RemediationView>, verbose: bool) -> Seq<SpanView>
    decreases items.len(),
{
    if items.len() == 0 {
        seq![]
    } else {
        remediation_entries(items.drop_last(), verbose) + remediation_entry(
            items.len(),
            items.last(),
            verbose,
        )
    }
}

/// The remediations under their heading.
pub open spec fn remediation_section(items: Seq<RemediationView>, verbose: bool) -> Seq<SpanView> {
    if items.len() == 0 {
        seq![]
    } else {
        heading("── REMEDIATIONS ─────────────────────────"@) + remediation_entries(items, verbose)
    }
}

fn show_remediation(page: &mut Page, number: u64, item: &Remediation, verbose: bool)
    ensures
        final(page)@ == old(page)@ + remediation_entry(number as nat, item@, verbose),
{
    let style = match item.severity {
        RiskLevel::Critical => Style::RedBold,
        RiskLevel::High => Style::Red,
        RiskLevel::Medium => Style::Yellow,
        RiskLevel::Low => Style::Green,
    };
    page.say("  ");
    page.say(to_decimal(number).as_str());
    page.say(". [");
    page.put(style, item.severity.to_string().as_str());
    page.say("] ");
    page.say(item.description.as_str());
    page.say("\n");
    page.show("     DNS Fix: ", Style::Cyan, item.dns_fix.as_str());
    show_if_verbose(page, verbose, "     BIND:    ", item.bind_command.as_str());
    show_if_verbose(page, verbose, "     PS:      ", item.ps_command.as_str());
    assert(page@ =~= old(page)@ + remediation_entry(number as nat, item@, verbose));
}

fn show_remediations(page: &mut Page, items: &Vec<Remediation>, verbose: bool)
    ensures
        final(page)@ == old(page)@ + remediation_section(items.deep_view(), verbose),
{
    if items.is_empty() {
        assert(page@ =~= old(page)@ + remediation_section(items.deep_view(), verbose));
        return;
    }
    page.head("── REMEDIATIONS ─────────────────────────");
    let ghost start = page@;
    let ghost all = items.deep_view();
    assert(start =~= start + remediation_entries(all.take(0), verbose));
    for i in 0..items.len()
        invariant
            all == items.deep_view(),
            page@ == start + remediation_entries(all.take(i as int), verbose),
    {
        show_remediation(page, i as u64 + 1, &items[i], verbose);
        proof {
            assert(all.take(i + 1).drop_last() =~= all.take(i as int));
            assert(all.take(i + 1).last() == items@[i as int]@);
            assert(page@ =~= start + remediation_entries(all.take(i + 1), verbose));
        }
    }
    assert(all.take(items.len() as int) =~= all);
    assert(page@ =~= old(page)@ + remediation_section(items.deep_view(), verbose));
}

// ─── The query log ─────────────────────────────────────────────────

/// What a query brought: at most its first 120 characters.
pub open spec fn response_line(response: Option<Seq<char>>) -> Seq<SpanView> {
    match response {
        Some(raw) => field("    → "@, Style::Dim, shortened(raw, 120)),
        None => seq![],
    }
}

/// One query.
pub open spec fn query_entry(meta: QueryMetaView) -> Seq<SpanView> {
    seq![
        plain("  "@),
        span(Style::Bold, meta.query),
        plain(" ["@),
        span(
            if meta.status == "OK"@ {
                Style::Green
            } else {
                Style::Red
            },
            meta.status,
        ),
        plain("] "@),
        plain(decimal(meta.latency_ms as nat)),
        plain("ms\n"@),
    ] + response_line(meta.raw_response)
}

/// The query log, in a verbose report.
pub open spec fn query_section(log: Seq<QueryMetaView>, verbose: bool) -> Seq<SpanView> {
    if verbose && log.len() > 0 {
        heading("── DNS QUERY LOG ────────────────────────"@) + log.flat_map(
            |meta: QueryMetaView| query_entry(meta),
        )
    } else {
        seq![]
    }
}

fn show_query(page: &mut Page, meta: &QueryMeta)
    ensures
        final(page)@ == old(page)@ + query_entry(meta@),
{
    let style = if same(meta.status.as_str(), "OK") {
        Style::Green
    } else {
        Style::Red
    };
    page.say("  ");
    page.put(Style::Bold, meta.query.as_str());
    page.say(" [");
    page.put(style, meta.status.as_str());
    page.say("] ");
    page.say(to_decimal(meta.latency_ms).as_str());
    page.say("ms\n");
    if let Some(raw) = &meta.raw_response {
        page.show("    → ", Style::Dim, shorten(raw.as_str(), 120).as_str());
    }
    assert(page@ =~= old(page)@ + query_entry(meta@));
}

fn show_queries(page: &mut Page, log: &Vec<QueryMeta>, verbose: bool)
    ensures
        final(page)@ == old(page)@ + query_section(log.deep_view(), verbose),
{
    if !verbose || log.is_empty() {
        assert(page@ =~= old(page)@ + query_section(log.deep_view(), verbose));
        return;
    }
    page.head("── DNS QUERY LOG ────────────────────────");
    let ghost start = page@;
    let ghost all = log.deep_view();
    let ghost f = |meta: QueryMetaView| query_entry(meta);
    assert(start =~= start + all.take(0).flat_map(f));
    for i in 0..log.len()
        invariant
            all == log.deep_view(),
            f == (|meta: QueryMetaView| query_entry(meta)),
            page@ == start + all.take(i as int).flat_map(f),
    {
        show_query(page, &log[i]);
        proof {
            all.lemma_flat_map_take_append(f, i as int);
            assert(page@ =~= start + all.take(i + 1).flat_map(f));
        }
    }
    assert(all.take(log.len() as int) =~= all);
    assert(page@ =~= old(page)@ + query_section(log.deep_view(), verbose));
}

// ─── The whole ─────────────────────────────────────────────────────

/// The report on a domain.
pub open spec fn console_report(posture: PostureView, verbose: bool) -> Seq<SpanView> {
    banner(posture.domain) + score_section(posture.risk_score, posture.risk_level) + spf_section(
        posture.spf,
        verbose,
    ) + dmarc_section(posture.dmarc, verbose) + dkim_section(posture.dkim_keys) + spoof_section(
        posture.spoof_results,
        verbose,
    ) + handshake_section(posture.smtp_handshake, verbose) + remediation_section(
        posture.remediations,
        verbose,
    ) + query_section(posture.query_log, verbose) + seq![
        plain("\n"@),
        span(Style::Cyan, bar()),
        plain("\n"@),
    ]
}

/// Writes the report on a domain.
pub fn print_console(posture: &DomainPosture, verbose: bool) -> (page: Page)
    ensures
        page@ == console_report(posture@, verbose),
{
    let mut page = Page::new();
    show_banner(&mut page, posture.domain.as_str());
    assert(page@ =~= banner(posture@.domain));
    show_score(&mut page, posture.risk_score, posture.risk_level);
    show_spf(&mut page, &posture.spf, verbose);
    show_dmarc(&mut page, &posture.dmarc, verbose);
    show_dkim(&mut page, &posture.dkim_keys);
    show_spoof(&mut page, &posture.spoof_results, verbose);
    match &posture.smtp_handshake {
        Some(hs) => show_handshake(&mut page, hs, verbose),
        None => {
            assert(page@ + handshake_section(None, verbose) =~= page@);
        },
    }
    show_remediations(&mut page, &posture.remediations, verbose);
    show_queries(&mut page, &posture.query_log, verbose);
    page.say("\n");
    page.put(Style::Cyan, rule());
    page.say("\n");
    assert(page@ =~= console_report(posture@, verbose));
    page
}

// ─── Laws ──────────────────────────────────────────────────────────

/// Without the verbose flag a report shows nothing of the query log.
pub proof fn law_quiet_report_hides_queries(posture: PostureView, log: Seq<QueryMetaView>)
    ensures
        console_report(PostureView { query_log: log, ..posture }, false) == console_report(
            posture,
            false,
        ),
{
}

/// The comparison is shown in green exactly where prediction and outcome agree, in yellow where
/// mail predicted to be spam was taken, and in red otherwise.
pub proof fn law_comparison_is_coloured(
    results: Seq<SpoofTestResultView>,
    delivered: bool,
    dropped_at: Option<SmtpPhase>,
)
    ensures
        theory_style(theory(results, delivered, dropped_at)) == if delivered {
            if predicts_reject(results) {
                Style::Red
            } else if predicts_spam(results) {
                Style::Yellow
            } else {
                Style::Green
            }
        } else if predicts_reject(results) {
            Style::Green
        } else {
            Style::Red
        },
{
    let text = theory(results, delivered, dropped_at);
    reveal_strlit("MATCH");
    reveal_strlit("PARTIAL");
    if delivered && predicts_reject(results) {
        reveal_strlit("MISMATCH: Theory predicted REJECT, but the SMTP server accepted the message. The target MTA may not enforce DMARC/SPF, or this is a testing sink (Mailpit/MailHog).");
        assert(text[1] != "MATCH"@[1]);
        assert(text[0] != "PARTIAL"@[0]);
        assert(text.subrange(0, 5)[1] == text[1]);
        assert(text.subrange(0, 7)[0] == text[0]);
    } else if delivered && predicts_spam(results) {
        reveal_strlit("PARTIAL: Theory predicted QUARANTINE/SPAM, but the SMTP server accepted at the transport layer. Content filtering may still quarantine post-acceptance.");
        assert(text.subrange(0, 5)[0] == text[0]);
        assert(text.subrange(0, 7) =~= "PARTIAL"@);
    } else if delivered {
        reveal_strlit("MATCH: Theory predicted delivery, and the SMTP server accepted the message.");
        assert(text.subrange(0, 5) =~= "MATCH"@);
    } else if predicts_reject(results) {
        reveal_strlit("MATCH: Theory predicted REJECT. Server dropped the connection at phase: ");
        assert(text.subrange(0, 5) =~= "MATCH"@);
    } else {
        reveal_strlit("UNEXPECTED: Server rejected at phase ");
        assert(text.subrange(0, 5)[0] == text[0]);
        assert(text.subrange(0, 7)[0] == text[0]);
    }
}

/// The final verdict is shown in green where the domain asks for rejection, in yellow where it
/// asks for quarantine, and in red otherwise.
pub proof fn law_final_verdict_is_coloured(
    dmarc: Option<DmarcRecordView>,
    spf: Option<SpfRecordView>,
)
    ensures
        verdict_style(final_stage(dmarc, spf).verdict) == match dmarc {
            Some(record) => match record.policy {
                DmarcPolicy::Reject => Style::Green,
                DmarcPolicy::Quarantine => Style::Yellow,
                _ => Style::Red,
            },
            None => Style::Red,
        },
{
    lemma_rejected();
    lemma_dropped();
    lemma_spam();
    lemma_no_check_named();
    lemma_soft_holds_fail(final_stage(dmarc, spf).verdict);
    reveal_strlit("TAGGED");
    reveal_strlit("QUARANTINE");
    let inbox = "Spoofed email would likely be DELIVERED to the inbox."@;
    assert(!occurs_in(inbox, "TAGGED"@) && !occurs_in(inbox, "QUARANTINE"@)) by {
        reveal_strlit("Spoofed email would likely be DELIVERED to the inbox.");
        lemma_absent(inbox, "TAGGED"@, 2);
        lemma_absent(inbox, "QUARANTINE"@, 0);
    }
    let local = "SPF would fail, but without a restrictive DMARC policy the message may still be delivered depending on the receiving MTA's local policy."@;
    assert(!occurs_in(local, "TAGGED"@) && !occurs_in(local, "QUARANTINE"@)) by {
        reveal_strlit("SPF would fail, but without a restrictive DMARC policy the message may still be delivered depending on the receiving MTA's local policy.");
        lemma_absent(local, "TAGGED"@, 2);
        lemma_absent(local, "QUARANTINE"@, 0);
    }
}

/// Neither `FAIL` nor `PASS` stands in a final verdict.
proof fn lemma_no_check_named()
    ensures
        !occurs_in("Spoofed email would be REJECTED by a compliant MTA."@, "FAIL"@),
        !occurs_in("Spoofed email would be REJECTED by a compliant MTA."@, "PASS"@),
        !occurs_in("Spoofed email would land in SPAM/JUNK on a compliant MTA."@, "FAIL"@),
        !occurs_in("Spoofed email would land in SPAM/JUNK on a compliant MTA."@, "PASS"@),
        !occurs_in("Spoofed email would likely be DELIVERED to the inbox."@, "FAIL"@),
        !occurs_in("Spoofed email would likely be DELIVERED to the inbox."@, "PASS"@),
        !occurs_in(
            "SPF would fail, but without a restrictive DMARC policy the message may still be delivered depending on the receiving MTA's local policy."@,
            "FAIL"@,
        ),
        !occurs_in(
            "SPF would fail, but without a restrictive DMARC policy the message may still be delivered depending on the receiving MTA's local policy."@,
            "PASS"@,
        ),
{
    let fail = "FAIL"@;
    let pass = "PASS"@;
    reveal_strlit("FAIL");
    reveal_strlit("PASS");
    let refused = "Spoofed email would be REJECTED by a compliant MTA."@;
    assert(!occurs_in(refused, fail) && !occurs_in(refused, pass)) by {
        reveal_strlit("Spoofed email would be REJECTED by a compliant MTA.");
        lemma_absent(refused, fail, 0);
        lemma_absent(refused, pass, 0);
    }
    let inbox = "Spoofed email would likely be DELIVERED to the inbox."@;
    assert(!occurs_in(inbox, fail) && !occurs_in(inbox, pass)) by {
        reveal_strlit("Spoofed email would likely be DELIVERED to the inbox.");
        lemma_absent(inbox, fail, 0);
        lemma_absent(inbox, pass, 0);
    }
    let spam = "Spoofed email would land in SPAM/JUNK on a compliant MTA."@;
    assert(!occurs_in(spam, fail) && !occurs_in(spam, pass)) by {
        reveal_strlit("Spoofed email would land in SPAM/JUNK on a compliant MTA.");
        lemma_absent(spam, fail, 0);
        assert forall|i: int| 0 <= i < spam.len() && #[trigger] spam[i] == 'P' implies i == 29 by {}
        lemma_one_start(spam, pass, 29, 2);
    }
    let local = "SPF would fail, but without a restrictive DMARC policy the message may still be delivered depending on the receiving MTA's local policy."@;
    reveal_strlit("SPF would fail, but without a restrictive DMARC policy the message may still be delivered depending on the receiving MTA's local policy.");
    lemma_absent(local, fail, 2);
    assert forall|i: int| 0 <= i < local.len() && #[trigger] local[i] == 'P' implies i == 1 by {}
    lemma_one_start(local, pass, 1, 1);
}

/// Where `SOFTFAIL` stands, `FAIL` stands too.
proof fn lemma_soft_holds_fail(verdict: Seq<char>)
    ensures
        occurs_in(verdict, "SOFTFAIL"@) ==> occurs_in(verdict, "FAIL"@),
{
    reveal_strlit("SOFTFAIL");
    reveal_strlit("FAIL");
    if occurs_in(verdict, "SOFTFAIL"@) {
        let at = choose|at: int| occurs_at(verdict, "SOFTFAIL"@, at);
        let soft = verdict.subrange(at, at + 8);
        assert(soft == "SOFTFAIL"@);
        assert(verdict.subrange(at + 4, at + 8) =~= soft.subrange(4, 8));
        assert(soft.subrange(4, 8) =~= "FAIL"@);
        assert(occurs_at(verdict, "FAIL"@, at + 4));
    }
}

proof fn lemma_one_start(hay: Seq<char>, needle: Seq<char>, start: int, k: int)
    requires
        0 < k < needle.len(),
        0 <= start,
        forall|i: int| 0 <= i < hay.len() && #[trigger] hay[i] == needle[0] ==> i == start,
        start + k < hay.len(),
        hay[start + k] != needle[k],
    ensures
        !occurs_in(hay, needle),
{
    if occurs_in(hay, needle) {
        let at = choose|at: int| occurs_at(hay, needle, at);
        assert(hay.subrange(at, at + needle.len())[0] == needle[0]);
        assert(hay.subrange(at, at + needle.len())[k] == needle[k]);
        assert(hay[at] == needle[0]);
    }
}

/// A verdict that names a soft failure is shown in the style of tagged mail; one that names a
/// failed check in red; and one that names a passed check and no failed one in green.
pub proof fn law_checks_are_coloured(verdict: Seq<char>)
    ensures
        occurs_in(verdict, "SOFTFAIL"@) ==> verdict_style(verdict) == Style::Yellow,
        occurs_in(verdict, "FAIL"@) && !occurs_in(verdict, "SOFTFAIL"@) ==> verdict_style(verdict)
            == Style::Red,
        occurs_in(verdict, "PASS"@) && !occurs_in(verdict, "FAIL"@) ==> verdict_style(verdict)
            == Style::Green,
{
    lemma_soft_holds_fail(verdict);
}

/// The score is shown in green up to 29, in yellow from 30 to 59 and in red from 60 on, as a
/// percentage, with its level below it.
pub proof fn law_score_is_shown_in_its_colour(score: u8, level: RiskLevel)
    ensures
        score_section(score, level).len() == 10,
        score_section(score, level)[1] == span(Style::Bold, "Risk Score:"@),
        score_section(score, level)[3].text == decimal(score as nat) + "%"@,
        score_section(score, level)[3].style == Style::GreenBold <==> score <= 29,
        score_section(score, level)[3].style == Style::YellowBold <==> 30 <= score <= 59,
        score_section(score, level)[3].style == Style::RedBold <==> 60 <= score,
        score_section(score, level)[6] == span(Style::Bold, "Risk Level:"@),
        score_section(score, level)[8] == span(Style::Bold, level.label()),
        score_section(score, level)[0] == plain("\n  "@),
        score_section(score, level)[2] == plain(" "@),
        score_section(score, level)[4] == plain("\n"@),
        score_section(score, level)[5] == plain("  "@),
        score_section(score, level)[7] == plain(" "@),
        score_section(score, level)[9] == plain("\n"@),
{
}

/// Above the report stand the domain in upper case, the score and the level.
pub proof fn law_summary_names_domain_and_score(posture: PostureView)
    ensures
        summary(posture).len() == 4,
        summary(posture)[0] == plain("EMAIL SECURITY POSTURE: "@ + upper_text(posture.domain)),
        summary(posture)[1] == plain("\n"@),
        summary(posture)[2] == plain(
            "Risk Score: "@ + decimal(posture.risk_score as nat) + "% ("@
                + posture.risk_level.label() + ")"@,
        ),
        summary(posture)[3] == plain("\n"@),
{
}

/// The report names the domain in upper case between two rules of sixty strokes.
pub proof fn law_banner_names_domain(domain: Seq<char>)
    ensures
        bar().len() == 60,
        forall|i: int| 0 <= i < 60 ==> #[trigger] bar()[i] == '═',
        banner(domain).len() == 7,
        banner(domain)[0] == plain("\n"@),
        banner(domain)[1] == span(Style::Cyan, bar()),
        banner(domain)[2] == plain("\n"@),
        banner(domain)[3] == span(
            Style::CyanBold,
            "  EMAIL SECURITY POSTURE: "@ + upper_text(domain),
        ),
        banner(domain)[4] == plain("\n"@),
        banner(domain)[5] == span(Style::Cyan, bar()),
        banner(domain)[6] == plain("\n"@),
{
    reveal_strlit("════════════════════════════════════════════════════════════");
}

/// An SPF record is shown by its qualifier and its mechanisms, and in a verbose report by its text;
/// a missing one is marked in red.
pub proof fn law_spf_record_is_shown(record: SpfRecordView)
    ensures
        spf_section(None, true) == heading("── SPF ──────────────────────────────────"@) + field(
            "  "@,
            Style::RedBold,
            "NOT FOUND"@,
        ),
        spf_section(None, false) == spf_section(None, true),
        spf_section(Some(record), false) == heading(
            "── SPF ──────────────────────────────────"@,
        ) + field("  Policy:     "@, Style::Plain, record.qualifier.label()) + field(
            "  Mechanisms: "@,
            Style::Plain,
            debug_list(record.mechanisms),
        ),
        spf_section(Some(record), true) == spf_section(Some(record), false) + field(
            "  Raw:        "@,
            Style::Dim,
            record.raw,
        ),
{
    let body = field("  Policy:     "@, Style::Plain, record.qualifier.label()) + field(
        "  Mechanisms: "@,
        Style::Plain,
        debug_list(record.mechanisms),
    );
    let head = heading("── SPF ──────────────────────────────────"@);
    assert(body + Seq::<SpanView>::empty() =~= body);
    assert(spf_section(Some(record), false) =~= head + body);
    assert(spf_section(Some(record), true) =~= head + body + field(
        "  Raw:        "@,
        Style::Dim,
        record.raw,
    ));
    assert(head + body =~= head + field(
        "  Policy:     "@,
        Style::Plain,
        record.qualifier.label(),
    ) + field("  Mechanisms: "@, Style::Plain, debug_list(record.mechanisms)));
}

/// A DMARC record is shown by its policy, share, alignments and report addresses, and in a verbose
/// report by its text; a missing one is marked in red.
pub proof fn law_dmarc_record_is_shown(record: DmarcRecordView)
    ensures
        dmarc_section(None, true) == heading("── DMARC ────────────────────────────────"@) + field(
            "  "@,
            Style::RedBold,
            "NOT FOUND"@,
        ),
        dmarc_section(None, false) == dmarc_section(None, true),
        dmarc_section(Some(record), false) == heading(
            "── DMARC ────────────────────────────────"@,
        ) + (field("  Policy:     "@, Style::Plain, record.policy.label()) + field(
            "  PCT:        "@,
            Style::Plain,
            decimal(record.pct as nat) + "%"@,
        ) + field("  DKIM Align: "@, Style::Plain, record.adkim.label()) + field(
            "  SPF Align:  "@,
            Style::Plain,
            record.aspf.label(),
        ) + field(
            "  RUA:        "@,
            Style::Plain,
            if record.rua is Some {
                record.rua->0
            } else {
                "(not set)"@
            },
        ) + field(
            "  RUF:        "@,
            Style::Plain,
            if record.ruf is Some {
                record.ruf->0
            } else {
                "(not set)"@
            },
        )),
        dmarc_section(Some(record), true) == dmarc_section(Some(record), false) + field(
            "  Raw:        "@,
            Style::Dim,
            record.raw,
        ),
{
    let head = heading("── DMARC ────────────────────────────────"@);
    let body = field("  Policy:     "@, Style::Plain, record.policy.label()) + field(
        "  PCT:        "@,
        Style::Plain,
        decimal(record.pct as nat) + "%"@,
    ) + field("  DKIM Align: "@, Style::Plain, record.adkim.label()) + field(
        "  SPF Align:  "@,
        Style::Plain,
        record.aspf.label(),
    ) + field("  RUA:        "@, Style::Plain, or_unset(record.rua)) + field(
        "  RUF:        "@,
        Style::Plain,
        or_unset(record.ruf),
    );
    let raw = field("  Raw:        "@, Style::Dim, record.raw);
    assert(body + Seq::<SpanView>::empty() =~= body);
    assert(head + (body + raw) =~= head + body + raw);
}

/// Each DKIM key found adds a line with its selector, type, size and whether it is valid; where none
/// was found that is said in red.
pub proof fn law_keys_are_shown(keys: Seq<DkimKeyView>, key: DkimKeyView)
    ensures
        dkim_section(Seq::empty()) == heading("── DKIM ─────────────────────────────────"@) + field(
            "  "@,
            Style::RedBold,
            "No valid DKIM keys discovered."@,
        ),
        dkim_section(keys.push(key)) == (if keys.len() == 0 {
            heading("── DKIM ─────────────────────────────────"@)
        } else {
            dkim_section(keys)
        }) + seq![
            plain("  ["@),
            span(Style::Green, key.selector),
            plain("] type="@),
            plain(key.key_type),
            plain(", ~"@),
            plain(decimal(key.key_bits_approx as nat)),
            plain(" bits "@),
            plain(
                if key.valid_syntax {
                    "✓"@
                } else {
                    "✗"@
                },
            ),
            plain("\n"@),
        ],
{
    let f = |k: DkimKeyView| key_line(k);
    let head = heading("── DKIM ─────────────────────────────────"@);
    keys.lemma_flat_map_push(f, key);
    if keys.len() == 0 {
        assert(keys.flat_map(f) =~= Seq::<SpanView>::empty());
        assert(dkim_section(keys.push(key)) =~= head + key_line(key));
    } else {
        assert(head + (keys.flat_map(f) + key_line(key)) =~= (head + keys.flat_map(f)) + key_line(
            key,
        ));
    }
}

/// Each stage of the prediction adds its name and its verdict, and in a verbose report its reason;
/// without stages there is no such section.
pub proof fn law_stages_are_shown(
    results: Seq<SpoofTestResultView>,
    result: SpoofTestResultView,
    verbose: bool,
)
    ensures
        spoof_section(Seq::empty(), verbose).len() == 0,
        spoof_section(results.push(result), verbose) == (if results.len() == 0 {
            heading("── SPOOF SIMULATION (PASSIVE) ────────────"@)
        } else {
            spoof_section(results, verbose)
        }) + (seq![
            plain("  "@),
            span(Style::Bold, result.stage),
            plain(" → "@),
            span(verdict_style(result.verdict), result.verdict),
            plain("\n"@),
        ] + (if verbose {
            field("    "@, Style::Dim, result.detail)
        } else {
            Seq::empty()
        })),
{
    let f = |r: SpoofTestResultView| spoof_entry(r, verbose);
    let head = heading("── SPOOF SIMULATION (PASSIVE) ────────────"@);
    results.lemma_flat_map_push(f, result);
    if results.len() == 0 {
        assert(results.flat_map(f) =~= Seq::<SpanView>::empty());
        assert(spoof_section(results.push(result), verbose) =~= head + spoof_entry(
            result,
            verbose,
        ));
    } else {
        assert(head + (results.flat_map(f) + spoof_entry(result, verbose)) =~= (head
            + results.flat_map(f)) + spoof_entry(result, verbose));
    }
}

/// A verdict without a check in it is green where mail is rejected or dropped, yellow where it is
/// spam, tagged or quarantined, and red otherwise.
pub proof fn law_other_verdicts_are_coloured(verdict: Seq<char>)
    requires
        !occurs_in(verdict, "FAIL"@),
        !occurs_in(verdict, "PASS"@),
    ensures
        ({
            let refused = occurs_in(verdict, "REJECTED"@) || occurs_in(verdict, "DROPPED"@);
            let set_aside = occurs_in(verdict, "SPAM"@) || occurs_in(verdict, "TAGGED"@)
                || occurs_in(verdict, "QUARANTINE"@);
            &&& verdict_style(verdict) == Style::Green <==> refused
            &&& verdict_style(verdict) == Style::Yellow <==> set_aside && !refused
            &&& verdict_style(verdict) == Style::Red <==> !set_aside && !refused
        }),
{
    lemma_soft_holds_fail(verdict);
}

/// A code is green for success, bold red from 500 on, bold yellow from 400 to 499 and red below.
pub proof fn law_codes_are_coloured(step: SmtpStepView, verbose: bool)
    ensures
        ({
            let style = step_entry(step, verbose)[3].style;
            &&& step_entry(step, verbose)[3].text == decimal(step.response_code as nat)
            &&& style == Style::Green <==> step.success
            &&& style == Style::RedBold <==> !step.success && 500 <= step.response_code
            &&& style == Style::YellowBold <==> !step.success && 400 <= step.response_code <= 499
            &&& style == Style::Red <==> !step.success && step.response_code <= 399
        }),
{
}

/// A step is shown by its phase, its code and its outcome, then what was sent, then the reply.
pub proof fn law_step_is_shown(step: SmtpStepView, verbose: bool)
    ensures
        ({
            let shown = step_entry(step, verbose);
            let sent: Seq<SpanView> = if step.command_sent is Some {
                field("    C: "@, Style::Cyan, step.command_sent->0)
            } else {
                Seq::empty()
            };
            &&& shown[0] == plain("  "@)
            &&& shown[1] == span(Style::Bold, "["@ + step.phase.label() + "]"@)
            &&& shown[2] == plain(" "@)
            &&& shown[4] == plain(" "@)
            &&& shown[5] == plain(
                if step.success {
                    "✓"@
                } else {
                    "✗"@
                },
            )
            &&& shown[6] == plain("\n"@)
            &&& shown.skip(7) == sent + reply_lines(step.response_text, verbose)
        }),
{
    assert(step_entry(step, verbose).skip(7) =~= command_line(step.command_sent) + reply_lines(
        step.response_text,
        verbose,
    ));
}

/// A verbose report shows every line of a reply, each on a line of its own; a quiet one shows at
/// most a hundred characters of the first.
pub proof fn law_reply_is_shown(text: Seq<char>)
    ensures
        reply_lines(text, true).len() == 3 * lines(text).len(),
        forall|i: int|
            0 <= i < lines(text).len() ==> #[trigger] reply_lines(text, true)[3 * i + 1] == span(
                Style::Dim,
                lines(text)[i],
            ) && reply_lines(text, true)[3 * i] == plain("    S: "@) && reply_lines(text, true)[3
                * i + 2] == plain("\n"@),
        lines(text).len() == 0 ==> reply_lines(text, false).len() == 0,
        lines(text).len() > 0 ==> reply_lines(text, false).len() == 3 && reply_lines(
            text,
            false,
        )[0] == plain("    S: "@) && reply_lines(text, false)[1].style == Style::Dim
            && reply_lines(text, false)[1].text.is_prefix_of(lines(text)[0]) && reply_lines(
            text,
            false,
        )[1].text.len() == (if lines(text)[0].len() <= 100 {
            lines(text)[0].len()
        } else {
            100
        }) && reply_lines(text, false)[2] == plain("\n"@),
{
    lemma_triples(lines(text));
    if lines(text).len() > 0 {
        law_shortened_is_a_prefix(lines(text)[0], 100);
    }
}

proof fn lemma_triples(all: Seq<Seq<char>>)
    ensures
        ({
            let shown = all.flat_map(|line: Seq<char>| reply_line(line));
            &&& shown.len() == 3 * all.len()
            &&& forall|i: int|
                0 <= i < all.len() ==> #[trigger] shown[3 * i + 1] == span(Style::Dim, all[i])
                    && shown[3 * i] == plain("    S: "@) && shown[3 * i + 2] == plain("\n"@)
        }),
    decreases all.len(),
{
    let f = |line: Seq<char>| reply_line(line);
    let shown = all.flat_map(f);
    if all.len() == 0 {
        assert(shown =~= Seq::<SpanView>::empty());
    } else {
        let rest = all.drop_last();
        lemma_triples(rest);
        rest.lemma_flat_map_push(f, all.last());
        assert(rest.push(all.last()) =~= all);
        let before = rest.flat_map(f);
        assert(shown == before + reply_line(all.last()));
        assert forall|i: int| 0 <= i < all.len() implies #[trigger] shown[3 * i + 1] == span(
            Style::Dim,
            all[i],
        ) && shown[3 * i] == plain("    S: "@) && shown[3 * i + 2] == plain("\n"@) by {
            if i < rest.len() {
                assert(before[3 * i + 1] == span(Style::Dim, rest[i]));
                assert(shown[3 * i + 1] == before[3 * i + 1]);
                assert(shown[3 * i] == before[3 * i]);
                assert(shown[3 * i + 2] == before[3 * i + 2]);
            }
        }
    }
}

/// A handshake is shown by its server and domain, all its steps in order, how it ended and how it
/// compares; without one there is no such section.
pub proof fn law_handshake_is_shown(hs: SmtpHandshakeResultView, verbose: bool)
    ensures
        handshake_section(None, verbose).len() == 0,
        handshake_section(Some(hs), verbose) == heading(
            "── SMTP HANDSHAKE (ACTIVE) ───────────────"@,
        ) + seq![
            plain("  Target: "@),
            span(Style::Bold, hs.target_host),
            plain(":"@),
            plain(decimal(hs.target_port as nat)),
            plain("\n"@),
        ] + field("  Spoofed Domain: "@, Style::Bold, hs.spoofed_domain) + seq![plain("\n"@)]
            + hs.steps.flat_map(|step: SmtpStepView| step_entry(step, verbose)) + seq![plain("\n"@)]
            + (if hs.delivered {
            field("  Result: "@, Style::RedBold, "MESSAGE ACCEPTED BY SERVER"@)
        } else {
            seq![
                plain("  Result: "@),
                span(Style::GreenBold, "CONNECTION DROPPED"@),
                plain(" at phase "@),
                span(
                    Style::Bold,
                    if hs.dropped_at is Some {
                        hs.dropped_at->0.label()
                    } else {
                        "UNKNOWN"@
                    },
                ),
                plain("\n"@),
            ]
        }) + (if hs.theory_match is Some {
            field("  Theory: "@, theory_style(hs.theory_match->0), hs.theory_match->0)
        } else {
            Seq::empty()
        }),
{
    assert(target_lines(hs) == seq![
        plain("  Target: "@),
        span(Style::Bold, hs.target_host),
        plain(":"@),
        plain(decimal(hs.target_port as nat)),
        plain("\n"@),
    ] + field("  Spoofed Domain: "@, Style::Bold, hs.spoofed_domain));
    let head = heading("── SMTP HANDSHAKE (ACTIVE) ───────────────"@);
    let target = seq![
        plain("  Target: "@),
        span(Style::Bold, hs.target_host),
        plain(":"@),
        plain(decimal(hs.target_port as nat)),
        plain("\n"@),
    ];
    let domain = field("  Spoofed Domain: "@, Style::Bold, hs.spoofed_domain);
    assert(head + (target + domain) =~= head + target + domain);
}

/// A comparison is green where it begins with `MATCH`, yellow where with `PARTIAL`, red otherwise.
pub proof fn law_comparison_colour_is_in_its_first_word(text: Seq<char>)
    ensures
        theory_style("MATCH"@ + text) == Style::Green,
        theory_style("PARTIAL"@ + text) == Style::Yellow,
        !"MATCH"@.is_prefix_of(text) && !"PARTIAL"@.is_prefix_of(text) ==> theory_style(text)
            == Style::Red,
{
    reveal_strlit("MATCH");
    reveal_strlit("PARTIAL");
    assert(("MATCH"@ + text).subrange(0, 5) =~= "MATCH"@);
    assert(("PARTIAL"@ + text).subrange(0, 7) =~= "PARTIAL"@);
    assert(("PARTIAL"@ + text).subrange(0, 5)[0] == 'P');
}

/// Remediations are numbered from one: each adds its number, its severity in its colour, its
/// description and its fix, and in a verbose report its commands; without any there is no such
/// section.
pub proof fn law_remediations_are_numbered(
    items: Seq<RemediationView>,
    item: RemediationView,
    verbose: bool,
)
    ensures
        remediation_section(Seq::empty(), verbose).len() == 0,
        remediation_section(items.push(item), verbose) == (if items.len() == 0 {
            heading("── REMEDIATIONS ─────────────────────────"@)
        } else {
            remediation_section(items, verbose)
        }) + (seq![
            plain("  "@),
            plain(decimal(items.len() + 1)),
            plain(". ["@),
            span(
                match item.severity {
                    RiskLevel::Critical => Style::RedBold,
                    RiskLevel::High => Style::Red,
                    RiskLevel::Medium => Style::Yellow,
                    RiskLevel::Low => Style::Green,
                },
                item.severity.label(),
            ),
            plain("] "@),
            plain(item.description),
            plain("\n"@),
        ] + field("     DNS Fix: "@, Style::Cyan, item.dns_fix) + (if verbose {
            field("     BIND:    "@, Style::Dim, item.bind_command) + field(
                "     PS:      "@,
                Style::Dim,
                item.ps_command,
            )
        } else {
            Seq::empty()
        })),
{
    let head = heading("── REMEDIATIONS ─────────────────────────"@);
    let more = items.push(item);
    let entry = remediation_entry(items.len() + 1, item, verbose);
    assert(more.drop_last() =~= items);
    assert(remediation_entries(more, verbose) == remediation_entries(items, verbose) + entry);
    let start = seq![
        plain("  "@),
        plain(decimal(items.len() + 1)),
        plain(". ["@),
        span(severity_style(item.severity), item.severity.label()),
        plain("] "@),
        plain(item.description),
        plain("\n"@),
    ] + field("     DNS Fix: "@, Style::Cyan, item.dns_fix);
    let none = Seq::<SpanView>::empty();
    if verbose {
        let bind = field("     BIND:    "@, Style::Dim, item.bind_command);
        let ps = field("     PS:      "@, Style::Dim, item.ps_command);
        assert(entry == start + bind + ps);
        assert(start + bind + ps =~= start + (bind + ps));
    } else {
        assert(entry == start + none + none);
        assert(start + none + none =~= start + none);
    }
    if items.len() == 0 {
        assert(remediation_entries(items, verbose) =~= none);
        assert(none + entry =~= entry);
    } else {
        assert(head + (remediation_entries(items, verbose) + entry) =~= (head
            + remediation_entries(items, verbose)) + entry);
    }
}

/// A verbose report lists every query: its name, its status in green where all went well and else in
/// red, its latency, and at most 120 characters of what came back. A quiet one lists none.
pub proof fn law_queries_are_listed(log: Seq<QueryMetaView>, meta: QueryMetaView)
    ensures
        query_section(log, false).len() == 0,
        query_section(Seq::empty(), true).len() == 0,
        query_section(log.push(meta), true) == (if log.len() == 0 {
            heading("── DNS QUERY LOG ────────────────────────"@)
        } else {
            query_section(log, true)
        }) + (seq![
            plain("  "@),
            span(Style::Bold, meta.query),
            plain(" ["@),
            span(
                if meta.status == "OK"@ {
                    Style::Green
                } else {
                    Style::Red
                },
                meta.status,
            ),
            plain("] "@),
            plain(decimal(meta.latency_ms as nat)),
            plain("ms\n"@),
        ] + (if meta.raw_response is Some {
            field(
                "    → "@,
                Style::Dim,
                if meta.raw_response->0.len() <= 120 {
                    meta.raw_response->0
                } else {
                    meta.raw_response->0.take(120)
                },
            )
        } else {
            Seq::empty()
        })),
{
    let f = |m: QueryMetaView| query_entry(m);
    let head = heading("── DNS QUERY LOG ────────────────────────"@);
    log.lemma_flat_map_push(f, meta);
    if log.len() == 0 {
        assert(log.flat_map(f) =~= Seq::<SpanView>::empty());
        assert(query_section(log.push(meta), true) =~= head + query_entry(meta));
    } else {
        assert(head + (log.flat_map(f) + query_entry(meta)) =~= (head + log.flat_map(f))
            + query_entry(meta));
    }
}

/// The report shows, in this order, the banner, the score, SPF, DMARC, DKIM, the prediction, the
/// handshake, the remediations and the queries, each from its own part of what is known, and a
/// closing rule.
pub proof fn law_report_has_every_section(posture: PostureView, verbose: bool)
    ensures
        console_report(posture, verbose) == banner(posture.domain) + score_section(
            posture.risk_score,
            posture.risk_level,
        ) + spf_section(posture.spf, verbose) + dmarc_section(posture.dmarc, verbose)
            + dkim_section(posture.dkim_keys) + spoof_section(posture.spoof_results, verbose)
            + handshake_section(posture.smtp_handshake, verbose) + remediation_section(
            posture.remediations,
            verbose,
        ) + query_section(posture.query_log, verbose) + field("\n"@, Style::Cyan, bar()),
{
}

} // verus!
