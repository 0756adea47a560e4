//! What becomes of spoofed mail: the prediction from published policies, the reading of SMTP
//! replies, and the comparison of both.

use crate::models::{
    DkimKey, DkimKeyView, DmarcPolicy, DmarcRecord, DmarcRecordView, DomainPosture, PostureView,
    SmtpHandshakeResult, SmtpHandshakeResultView, SmtpPhase, SpfQualifier, SpfRecord,
    SpfRecordView, SpoofTestResult, SpoofTestResultView,
};
use crate::text::{
    blank, cat3, contains, debug_list, decimal, digits_value, first_index, is_digit, lacks,
    law_decimal_has_no_leading_zero, law_decimal_reads_back, law_lines_end_at_line_feeds,
    law_numbers_are_digits, law_trim_drops_blank_ends, lemma_first_index, lemma_first_index_is,
    lines, occurs_at, occurs_in, parse_unsigned, same, shorten, shortened, split_lines,
    to_debug_list, to_decimal, trim, trimmed, unsigned_value, white_space, without_cr,
    without_plus,
};
use vstd::prelude::*;

verus! {

broadcast use vstd::string::group_string_axioms;

// ─── Prediction ────────────────────────────────────────────────────

/// What the SPF check makes of a spoofed envelope sender.
pub open spec fn spf_stage(spf: Option<SpfRecordView>) -> SpoofTestResultView {
    match spf {
        None => SpoofTestResultView {
            stage: "MAIL FROM (SPF Check)"@,
            verdict: "PASS (no record)"@,
            detail: "No SPF record exists. The receiving MTA has no basis to reject the envelope sender. A spoofed MAIL FROM will be accepted."@,
        },
        Some(record) => match record.qualifier {
            SpfQualifier::Fail => SpoofTestResultView {
                stage: "MAIL FROM (SPF Check)"@,
                verdict: "FAIL → REJECTED"@,
                detail: "SPF -all means the receiving MTA should reject mail from IPs not listed in: "@
                    + debug_list(record.mechanisms)
                    + ". A spoofed envelope from an unauthorized IP will be dropped here."@,
            },
            SpfQualifier::SoftFail => SpoofTestResultView {
                stage: "MAIL FROM (SPF Check)"@,
                verdict: "SOFTFAIL → TAGGED"@,
                detail: "SPF ~all tags unauthorized senders but does not reject. The message will likely land in spam, not be dropped."@,
            },
            SpfQualifier::Neutral | SpfQualifier::Pass => SpoofTestResultView {
                stage: "MAIL FROM (SPF Check)"@,
                verdict: "PASS → ACCEPTED"@,
                detail: "SPF policy is permissive (?all or +all). Spoofed envelope sender will pass SPF."@,
            },
            SpfQualifier::Missing => SpoofTestResultView {
                stage: "MAIL FROM (SPF Check)"@,
                verdict: "PASS (no terminator)"@,
                detail: "SPF record exists but has no valid all-mechanism terminator. Most MTAs treat this as neutral."@,
            },
        },
    }
}

/// The selectors of a list of keys.
pub open spec fn selectors_of(keys: Seq<DkimKeyView>) -> Seq<Seq<char>> {
    keys.map_values(|key: DkimKeyView| key.selector)
}

/// What DKIM verification makes of spoofed mail.
pub open spec fn dkim_stage(keys: Seq<DkimKeyView>) -> SpoofTestResultView {
    if keys.len() == 0 {
        SpoofTestResultView {
            stage: "DATA (DKIM Verification)"@,
            verdict: "SKIP → NO KEYS"@,
            detail: "No DKIM keys were discovered. The receiving MTA cannot verify a DKIM signature, so this check is effectively skipped for spoofed mail."@,
        }
    } else {
        SpoofTestResultView {
            stage: "DATA (DKIM Verification)"@,
            verdict: "FAIL → SIGNATURE MISMATCH"@,
            detail: "DKIM keys exist for selectors "@ + debug_list(selectors_of(keys))
                + ". A spoofed message won't have a valid signature, so DKIM verification will fail."@,
        }
    }
}

/// What the DMARC policy asks for spoofed mail.
pub open spec fn dmarc_stage(dmarc: Option<DmarcRecordView>) -> SpoofTestResultView {
    match dmarc {
        None => SpoofTestResultView {
            stage: "Post-DATA (DMARC Policy)"@,
            verdict: "NO POLICY → DELIVERED"@,
            detail: "No DMARC record. Even if SPF or DKIM failed, there is no policy instructing the MTA to reject or quarantine. Spoofed mail will be delivered to the inbox."@,
        },
        Some(record) => match record.policy {
            DmarcPolicy::Reject => SpoofTestResultView {
                stage: "Post-DATA (DMARC Policy)"@,
                verdict: "REJECT → DROPPED"@,
                detail: "DMARC p=reject at pct="@ + decimal(record.pct as nat)
                    + ". If both SPF and DKIM fail alignment, the message will be rejected outright."@,
            },
            DmarcPolicy::Quarantine => SpoofTestResultView {
                stage: "Post-DATA (DMARC Policy)"@,
                verdict: "QUARANTINE → SPAM"@,
                detail: "DMARC p=quarantine at pct="@ + decimal(record.pct as nat)
                    + ". Failing messages will be routed to spam/junk."@,
            },
            DmarcPolicy::NoAction | DmarcPolicy::Missing => SpoofTestResultView {
                stage: "Post-DATA (DMARC Policy)"@,
                verdict: "NONE → DELIVERED"@,
                detail: "DMARC p=none provides monitoring only. Spoofed mail that fails SPF/DKIM will still be delivered."@,
            },
        },
    }
}

/// SPF fails a spoofed sender outright.
pub open spec fn spf_fails(spf: Option<SpfRecordView>) -> bool {
    spf is Some && spf->0.qualifier == SpfQualifier::Fail
}

/// What becomes of spoofed mail in the end.
pub open spec fn final_stage(
    dmarc: Option<DmarcRecordView>,
    spf: Option<SpfRecordView>,
) -> SpoofTestResultView {
    match dmarc {
        None => SpoofTestResultView {
            stage: "Final Verdict"@,
            verdict: "Spoofed email would likely be DELIVERED to the inbox."@,
            detail: "Without a DMARC record, there is no enforcement policy. The domain is vulnerable to direct spoofing."@,
        },
        Some(record) => SpoofTestResultView {
            stage: "Final Verdict"@,
            verdict: if record.policy == DmarcPolicy::Reject {
                "Spoofed email would be REJECTED by a compliant MTA."@
            } else if record.policy == DmarcPolicy::Quarantine {
                "Spoofed email would land in SPAM/JUNK on a compliant MTA."@
            } else if spf_fails(spf) {
                "SPF would fail, but without a restrictive DMARC policy the message may still be delivered depending on the receiving MTA's local policy."@
            } else {
                "Spoofed email would likely be DELIVERED to the inbox."@
            },
            detail: "This is a prediction based on published DNS records. Actual delivery depends on the receiving MTA's implementation and local overrides."@,
        },
    }
}

/// The predicted fate of spoofed mail, stage by stage.
pub open spec fn simulation(posture: PostureView) -> Seq<SpoofTestResultView> {
    seq![
        spf_stage(posture.spf),
        dkim_stage(posture.dkim_keys),
        dmarc_stage(posture.dmarc),
        final_stage(posture.dmarc, posture.spf),
    ]
}

fn outcome(stage: &str, verdict: &str, detail: String) -> (r: SpoofTestResult)
    ensures
        r@ == (SpoofTestResultView { stage: stage@, verdict: verdict@, detail: detail@ }),
{
    SpoofTestResult { stage: stage.to_string(), verdict: verdict.to_string(), detail }
}

fn simulate_spf(spf: &Option<SpfRecord>) -> (r: SpoofTestResult)
    ensures
        r@ == spf_stage(spf.deep_view()),
{
    let stage = "MAIL FROM (SPF Check)";
    match spf {
        None => outcome(
            stage,
            "PASS (no record)",
            "No SPF record exists. The receiving MTA has no basis to reject the envelope sender. A spoofed MAIL FROM will be accepted.".to_owned(),
        ),
        Some(record) => match record.qualifier {
            SpfQualifier::Fail => outcome(
                stage,
                "FAIL → REJECTED",
                cat3(
                    "SPF -all means the receiving MTA should reject mail from IPs not listed in: ",
                    to_debug_list(&record.mechanisms).as_str(),
                    ". A spoofed envelope from an unauthorized IP will be dropped here.",
                ),
            ),
            SpfQualifier::SoftFail => outcome(
                stage,
                "SOFTFAIL → TAGGED",
                "SPF ~all tags unauthorized senders but does not reject. The message will likely land in spam, not be dropped.".to_owned(),
            ),
            SpfQualifier::Neutral | SpfQualifier::Pass => outcome(
                stage,
                "PASS → ACCEPTED",
                "SPF policy is permissive (?all or +all). Spoofed envelope sender will pass SPF.".to_owned(),
            ),
            SpfQualifier::Missing => outcome(
                stage,
                "PASS (no terminator)",
                "SPF record exists but has no valid all-mechanism terminator. Most MTAs treat this as neutral.".to_owned(),
            ),
        },
    }
}

fn list_selectors(keys: &Vec<DkimKey>) -> (selectors: Vec<String>)
    ensures
        selectors.deep_view() == selectors_of(keys.deep_view()),
{
    let mut selectors: Vec<String> = Vec::new();
    for i in 0..keys.len()
        invariant
            selectors.deep_view() == selectors_of(keys.deep_view().take(i as int)),
    {
        let ghost before = selectors.deep_view();
        selectors.push(keys[i].selector.clone());
        assert(selectors.deep_view() =~= before.push(keys.deep_view()[i as int].selector));
        assert(selectors.deep_view() =~= selectors_of(keys.deep_view().take(i + 1)));
    }
    assert(keys.deep_view().take(keys.len() as int) =~= keys.deep_view());
    selectors
}

fn simulate_dkim(keys: &Vec<DkimKey>) -> (r: SpoofTestResult)
    ensures
        r@ == dkim_stage(keys.deep_view()),
{
    let stage = "DATA (DKIM Verification)";
    if keys.is_empty() {
        outcome(
            stage,
            "SKIP → NO KEYS",
            "No DKIM keys were discovered. The receiving MTA cannot verify a DKIM signature, so this check is effectively skipped for spoofed mail.".to_owned(),
        )
    } else {
        outcome(
            stage,
            "FAIL → SIGNATURE MISMATCH",
            cat3(
                "DKIM keys exist for selectors ",
                to_debug_list(&list_selectors(keys)).as_str(),
                ". A spoofed message won't have a valid signature, so DKIM verification will fail.",
            ),
        )
    }
}

fn simulate_dmarc(dmarc: &Option<DmarcRecord>) -> (r: SpoofTestResult)
    ensures
        r@ == dmarc_stage(dmarc.deep_view()),
{
    let stage = "Post-DATA (DMARC Policy)";
    match dmarc {
        None => outcome(
            stage,
            "NO POLICY → DELIVERED",
            "No DMARC record. Even if SPF or DKIM failed, there is no policy instructing the MTA to reject or quarantine. Spoofed mail will be delivered to the inbox.".to_owned(),
        ),
        Some(record) => match record.policy {
            DmarcPolicy::Reject => outcome(
                stage,
                "REJECT → DROPPED",
                cat3(
                    "DMARC p=reject at pct=",
                    to_decimal(record.pct as u64).as_str(),
                    ". If both SPF and DKIM fail alignment, the message will be rejected outright.",
                ),
            ),
            DmarcPolicy::Quarantine => outcome(
                stage,
                "QUARANTINE → SPAM",
                cat3(
                    "DMARC p=quarantine at pct=",
                    to_decimal(record.pct as u64).as_str(),
                    ". Failing messages will be routed to spam/junk.",
                ),
            ),
            DmarcPolicy::NoAction | DmarcPolicy::Missing => outcome(
                stage,
                "NONE → DELIVERED",
                "DMARC p=none provides monitoring only. Spoofed mail that fails SPF/DKIM will still be delivered.".to_owned(),
            ),
        },
    }
}

fn fails_spf(spf: &Option<SpfRecord>) -> (r: bool)
    ensures
        r == spf_fails(spf.deep_view()),
{
    match spf {
        Some(record) => record.qualifier == SpfQualifier::Fail,
        None => false,
    }
}

fn simulate_final(dmarc: &Option<DmarcRecord>, spf: &Option<SpfRecord>) -> (r: SpoofTestResult)
    ensures
        r@ == final_stage(dmarc.deep_view(), spf.deep_view()),
{
    match dmarc {
        None => outcome(
            "Final Verdict",
            "Spoofed email would likely be DELIVERED to the inbox.",
            "Without a DMARC record, there is no enforcement policy. The domain is vulnerable to direct spoofing.".to_owned(),
        ),
        Some(record) => {
            let verdict = if record.policy == DmarcPolicy::Reject {
                "Spoofed email would be REJECTED by a compliant MTA."
            } else if record.policy == DmarcPolicy::Quarantine {
                "Spoofed email would land in SPAM/JUNK on a compliant MTA."
            } else if fails_spf(spf) {
                "SPF would fail, but without a restrictive DMARC policy the message may still be delivered depending on the receiving MTA's local policy."
            } else {
                "Spoofed email would likely be DELIVERED to the inbox."
            };
            outcome(
                "Final Verdict",
                verdict,
                "This is a prediction based on published DNS records. Actual delivery depends on the receiving MTA's implementation and local overrides.".to_owned(),
            )
        },
    }
}

/// Predicts, from the published policies alone, at which stage a filter would stop spoofed mail.
pub fn simulate_spoof(posture: &DomainPosture) -> (results: Vec<SpoofTestResult>)
    ensures
        results.deep_view() == simulation(posture@),
{
    let mut results: Vec<SpoofTestResult> = Vec::new();
    results.push(simulate_spf(&posture.spf));
    results.push(simulate_dkim(&posture.dkim_keys));
    results.push(simulate_dmarc(&posture.dmarc));
    results.push(simulate_final(&posture.dmarc, &posture.spf));
    assert(results.deep_view() =~= simulation(posture@));
    results
}

// ─── SMTP replies ──────────────────────────────────────────────────

/// The last line of a text, or nothing where the text is empty.
pub open spec fn last_line(s: Seq<char>) -> Seq<char> {
    if lines(s).len() > 0 {
        lines(s).last()
    } else {
        Seq::empty()
    }
}

/// The code of a reply: the number in front of its last line, or zero where there is none.
pub open spec fn smtp_code(raw: Seq<char>) -> u16 {
    match unsigned_value(shortened(last_line(trimmed(raw)), 3), 65535) {
        Some(n) => n as u16,
        None => 0,
    }
}

/// A code of the two or three hundreds.
pub open spec fn success_code(code: u16) -> bool {
    200 <= code < 400
}

/// Reads a reply: its code, and its text without the white space around it. The code of a
/// reply of several lines stands in front of the last.
pub fn parse_smtp_response(raw: &str) -> (r: (u16, String))
    ensures
        r.0 == smtp_code(raw@),
        r.1@ == trimmed(raw@),
{
    let text = trim(raw);
    let all = split_lines(text.as_str());
    let last = if all.len() > 0 {
        assert(all.deep_view().last() == all@[all@.len() - 1]@);
        all[all.len() - 1].clone()
    } else {
        String::new()
    };
    let code: u16 = match parse_unsigned(shorten(last.as_str(), 3).as_str(), 65535) {
        Some(n) => n,
        None => 0,
    };
    (code, text)
}

/// Whether a code means success.
pub fn is_success(code: u16) -> (r: bool)
    ensures
        r == success_code(code),
{
    200 <= code && code < 400
}

// ─── Prediction and outcome ────────────────────────────────────────

/// A final verdict in which a word stands.
pub open spec fn concludes(result: SpoofTestResultView, word: Seq<char>) -> bool {
    result.stage == "Final Verdict"@ && occurs_in(result.verdict, word)
}

/// A prediction that spoofed mail is turned away.
pub open spec fn predicts_reject(results: Seq<SpoofTestResultView>) -> bool {
    exists|i: int|
        0 <= i < results.len() && (concludes(#[trigger] results[i], "REJECTED"@) || concludes(
            results[i],
            "DROPPED"@,
        ))
}

/// A prediction that spoofed mail is taken for spam.
pub open spec fn predicts_spam(results: Seq<SpoofTestResultView>) -> bool {
    exists|i: int| 0 <= i < results.len() && concludes(#[trigger] results[i], "SPAM"@)
}

/// The name of the phase in which a handshake ended.
pub open spec fn phase_label(phase: Option<SmtpPhase>) -> Seq<char> {
    match phase {
        Some(p) => p.label(),
        None => "UNKNOWN"@,
    }
}

/// How the outcome of a handshake compares with a prediction.
pub open spec fn theory(
    results: Seq<SpoofTestResultView>,
    delivered: bool,
    dropped_at: Option<SmtpPhase>,
) -> Seq<char> {
    if delivered && predicts_reject(results) {
        "MISMATCH: Theory predicted REJECT, but the SMTP server accepted the message. The target MTA may not enforce DMARC/SPF, or this is a testing sink (Mailpit/MailHog)."@
    } else if delivered && predicts_spam(results) {
        "PARTIAL: Theory predicted QUARANTINE/SPAM, but the SMTP server accepted at the transport layer. Content filtering may still quarantine post-acceptance."@
    } else if delivered {
        "MATCH: Theory predicted delivery, and the SMTP server accepted the message."@
    } else if predicts_reject(results) {
        "MATCH: Theory predicted REJECT. Server dropped the connection at phase: "@ + phase_label(
            dropped_at,
        ) + "."@
    } else {
        "UNEXPECTED: Server rejected at phase "@ + phase_label(dropped_at)
            + " despite permissive DNS policy. The MTA may have local override rules or reputation-based filtering."@
    }
}

fn is_final(result: &SpoofTestResult, word: &str) -> (r: bool)
    ensures
        r == concludes(result@, word@),
{
    same(result.stage.as_str(), "Final Verdict") && contains(result.verdict.as_str(), word)
}

fn foresees_reject(results: &Vec<SpoofTestResult>) -> (r: bool)
    ensures
        r == predicts_reject(results.deep_view()),
{
    for i in 0..results.len()
        invariant
            forall|j: int|
                0 <= j < i ==> !concludes(#[trigger] results.deep_view()[j], "REJECTED"@)
                    && !concludes(results.deep_view()[j], "DROPPED"@),
    {
        assert(results.deep_view()[i as int] == results@[i as int]@);
        if is_final(&results[i], "REJECTED") || is_final(&results[i], "DROPPED") {
            return true;
        }
    }
    false
}

fn foresees_spam(results: &Vec<SpoofTestResult>) -> (r: bool)
    ensures
        r == predicts_spam(results.deep_view()),
{
    for i in 0..results.len()
        invariant
            forall|j: int| 0 <= j < i ==> !concludes(#[trigger] results.deep_view()[j], "SPAM"@),
    {
        assert(results.deep_view()[i as int] == results@[i as int]@);
        if is_final(&results[i], "SPAM") {
            return true;
        }
    }
    false
}

/// Names the phase in which a handshake ended.
pub fn name_phase(phase: &Option<SmtpPhase>) -> (s: String)
    ensures
        s@ == phase_label(*phase),
{
    match phase {
        Some(p) => p.to_string(),
        None => "UNKNOWN".to_owned(),
    }
}

/// Compares the outcome of a handshake with the prediction, and notes the comparison.
pub fn correlate_theory(posture: &DomainPosture, result: &mut SmtpHandshakeResult)
    ensures
        final(result)@ == (SmtpHandshakeResultView {
            theory_match: Some(
                theory(posture@.spoof_results, old(result)@.delivered, old(result)@.dropped_at),
            ),
            ..old(result)@
        }),
{
    let reject = foresees_reject(&posture.spoof_results);
    let spam = foresees_spam(&posture.spoof_results);
    let comparison = if result.delivered && reject {
        "MISMATCH: Theory predicted REJECT, but the SMTP server accepted the message. The target MTA may not enforce DMARC/SPF, or this is a testing sink (Mailpit/MailHog).".to_owned()
    } else if result.delivered && spam {
        "PARTIAL: Theory predicted QUARANTINE/SPAM, but the SMTP server accepted at the transport layer. Content filtering may still quarantine post-acceptance.".to_owned()
    } else if result.delivered {
        "MATCH: Theory predicted delivery, and the SMTP server accepted the message.".to_owned()
    } else if reject {
        cat3(
            "MATCH: Theory predicted REJECT. Server dropped the connection at phase: ",
            name_phase(&result.dropped_at).as_str(),
            ".",
        )
    } else {
        cat3(
            "UNEXPECTED: Server rejected at phase ",
            name_phase(&result.dropped_at).as_str(),
            " despite permissive DNS policy. The MTA may have local override rules or reputation-based filtering.",
        )
    };
    result.theory_match = Some(comparison);
}

// ─── Laws ──────────────────────────────────────────────────────────

/// The prediction goes through four stages: envelope, signature, policy, and the final verdict,
/// which stands last and alone under its name.
pub proof fn law_four_stages(posture: PostureView)
    ensures
        simulation(posture).len() == 4,
        simulation(posture)[0].stage == "MAIL FROM (SPF Check)"@,
        simulation(posture)[1].stage == "DATA (DKIM Verification)"@,
        simulation(posture)[2].stage == "Post-DATA (DMARC Policy)"@,
        forall|i: int|
            0 <= i < 4 ==> ((#[trigger] simulation(posture)[i]).stage == "Final Verdict"@ <==> i
                == 3),
{
    reveal_strlit("MAIL FROM (SPF Check)");
    reveal_strlit("DATA (DKIM Verification)");
    reveal_strlit("Post-DATA (DMARC Policy)");
    reveal_strlit("Final Verdict");
    assert("MAIL FROM (SPF Check)"@.len() != "Final Verdict"@.len());
    assert("DATA (DKIM Verification)"@.len() != "Final Verdict"@.len());
    assert("Post-DATA (DMARC Policy)"@.len() != "Final Verdict"@.len());
}

/// A text in which a character of another does not stand does not hold the other.
pub proof fn lemma_absent(hay: Seq<char>, needle: Seq<char>, k: int)
    requires
        0 <= k < needle.len(),
        forall|i: int| 0 <= i < hay.len() ==> #[trigger] hay[i] != needle[k],
    ensures
        !occurs_in(hay, needle),
{
    if occurs_in(hay, needle) {
        let at = choose|at: int| occurs_at(hay, needle, at);
        assert(hay.subrange(at, at + needle.len())[k] == needle[k]);
        assert(hay[at + k] == needle[k]);
    }
}

/// The word `REJECTED` stands in the verdict on a policy of `reject`, and only there.
pub proof fn lemma_rejected()
    ensures
        occurs_in("Spoofed email would be REJECTED by a compliant MTA."@, "REJECTED"@),
        !occurs_in("Spoofed email would land in SPAM/JUNK on a compliant MTA."@, "REJECTED"@),
        !occurs_in("Spoofed email would likely be DELIVERED to the inbox."@, "REJECTED"@),
        !occurs_in(
            "SPF would fail, but without a restrictive DMARC policy the message may still be delivered depending on the receiving MTA's local policy."@,
            "REJECTED"@,
        ),
{
    let word = "REJECTED"@;
    reveal_strlit("REJECTED");
    assert(occurs_in("Spoofed email would be REJECTED by a compliant MTA."@, word)) by {
        let hay = "Spoofed email would be REJECTED by a compliant MTA."@;
        reveal_strlit("Spoofed email would be REJECTED by a compliant MTA.");
        assert(hay.subrange(23, 31) =~= word);
        assert(occurs_at(hay, word, 23));
    }
    assert(!occurs_in("Spoofed email would land in SPAM/JUNK on a compliant MTA."@, word)) by {
        reveal_strlit("Spoofed email would land in SPAM/JUNK on a compliant MTA.");
        lemma_absent("Spoofed email would land in SPAM/JUNK on a compliant MTA."@, word, 0);
    }
    assert(!occurs_in("Spoofed email would likely be DELIVERED to the inbox."@, word)) by {
        reveal_strlit("Spoofed email would likely be DELIVERED to the inbox.");
        lemma_absent("Spoofed email would likely be DELIVERED to the inbox."@, word, 2);
    }
    reveal_strlit("SPF would fail, but without a restrictive DMARC policy the message may still be delivered depending on the receiving MTA's local policy.");
    lemma_absent(
        "SPF would fail, but without a restrictive DMARC policy the message may still be delivered depending on the receiving MTA's local policy."@,
        word,
        2,
    );
}

/// The word `DROPPED` stands in no final verdict.
pub proof fn lemma_dropped()
    ensures
        !occurs_in("Spoofed email would be REJECTED by a compliant MTA."@, "DROPPED"@),
        !occurs_in("Spoofed email would land in SPAM/JUNK on a compliant MTA."@, "DROPPED"@),
        !occurs_in("Spoofed email would likely be DELIVERED to the inbox."@, "DROPPED"@),
        !occurs_in(
            "SPF would fail, but without a restrictive DMARC policy the message may still be delivered depending on the receiving MTA's local policy."@,
            "DROPPED"@,
        ),
{
    let word = "DROPPED"@;
    reveal_strlit("DROPPED");
    assert(!occurs_in("Spoofed email would be REJECTED by a compliant MTA."@, word)) by {
        reveal_strlit("Spoofed email would be REJECTED by a compliant MTA.");
        lemma_absent("Spoofed email would be REJECTED by a compliant MTA."@, word, 2);
    }
    assert(!occurs_in("Spoofed email would land in SPAM/JUNK on a compliant MTA."@, word)) by {
        reveal_strlit("Spoofed email would land in SPAM/JUNK on a compliant MTA.");
        lemma_absent("Spoofed email would land in SPAM/JUNK on a compliant MTA."@, word, 2);
    }
    assert(!occurs_in("Spoofed email would likely be DELIVERED to the inbox."@, word)) by {
        reveal_strlit("Spoofed email would likely be DELIVERED to the inbox.");
        lemma_absent("Spoofed email would likely be DELIVERED to the inbox."@, word, 2);
    }
    reveal_strlit("SPF would fail, but without a restrictive DMARC policy the message may still be delivered depending on the receiving MTA's local policy.");
    lemma_absent(
        "SPF would fail, but without a restrictive DMARC policy the message may still be delivered depending on the receiving MTA's local policy."@,
        word,
        2,
    );
}

/// The word `SPAM` stands in the verdict on a policy of `quarantine`, and only there.
pub proof fn lemma_spam()
    ensures
        occurs_in("Spoofed email would land in SPAM/JUNK on a compliant MTA."@, "SPAM"@),
        !occurs_in("Spoofed email would be REJECTED by a compliant MTA."@, "SPAM"@),
        !occurs_in("Spoofed email would likely be DELIVERED to the inbox."@, "SPAM"@),
        !occurs_in(
            "SPF would fail, but without a restrictive DMARC policy the message may still be delivered depending on the receiving MTA's local policy."@,
            "SPAM"@,
        ),
{
    let word = "SPAM"@;
    reveal_strlit("SPAM");
    assert(occurs_in("Spoofed email would land in SPAM/JUNK on a compliant MTA."@, word)) by {
        let hay = "Spoofed email would land in SPAM/JUNK on a compliant MTA."@;
        reveal_strlit("Spoofed email would land in SPAM/JUNK on a compliant MTA.");
        assert(hay.subrange(28, 32) =~= word);
        assert(occurs_at(hay, word, 28));
    }
    assert(!occurs_in("Spoofed email would be REJECTED by a compliant MTA."@, word)) by {
        reveal_strlit("Spoofed email would be REJECTED by a compliant MTA.");
        lemma_absent("Spoofed email would be REJECTED by a compliant MTA."@, word, 1);
    }
    assert(!occurs_in("Spoofed email would likely be DELIVERED to the inbox."@, word)) by {
        reveal_strlit("Spoofed email would likely be DELIVERED to the inbox.");
        lemma_absent("Spoofed email would likely be DELIVERED to the inbox."@, word, 1);
    }
    let hay = "SPF would fail, but without a restrictive DMARC policy the message may still be delivered depending on the receiving MTA's local policy."@;
    reveal_strlit("SPF would fail, but without a restrictive DMARC policy the message may still be delivered depending on the receiving MTA's local policy.");
    assert forall|i: int| 0 <= i < hay.len() && #[trigger] hay[i] == 'P' implies i == 1 by {}
    if occurs_in(hay, word) {
        let at = choose|at: int| occurs_at(hay, word, at);
        assert(hay.subrange(at, at + word.len())[1] == word[1]);
        assert(hay.subrange(at, at + word.len())[2] == word[2]);
        assert(hay[at + 1] == 'P');
        assert(hay[at + 2] == 'A');
    }
}

/// Rejection is predicted exactly where the domain's DMARC policy is `reject`, and spam exactly
/// where it is `quarantine`.
pub proof fn law_prediction_follows_policy(posture: PostureView)
    ensures
        predicts_reject(simulation(posture)) <==> posture.dmarc is Some
            && posture.dmarc->0.policy == DmarcPolicy::Reject,
        predicts_spam(simulation(posture)) <==> posture.dmarc is Some && posture.dmarc->0.policy
            == DmarcPolicy::Quarantine,
{
    law_four_stages(posture);
    lemma_rejected();
    lemma_dropped();
    lemma_spam();
    let last = final_stage(posture.dmarc, posture.spf);
    assert(simulation(posture)[3] == last);
    assert(predicts_reject(simulation(posture)) <==> concludes(last, "REJECTED"@) || concludes(
        last,
        "DROPPED"@,
    ));
    assert(predicts_spam(simulation(posture)) <==> concludes(last, "SPAM"@));
}

/// A delivered message contradicts a policy of `reject`, agrees in part with one of `quarantine`
/// and agrees with every other; a refused one agrees with `reject` and surprises otherwise.
pub proof fn law_comparison_follows_policy(
    posture: PostureView,
    policy: DmarcPolicy,
    dropped_at: Option<SmtpPhase>,
)
    requires
        policy == match posture.dmarc {
            Some(record) => record.policy,
            None => DmarcPolicy::Missing,
        },
    ensures
        theory(simulation(posture), true, dropped_at) == match policy {
            DmarcPolicy::Reject => "MISMATCH: Theory predicted REJECT, but the SMTP server accepted the message. The target MTA may not enforce DMARC/SPF, or this is a testing sink (Mailpit/MailHog)."@,
            DmarcPolicy::Quarantine => "PARTIAL: Theory predicted QUARANTINE/SPAM, but the SMTP server accepted at the transport layer. Content filtering may still quarantine post-acceptance."@,
            _ => "MATCH: Theory predicted delivery, and the SMTP server accepted the message."@,
        },
        theory(simulation(posture), false, dropped_at) == if policy == DmarcPolicy::Reject {
            "MATCH: Theory predicted REJECT. Server dropped the connection at phase: "@
                + phase_label(dropped_at) + "."@
        } else {
            "UNEXPECTED: Server rejected at phase "@ + phase_label(dropped_at)
                + " despite permissive DNS policy. The MTA may have local override rules or reputation-based filtering."@
        },
{
    law_prediction_follows_policy(posture);
}

/// The code of a reply never has more than three digits, and a reply without text has none.
pub proof fn law_codes_are_short(raw: Seq<char>)
    ensures
        smtp_code(raw) <= 999,
        trimmed(raw).len() == 0 ==> smtp_code(raw) == 0,
{
    let front = shortened(last_line(trimmed(raw)), 3);
    if unsigned_value(front, 65535) is Some {
        lemma_small_value(without_plus(front));
    }
    if trimmed(raw).len() == 0 {
        assert(lines(trimmed(raw)).len() == 0);
        assert(without_plus(Seq::<char>::empty()).len() == 0);
    }
}

proof fn lemma_small_value(digits: Seq<char>)
    requires
        digits.len() <= 3,
        digits.all(|c: char| is_digit(c)),
    ensures
        digits_value(digits) <= 999,
{
    let digit = |c: char| is_digit(c);
    assert forall|i: int| 0 <= i < digits.len() implies is_digit(#[trigger] digits[i]) by {
        assert(digit(digits[i]));
    }
    reveal_with_fuel(digits_value, 4);
}

/// Under a DMARC record that asks for neither rejection nor quarantine, spoofed mail is predicted to
/// be stopped by nothing but a hard SPF failure: with any other qualifier, or without SPF, the
/// verdict is delivery. Without DMARC it is delivery whatever SPF says.
pub proof fn law_only_hard_failure_casts_doubt(posture: PostureView)
    ensures
        ({
            let verdict = simulation(posture)[3].verdict;
            let asks_nothing = posture.dmarc is Some && posture.dmarc->0.policy
                != DmarcPolicy::Reject && posture.dmarc->0.policy != DmarcPolicy::Quarantine;
            let inbox = "Spoofed email would likely be DELIVERED to the inbox."@;
            let doubt = "SPF would fail, but without a restrictive DMARC policy the message may still be delivered depending on the receiving MTA's local policy."@;
            &&& posture.dmarc is None ==> verdict == inbox
            &&& asks_nothing && posture.spf is None ==> verdict == inbox
            &&& asks_nothing && posture.spf is Some ==> (verdict == inbox
                <==> posture.spf->0.qualifier != SpfQualifier::Fail)
            &&& asks_nothing && posture.spf is Some ==> (verdict == doubt
                <==> posture.spf->0.qualifier == SpfQualifier::Fail)
            &&& posture.dmarc is Some && posture.dmarc->0.policy == DmarcPolicy::Reject ==> verdict
                == "Spoofed email would be REJECTED by a compliant MTA."@
            &&& posture.dmarc is Some && posture.dmarc->0.policy == DmarcPolicy::Quarantine
                ==> verdict == "Spoofed email would land in SPAM/JUNK on a compliant MTA."@
        }),
{
    reveal_strlit("Spoofed email would likely be DELIVERED to the inbox.");
    reveal_strlit("SPF would fail, but without a restrictive DMARC policy the message may still be delivered depending on the receiving MTA's local policy.");
    assert("Spoofed email would likely be DELIVERED to the inbox."@.len()
        != "SPF would fail, but without a restrictive DMARC policy the message may still be delivered depending on the receiving MTA's local policy."@.len());
}

/// The envelope stage rejects exactly for `-all`, tags exactly for `~all`, and lets a spoofed sender
/// pass otherwise; for `-all` it names the listed mechanisms.
pub proof fn law_envelope_stage_follows_qualifier(posture: PostureView)
    ensures
        ({
            let stage = simulation(posture)[0];
            let spf = posture.spf;
            &&& spf is None ==> stage.verdict == "PASS (no record)"@
            &&& spf is Some && spf->0.qualifier == SpfQualifier::Fail ==> stage.verdict
                == "FAIL → REJECTED"@ && stage.detail
                == "SPF -all means the receiving MTA should reject mail from IPs not listed in: "@
                + debug_list(spf->0.mechanisms)
                + ". A spoofed envelope from an unauthorized IP will be dropped here."@
            &&& spf is Some && spf->0.qualifier == SpfQualifier::SoftFail ==> stage.verdict
                == "SOFTFAIL → TAGGED"@
            &&& spf is Some && (spf->0.qualifier == SpfQualifier::Neutral || spf->0.qualifier
                == SpfQualifier::Pass) ==> stage.verdict == "PASS → ACCEPTED"@
            &&& spf is Some && spf->0.qualifier == SpfQualifier::Missing ==> stage.verdict
                == "PASS (no terminator)"@
        }),
{
}

/// The signature stage is skipped exactly where no key was found, and otherwise names every key's
/// selector, in order.
pub proof fn law_signature_stage_follows_keys(posture: PostureView, selectors: Seq<Seq<char>>)
    requires
        selectors.len() == posture.dkim_keys.len(),
        forall|i: int|
            0 <= i < selectors.len() ==> #[trigger] selectors[i] == posture.dkim_keys[i].selector,
    ensures
        ({
            let stage = simulation(posture)[1];
            &&& posture.dkim_keys.len() == 0 ==> stage.verdict == "SKIP → NO KEYS"@
            &&& posture.dkim_keys.len() > 0 ==> stage.verdict == "FAIL → SIGNATURE MISMATCH"@
                && stage.detail == "DKIM keys exist for selectors "@ + debug_list(selectors)
                + ". A spoofed message won't have a valid signature, so DKIM verification will fail."@
        }),
{
    assert(selectors_of(posture.dkim_keys) =~= selectors);
}

/// The policy stage does what the DMARC policy asks, and names its share.
pub proof fn law_policy_stage_follows_policy(posture: PostureView)
    ensures
        ({
            let stage = simulation(posture)[2];
            let dmarc = posture.dmarc;
            &&& dmarc is None ==> stage.verdict == "NO POLICY → DELIVERED"@
            &&& dmarc is Some && dmarc->0.policy == DmarcPolicy::Reject ==> stage.verdict
                == "REJECT → DROPPED"@ && stage.detail == "DMARC p=reject at pct="@ + decimal(
                dmarc->0.pct as nat,
            ) + ". If both SPF and DKIM fail alignment, the message will be rejected outright."@
            &&& dmarc is Some && dmarc->0.policy == DmarcPolicy::Quarantine ==> stage.verdict
                == "QUARANTINE → SPAM"@ && stage.detail == "DMARC p=quarantine at pct="@ + decimal(
                dmarc->0.pct as nat,
            ) + ". Failing messages will be routed to spam/junk."@
            &&& dmarc is Some && dmarc->0.policy != DmarcPolicy::Reject && dmarc->0.policy
                != DmarcPolicy::Quarantine ==> stage.verdict == "NONE → DELIVERED"@
        }),
{
}

/// Each verdict that is not a matter of names or numbers carries its reason.
pub proof fn law_stages_give_reasons(posture: PostureView)
    ensures
        ({
            let stages = simulation(posture);
            let spf = posture.spf;
            let dmarc = posture.dmarc;
            &&& spf is None ==> stages[0].detail
                == "No SPF record exists. The receiving MTA has no basis to reject the envelope sender. A spoofed MAIL FROM will be accepted."@
            &&& spf is Some && spf->0.qualifier == SpfQualifier::SoftFail ==> stages[0].detail
                == "SPF ~all tags unauthorized senders but does not reject. The message will likely land in spam, not be dropped."@
            &&& spf is Some && (spf->0.qualifier == SpfQualifier::Neutral || spf->0.qualifier
                == SpfQualifier::Pass) ==> stages[0].detail
                == "SPF policy is permissive (?all or +all). Spoofed envelope sender will pass SPF."@
            &&& spf is Some && spf->0.qualifier == SpfQualifier::Missing ==> stages[0].detail
                == "SPF record exists but has no valid all-mechanism terminator. Most MTAs treat this as neutral."@
            &&& posture.dkim_keys.len() == 0 ==> stages[1].detail
                == "No DKIM keys were discovered. The receiving MTA cannot verify a DKIM signature, so this check is effectively skipped for spoofed mail."@
            &&& dmarc is None ==> stages[2].detail
                == "No DMARC record. Even if SPF or DKIM failed, there is no policy instructing the MTA to reject or quarantine. Spoofed mail will be delivered to the inbox."@
            &&& dmarc is Some && dmarc->0.policy != DmarcPolicy::Reject && dmarc->0.policy
                != DmarcPolicy::Quarantine ==> stages[2].detail
                == "DMARC p=none provides monitoring only. Spoofed mail that fails SPF/DKIM will still be delivered."@
            &&& dmarc is None ==> stages[3].detail
                == "Without a DMARC record, there is no enforcement policy. The domain is vulnerable to direct spoofing."@
            &&& dmarc is Some ==> stages[3].detail
                == "This is a prediction based on published DNS records. Actual delivery depends on the receiving MTA's implementation and local overrides."@
        }),
{
}

/// Any list of stage results predicts rejection exactly where a final verdict in it holds `REJECTED`
/// or `DROPPED`, and spam exactly where one holds `SPAM`; the comparison rests on that, on whether
/// the message was taken, and on the phase alone.
pub proof fn law_comparison_reads_final_verdicts(
    results: Seq<SpoofTestResultView>,
    dropped_at: Option<SmtpPhase>,
)
    ensures
        ({
            let reject = exists|i: int|
                0 <= i < results.len() && (#[trigger] results[i]).stage == "Final Verdict"@ && (
                occurs_in(results[i].verdict, "REJECTED"@) || occurs_in(
                    results[i].verdict,
                    "DROPPED"@,
                ));
            let spam = exists|i: int|
                0 <= i < results.len() && (#[trigger] results[i]).stage == "Final Verdict"@
                    && occurs_in(results[i].verdict, "SPAM"@);
            let phase = match dropped_at {
                Some(p) => p.label(),
                None => "UNKNOWN"@,
            };
            &&& theory(results, true, dropped_at) == if reject {
                "MISMATCH: Theory predicted REJECT, but the SMTP server accepted the message. The target MTA may not enforce DMARC/SPF, or this is a testing sink (Mailpit/MailHog)."@
            } else if spam {
                "PARTIAL: Theory predicted QUARANTINE/SPAM, but the SMTP server accepted at the transport layer. Content filtering may still quarantine post-acceptance."@
            } else {
                "MATCH: Theory predicted delivery, and the SMTP server accepted the message."@
            }
            &&& theory(results, false, dropped_at) == if reject {
                "MATCH: Theory predicted REJECT. Server dropped the connection at phase: "@ + phase
                    + "."@
            } else {
                "UNEXPECTED: Server rejected at phase "@ + phase
                    + " despite permissive DNS policy. The MTA may have local override rules or reputation-based filtering."@
            }
        }),
{
    if predicts_reject(results) {
        let i = choose|i: int|
            0 <= i < results.len() && (concludes(#[trigger] results[i], "REJECTED"@) || concludes(
                results[i],
                "DROPPED"@,
            ));
        assert(results[i].stage == "Final Verdict"@);
    }
    if predicts_spam(results) {
        let i = choose|i: int| 0 <= i < results.len() && concludes(#[trigger] results[i], "SPAM"@);
        assert(results[i].stage == "Final Verdict"@);
    }
}

/// Success is a code from 200 to 399.
pub proof fn law_success_is_two_or_three_hundred(code: u16)
    ensures
        success_code(code) <==> 200 <= code <= 399,
{
}

proof fn lemma_last_of_lines(front: Seq<char>, line: Seq<char>)
    requires
        line.len() > 0,
        lacks(line, '\n'),
    ensures
        lines(front.push('\n') + line).len() > 0,
        lines(front.push('\n') + line).last() == line,
    decreases front.len(),
{
    let whole = front.push('\n') + line;
    let at = first_index(front, '\n') as int;
    lemma_first_index(front, '\n');
    assert forall|i: int| 0 <= i < at implies #[trigger] whole[i] != '\n' by {
        assert(whole[i] == front[i]);
    }
    assert(whole[at] == '\n');
    lemma_first_index_is(whole, '\n', at);
    let rest = whole.skip(at + 1);
    if at < front.len() {
        let behind = front.skip(at + 1);
        assert(rest =~= behind.push('\n') + line);
        lemma_last_of_lines(behind, line);
    } else {
        assert(rest =~= line);
        law_lines_end_at_line_feeds(line, Seq::empty());
    }
    let all = seq![without_cr(whole.take(at))] + lines(rest);
    assert(lines(whole) == all);
    assert(all.last() == lines(rest).last());
}

/// The code of a reply is the number made of the three digits in front of its last line, whatever
/// the lines above say; white space around the reply does not matter.
pub proof fn law_code_stands_before_last_line(
    blank_front: Seq<char>,
    above: Seq<char>,
    code: u16,
    rest: Seq<char>,
    blank_back: Seq<char>,
)
    requires
        blank(blank_front),
        blank(blank_back),
        100 <= code <= 999,
        lacks(rest, '\n'),
        rest.len() > 0 ==> !white_space(rest.last()),
        above.len() > 0 ==> !white_space(above[0]) && above.last() == '\n',
    ensures
        smtp_code(blank_front + (above + decimal(code as nat) + rest) + blank_back) == code,
{
    let digits = decimal(code as nat);
    let line = digits + rest;
    let text = above + digits + rest;
    lemma_three_digits(code as nat);
    assert(text =~= above + line);
    law_decimal_has_no_leading_zero(code as nat);
    assert(line[0] == digits[0]);
    if above.len() > 0 {
        assert(text[0] == above[0]);
    } else {
        assert(text =~= line);
    }
    if rest.len() > 0 {
        assert(text.last() == rest.last());
    } else {
        assert(text.last() == digits[2]);
    }
    law_trim_drops_blank_ends(blank_front, text, blank_back);
    assert forall|i: int| 0 <= i < line.len() implies #[trigger] line[i] != '\n' by {
        if i < 3 {
            assert(line[i] == digits[i]);
        } else {
            assert(line[i] == rest[i - 3]);
        }
    }
    if above.len() > 0 {
        let front = above.drop_last();
        assert(front.push('\n') =~= above);
        lemma_last_of_lines(front, line);
    } else {
        law_lines_end_at_line_feeds(line, Seq::empty());
    }
    assert(last_line(text) == line);
    assert(line.take(3) =~= digits);
    if line.len() == 3 {
        assert(line =~= digits);
    }
    law_decimal_reads_back(code as nat, 65535);
}

proof fn lemma_three_digits(n: nat)
    requires
        100 <= n <= 999,
    ensures
        decimal(n).len() == 3,
{
    reveal_with_fuel(decimal, 4);
}

/// A reply whose last line does not begin with digits has no code.
pub proof fn law_no_digits_no_code(line: Seq<char>, i: int)
    requires
        lacks(line, '\n'),
        line.len() > 0,
        !white_space(line[0]) && !white_space(line.last()),
        0 <= i < 3,
        i < line.len(),
        !('0' <= line[i] <= '9'),
        i == 0 ==> line[0] != '+',
    ensures
        smtp_code(line) == 0,
{
    let none = Seq::<char>::empty();
    law_trim_drops_blank_ends(none, line, none);
    assert(none + line + none =~= line);
    law_lines_end_at_line_feeds(line, none);
    let front = shortened(line, 3);
    assert(front[i] == line[i]);
    law_numbers_are_digits(front, 65535);
}

} // verus!
