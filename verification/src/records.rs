//! What each field of a record says, tag by tag and term by term.

use crate::models::{AlignmentMode, DmarcPolicy, SpfQualifier};
use crate::parser::{
    dkim_key, dmarc_record, is_mechanism, law_bits_are_exact, law_first_tag_wins, spf_mechanisms,
    spf_qualifier, spf_record, tag_value,
};
use crate::tags::{bare, law_written_tags_read_back, writable, written};
use crate::text::{
    all_digits, decimal, digits_value, law_decimal_reads_back, law_found_means_within,
    law_numbers_are_digits, law_words_stand_between_blanks, occurs_in, solid, trimmed, white_space,
    words,
};
use vstd::prelude::*;
use vstd::utf8::encode_utf8;

verus! {

broadcast use vstd::string::group_string_axioms;

/// The first segment with a key stands at a place, or there is none where the place is the end.
pub open spec fn first_with_key(
    fields: Seq<(Seq<char>, Seq<char>)>,
    key: Seq<char>,
    at: int,
) -> bool {
    &&& 0 <= at <= fields.len()
    &&& forall|i: int| 0 <= i < at ==> trimmed((#[trigger] fields[i]).0) != key
    &&& at < fields.len() ==> trimmed(fields[at].0) == key
}

/// A text of segments gives a key the value in the first segment with that key.
pub proof fn law_first_segment_gives_value(
    fields: Seq<(Seq<char>, Seq<char>)>,
    key: Seq<char>,
    at: int,
)
    requires
        writable(fields),
        first_with_key(fields, key, at),
    ensures
        at < fields.len() ==> tag_value(written(fields), key) == Some(trimmed(fields[at].1)),
        at == fields.len() ==> tag_value(written(fields), key) is None,
{
    law_written_tags_read_back(fields);
    let list = bare(fields);
    assert forall|i: int| 0 <= i < at implies (#[trigger] list[i]).0 != key by {
        assert(trimmed(fields[i].0) != key);
    }
    law_first_tag_wins(list, key, at);
}

// ─── DMARC ─────────────────────────────────────────────────────────

proof fn lemma_policies_differ()
    ensures
        "reject"@ != "quarantine"@,
        "reject"@ != "none"@,
        "quarantine"@ != "none"@,
        "s"@ != "r"@,
{
    reveal_strlit("reject");
    reveal_strlit("quarantine");
    reveal_strlit("none");
    reveal_strlit("s");
    reveal_strlit("r");
    assert("reject"@.len() != "quarantine"@.len());
    assert("reject"@.len() != "none"@.len());
    assert("quarantine"@.len() != "none"@.len());
    assert("s"@[0] != "r"@[0]);
}

/// The policy of a DMARC text is what its `p` tag names, and nothing else in the text bears on it.
pub proof fn law_policy_is_p_tag(raw: Seq<char>)
    ensures
        dmarc_record(raw).policy == DmarcPolicy::Reject <==> tag_value(raw, "p"@) == Some(
            "reject"@,
        ),
        dmarc_record(raw).policy == DmarcPolicy::Quarantine <==> tag_value(raw, "p"@) == Some(
            "quarantine"@,
        ),
        dmarc_record(raw).policy == DmarcPolicy::NoAction <==> tag_value(raw, "p"@) == Some(
            "none"@,
        ),
{
    lemma_policies_differ();
}

/// Of a text made of segments: the first `p` segment names the policy, whatever the other
/// segments say.
pub proof fn law_first_p_segment_names_policy(fields: Seq<(Seq<char>, Seq<char>)>, at: int)
    requires
        writable(fields),
        first_with_key(fields, "p"@, at),
    ensures
        dmarc_record(written(fields)).policy == (if at == fields.len() {
            DmarcPolicy::Missing
        } else if trimmed(fields[at].1) == "reject"@ {
            DmarcPolicy::Reject
        } else if trimmed(fields[at].1) == "quarantine"@ {
            DmarcPolicy::Quarantine
        } else if trimmed(fields[at].1) == "none"@ {
            DmarcPolicy::NoAction
        } else {
            DmarcPolicy::Missing
        }),
{
    law_first_segment_gives_value(fields, "p"@, at);
}

/// The subdomain policy of a DMARC text is what its `sp` tag names: there is one exactly where
/// there is a tag, and a name that is not known asks for nothing.
pub proof fn law_subdomain_policy_is_sp_tag(raw: Seq<char>)
    ensures
        dmarc_record(raw).subdomain_policy is None <==> tag_value(raw, "sp"@) is None,
        dmarc_record(raw).subdomain_policy == Some(DmarcPolicy::Reject) <==> tag_value(raw, "sp"@)
            == Some("reject"@),
        dmarc_record(raw).subdomain_policy == Some(DmarcPolicy::Quarantine) <==> tag_value(
            raw,
            "sp"@,
        ) == Some("quarantine"@),
        dmarc_record(raw).subdomain_policy != Some(DmarcPolicy::Missing),
{
    lemma_policies_differ();
}

/// Of a text made of segments: the first `sp` segment names the subdomain policy.
pub proof fn law_first_sp_segment_names_subdomain_policy(
    fields: Seq<(Seq<char>, Seq<char>)>,
    at: int,
)
    requires
        writable(fields),
        first_with_key(fields, "sp"@, at),
    ensures
        dmarc_record(written(fields)).subdomain_policy == (if at == fields.len() {
            None
        } else if trimmed(fields[at].1) == "reject"@ {
            Some(DmarcPolicy::Reject)
        } else if trimmed(fields[at].1) == "quarantine"@ {
            Some(DmarcPolicy::Quarantine)
        } else {
            Some(DmarcPolicy::NoAction)
        }),
{
    law_first_segment_gives_value(fields, "sp"@, at);
}

/// Reports go where the `rua` and `ruf` tags say, each on its own, and the text itself is kept.
pub proof fn law_reports_are_rua_and_ruf_tags(raw: Seq<char>)
    ensures
        dmarc_record(raw).raw == raw,
        dmarc_record(raw).rua == tag_value(raw, "rua"@),
        dmarc_record(raw).ruf == tag_value(raw, "ruf"@),
{
}

/// Of a text made of segments: the first `rua` and `ruf` segments say where reports go.
pub proof fn law_first_report_segments_say_where(
    fields: Seq<(Seq<char>, Seq<char>)>,
    rua: int,
    ruf: int,
)
    requires
        writable(fields),
        first_with_key(fields, "rua"@, rua),
        first_with_key(fields, "ruf"@, ruf),
    ensures
        dmarc_record(written(fields)).rua == (if rua < fields.len() {
            Some(trimmed(fields[rua].1))
        } else {
            None
        }),
        dmarc_record(written(fields)).ruf == (if ruf < fields.len() {
            Some(trimmed(fields[ruf].1))
        } else {
            None
        }),
{
    law_first_segment_gives_value(fields, "rua"@, rua);
    law_first_segment_gives_value(fields, "ruf"@, ruf);
}

/// The share of mail is the number in the first `pct` segment where that is a row of digits worth
/// 255 at most, perhaps behind a plus sign, and 100 where there is no such segment or its text is
/// no such number.
pub proof fn law_first_pct_segment_gives_share(fields: Seq<(Seq<char>, Seq<char>)>, at: int)
    requires
        writable(fields),
        first_with_key(fields, "pct"@, at),
    ensures
        at == fields.len() ==> dmarc_record(written(fields)).pct == 100,
        at < fields.len() ==> ({
            let text = trimmed(fields[at].1);
            let digits = if text.len() > 0 && text[0] == '+' {
                text.skip(1)
            } else {
                text
            };
            dmarc_record(written(fields)).pct == (if digits.len() > 0 && all_digits(digits)
                && digits_value(digits) <= 255 {
                digits_value(digits) as int
            } else {
                100
            })
        }),
        at < fields.len() ==> forall|n: u8|
            trimmed(fields[at].1) == #[trigger] decimal(n as nat) ==> dmarc_record(
                written(fields),
            ).pct == n,
{
    law_first_segment_gives_value(fields, "pct"@, at);
    if at < fields.len() {
        let text = trimmed(fields[at].1);
        law_numbers_are_digits(text, 255);
        if text.len() > 0 && text[0] == '+' {
            let digits = text.skip(1);
            assert(text =~= seq!['+'] + digits);
            law_numbers_are_digits(digits, 255);
            if !all_digits(digits) {
                let i = choose|i: int|
                    0 <= i < digits.len() && !('0' <= #[trigger] digits[i] <= '9');
                assert(text[i + 1] == digits[i]);
            }
            if digits.len() == 0 {
                assert(text =~= seq!['+']);
            }
        } else if !all_digits(text) {
            let i = choose|i: int| 0 <= i < text.len() && !('0' <= #[trigger] text[i] <= '9');
            assert(!('0' <= text[i] <= '9'));
        }
        assert forall|n: u8| text == #[trigger] decimal(n as nat) implies dmarc_record(
            written(fields),
        ).pct == n by {
            law_decimal_reads_back(n as nat, 255);
        }
    }
}

/// DKIM alignment is what the `adkim` tag names and SPF alignment what the `aspf` tag names, each
/// on its own.
pub proof fn law_alignments_are_their_tags(raw: Seq<char>)
    ensures
        dmarc_record(raw).adkim == AlignmentMode::Strict <==> tag_value(raw, "adkim"@) == Some(
            "s"@,
        ),
        dmarc_record(raw).adkim == AlignmentMode::Relaxed <==> tag_value(raw, "adkim"@) == Some(
            "r"@,
        ),
        dmarc_record(raw).aspf == AlignmentMode::Strict <==> tag_value(raw, "aspf"@) == Some(
            "s"@,
        ),
        dmarc_record(raw).aspf == AlignmentMode::Relaxed <==> tag_value(raw, "aspf"@) == Some(
            "r"@,
        ),
{
    lemma_policies_differ();
}

/// Of a text made of segments: the first `adkim` and `aspf` segments name the alignments.
pub proof fn law_first_alignment_segments_name_modes(
    fields: Seq<(Seq<char>, Seq<char>)>,
    adkim: int,
    aspf: int,
)
    requires
        writable(fields),
        first_with_key(fields, "adkim"@, adkim),
        first_with_key(fields, "aspf"@, aspf),
    ensures
        dmarc_record(written(fields)).adkim == (if adkim == fields.len() {
            AlignmentMode::Unset
        } else if trimmed(fields[adkim].1) == "s"@ {
            AlignmentMode::Strict
        } else if trimmed(fields[adkim].1) == "r"@ {
            AlignmentMode::Relaxed
        } else {
            AlignmentMode::Unset
        }),
        dmarc_record(written(fields)).aspf == (if aspf == fields.len() {
            AlignmentMode::Unset
        } else if trimmed(fields[aspf].1) == "s"@ {
            AlignmentMode::Strict
        } else if trimmed(fields[aspf].1) == "r"@ {
            AlignmentMode::Relaxed
        } else {
            AlignmentMode::Unset
        }),
{
    law_first_segment_gives_value(fields, "adkim"@, adkim);
    law_first_segment_gives_value(fields, "aspf"@, aspf);
}

// ─── DKIM ──────────────────────────────────────────────────────────

/// A DKIM key keeps its selector and its text; its type is the `k` tag, `rsa` where there is none;
/// its public key is the `p` tag, empty where there is none; and it is valid exactly where the
/// text names the version and the public key is not empty.
pub proof fn law_dkim_key_reads_its_tags(selector: Seq<char>, raw: Seq<char>)
    ensures
        ({
            let key = dkim_key(selector, raw);
            &&& key.selector == selector
            &&& key.raw == raw
            &&& tag_value(raw, "k"@) is None ==> key.key_type == "rsa"@
            &&& tag_value(raw, "k"@) is Some ==> key.key_type == tag_value(raw, "k"@)->0
            &&& tag_value(raw, "p"@) is None ==> key.public_key.len() == 0
            &&& tag_value(raw, "p"@) is Some ==> key.public_key == tag_value(raw, "p"@)->0
            &&& key.valid_syntax <==> (occurs_in(raw, "v=DKIM1"@) || occurs_in(raw, "v=dkim1"@))
                && key.public_key.len() > 0
        }),
{
}

/// Of a text made of segments: the first `k` segment names the type and the first `p` segment
/// holds the key.
pub proof fn law_first_dkim_segments_give_key(
    selector: Seq<char>,
    fields: Seq<(Seq<char>, Seq<char>)>,
    k: int,
    p: int,
)
    requires
        writable(fields),
        first_with_key(fields, "k"@, k),
        first_with_key(fields, "p"@, p),
    ensures
        dkim_key(selector, written(fields)).key_type == (if k < fields.len() {
            trimmed(fields[k].1)
        } else {
            "rsa"@
        }),
        dkim_key(selector, written(fields)).public_key == (if p < fields.len() {
            trimmed(fields[p].1)
        } else {
            Seq::empty()
        }),
{
    law_first_segment_gives_value(fields, "k"@, k);
    law_first_segment_gives_value(fields, "p"@, p);
}

/// Four bytes of a public key stand for three, of eight bits each: the size counts whole bytes and
/// never falls as the key grows.
pub proof fn law_four_bytes_stand_for_three(selector: Seq<char>, raw: Seq<char>)
    requires
        encode_utf8(raw).len() * 6 <= usize::MAX,
    ensures
        ({
            let key = dkim_key(selector, raw);
            let size = encode_utf8(key.public_key).len();
            &&& key.key_bits_approx % 8 == 0
            &&& key.key_bits_approx <= 6 * size < key.key_bits_approx + 8
        }),
{
    law_bits_are_exact(raw);
}

// ─── SPF ───────────────────────────────────────────────────────────

/// A record keeps its text, and is read from it.
pub proof fn law_spf_record_keeps_text(raw: Seq<char>)
    ensures
        spf_record(raw).raw == raw,
        spf_record(raw).qualifier == spf_qualifier(raw),
        spf_record(raw).mechanisms == spf_mechanisms(raw),
{
}

/// Where a record does not end in an `all` mechanism, one that stands inside it behind a space
/// decides, the strictest first; where none does, there is no qualifier.
pub proof fn law_inner_term_decides(raw: Seq<char>)
    requires
        !"-all"@.is_suffix_of(raw),
        !"~all"@.is_suffix_of(raw),
        !"?all"@.is_suffix_of(raw),
        !"+all"@.is_suffix_of(raw),
        !" all"@.is_suffix_of(raw),
    ensures
        ({
            let fail = exists|a: Seq<char>, b: Seq<char>| raw == #[trigger] (a + " -all"@ + b);
            let soft = exists|a: Seq<char>, b: Seq<char>| raw == #[trigger] (a + " ~all"@ + b);
            let neutral = exists|a: Seq<char>, b: Seq<char>| raw == #[trigger] (a + " ?all"@ + b);
            let pass = exists|a: Seq<char>, b: Seq<char>| raw == #[trigger] (a + " +all"@ + b);
            let q = spf_record(raw).qualifier;
            &&& q == SpfQualifier::Fail <==> fail
            &&& q == SpfQualifier::SoftFail <==> soft && !fail
            &&& q == SpfQualifier::Neutral <==> neutral && !soft && !fail
            &&& q == SpfQualifier::Pass <==> pass && !neutral && !soft && !fail
            &&& q == SpfQualifier::Missing <==> !pass && !neutral && !soft && !fail
        }),
{
    law_found_means_within(raw, " -all"@);
    law_found_means_within(raw, " ~all"@);
    law_found_means_within(raw, " ?all"@);
    law_found_means_within(raw, " +all"@);
}

/// A record read word by word: behind white space, a further word is one more mechanism, unless it
/// is the version or ends in `all`; and white space adds none.
pub proof fn law_mechanisms_grow_by_words(raw: Seq<char>, space: char, word: Seq<char>)
    requires
        white_space(space),
        word.len() > 0,
        solid(word),
    ensures
        spf_record(Seq::empty()).mechanisms.len() == 0,
        spf_record(raw.push(space)).mechanisms == spf_record(raw).mechanisms,
        word != "v=spf1"@ && !"all"@.is_suffix_of(word) ==> spf_record(
            raw.push(space) + word,
        ).mechanisms == spf_record(raw).mechanisms.push(word),
        word == "v=spf1"@ || "all"@.is_suffix_of(word) ==> spf_record(
            raw.push(space) + word,
        ).mechanisms == spf_record(raw).mechanisms,
        word != "v=spf1"@ && !"all"@.is_suffix_of(word) ==> spf_record(word).mechanisms == seq![
            word,
        ],
        word == "v=spf1"@ || "all"@.is_suffix_of(word) ==> spf_record(word).mechanisms.len() == 0,
{
    let keep = |w: Seq<char>| is_mechanism(w);
    law_words_stand_between_blanks(raw, space, word);
    let none = Seq::<Seq<char>>::empty();
    assert(none.filter(keep) =~= none) by {
        reveal(Seq::filter);
    }
    words(raw).lemma_filter_push(word, keep);
    none.lemma_filter_push(word, keep);
    assert(none.push(word) =~= seq![word]);
}

} // verus!
