//! Reading SPF, DMARC and DKIM records.

use crate::models::{
    AlignmentMode, DkimKey, DkimKeyView, DmarcPolicy, DmarcRecord, DmarcRecordView, SpfQualifier,
    SpfRecord, SpfRecordView,
};
use crate::text::{
    contains, decimal, ends_with, first_index, from_chars, law_decimal_reads_back,
    law_words_are_solid, occurs_in, parse_unsigned, pieces, same, split_on, split_words, to_chars,
    trim, trimmed, trimmed_end, trimmed_start, unsigned_value, white_space, words,
};
use vstd::arithmetic::div_mod::lemma_small_mod;
use vstd::prelude::*;
use vstd::slice::slice_subrange;
use vstd::utf8::encode_utf8;

verus! {

broadcast use vstd::string::group_string_axioms;

// ─── SPF ───────────────────────────────────────────────────────────

/// What a record says of senders that it does not list. The `all` mechanism at its end decides;
/// where it ends otherwise, the strictest that stands in it behind a space.
pub open spec fn spf_qualifier(raw: Seq<char>) -> SpfQualifier {
    if "-all"@.is_suffix_of(raw) {
        SpfQualifier::Fail
    } else if "~all"@.is_suffix_of(raw) {
        SpfQualifier::SoftFail
    } else if "?all"@.is_suffix_of(raw) {
        SpfQualifier::Neutral
    } else if "+all"@.is_suffix_of(raw) || " all"@.is_suffix_of(raw) {
        SpfQualifier::Pass
    } else if occurs_in(raw, " -all"@) {
        SpfQualifier::Fail
    } else if occurs_in(raw, " ~all"@) {
        SpfQualifier::SoftFail
    } else if occurs_in(raw, " ?all"@) {
        SpfQualifier::Neutral
    } else if occurs_in(raw, " +all"@) {
        SpfQualifier::Pass
    } else {
        SpfQualifier::Missing
    }
}

/// A word of an SPF record that is neither its version nor an `all` mechanism.
pub open spec fn is_mechanism(word: Seq<char>) -> bool {
    word != "v=spf1"@ && !"all"@.is_suffix_of(word)
}

/// The mechanisms of an SPF record, in order.
pub open spec fn spf_mechanisms(raw: Seq<char>) -> Seq<Seq<char>> {
    words(raw).filter(|word: Seq<char>| is_mechanism(word))
}

/// An SPF record read from its text.
pub open spec fn spf_record(raw: Seq<char>) -> SpfRecordView {
    SpfRecordView { raw, qualifier: spf_qualifier(raw), mechanisms: spf_mechanisms(raw) }
}

fn read_qualifier(raw: &str) -> (qualifier: SpfQualifier)
    ensures
        qualifier == spf_qualifier(raw@),
{
    if ends_with(raw, "-all") {
        SpfQualifier::Fail
    } else if ends_with(raw, "~all") {
        SpfQualifier::SoftFail
    } else if ends_with(raw, "?all") {
        SpfQualifier::Neutral
    } else if ends_with(raw, "+all") || ends_with(raw, " all") {
        SpfQualifier::Pass
    } else if contains(raw, " -all") {
        SpfQualifier::Fail
    } else if contains(raw, " ~all") {
        SpfQualifier::SoftFail
    } else if contains(raw, " ?all") {
        SpfQualifier::Neutral
    } else if contains(raw, " +all") {
        SpfQualifier::Pass
    } else {
        SpfQualifier::Missing
    }
}

/// Reads an SPF record.
pub fn parse_spf(raw: &str) -> (record: SpfRecord)
    ensures
        record@ == spf_record(raw@),
{
    let qualifier = read_qualifier(raw);
    let all = split_words(raw);
    let ghost keep = |word: Seq<char>| is_mechanism(word);
    let mut mechanisms: Vec<String> = Vec::new();
    proof {
        reveal(Seq::filter);
    }
    for i in 0..all.len()
        invariant
            keep == (|word: Seq<char>| is_mechanism(word)),
            mechanisms.deep_view() == all.deep_view().take(i as int).filter(keep),
    {
        let ghost before = mechanisms.deep_view();
        proof {
            let seen = all.deep_view().take(i as int);
            seen.lemma_filter_push(all@[i as int]@, keep);
            assert(all.deep_view().take(i + 1) =~= seen.push(all@[i as int]@));
        }
        if !same(all[i].as_str(), "v=spf1") && !ends_with(all[i].as_str(), "all") {
            mechanisms.push(all[i].clone());
            assert(mechanisms.deep_view() =~= before.push(all@[i as int]@));
        }
    }
    assert(all.deep_view().take(all.len() as int) =~= words(raw@));
    SpfRecord { raw: raw.to_string(), qualifier, mechanisms }
}

// ─── Tag lists ─────────────────────────────────────────────────────

/// A tag: the text in front of the first equals sign and the text behind it.
pub open spec fn tag_of(segment: Seq<char>) -> Option<(Seq<char>, Seq<char>)> {
    let body = trimmed(segment);
    let at = first_index(body, '=') as int;
    if at < body.len() {
        Some((trimmed(body.take(at)), trimmed(body.skip(at + 1))))
    } else {
        None
    }
}

/// The tags of a record, which semicolons part. What is no tag is passed over.
pub open spec fn tags(raw: Seq<char>) -> Seq<(Seq<char>, Seq<char>)> {
    pieces(raw, ';').filter_map(|segment: Seq<char>| tag_of(segment))
}

/// The value of the first tag with a key.
pub open spec fn first_value(list: Seq<(Seq<char>, Seq<char>)>, key: Seq<char>) -> Option<
    Seq<char>,
>
    decreases list.len(),
{
    if list.len() == 0 {
        None
    } else if list[0].0 == key {
        Some(list[0].1)
    } else {
        first_value(list.drop_first(), key)
    }
}

/// The value that a record gives to a key.
pub open spec fn tag_value(raw: Seq<char>, key: Seq<char>) -> Option<Seq<char>> {
    first_value(tags(raw), key)
}

fn parse_tag(segment: &str) -> (tag: Option<(String, String)>)
    ensures
        tag.deep_view() == tag_of(segment@),
{
    let body = to_chars(trim(segment).as_str());
    let mut at: usize = 0;
    assert(body@.skip(0) =~= body@);
    while at < body.len() && body[at] != '='
        invariant
            at <= body@.len(),
            first_index(body@, '=') == at + first_index(body@.skip(at as int), '='),
        decreases body@.len() - at,
    {
        assert(body@.skip(at as int).drop_first() =~= body@.skip(at + 1));
        at = at + 1;
    }
    if at == body.len() {
        return None;
    }
    let key = from_chars(slice_subrange(body.as_slice(), 0, at));
    let value = from_chars(slice_subrange(body.as_slice(), at + 1, body.len()));
    assert(key@ =~= body@.take(at as int));
    assert(value@ =~= body@.skip(at + 1));
    Some((trim(key.as_str()), trim(value.as_str())))
}

/// Reads the tags of a record.
pub fn parse_tags(raw: &str) -> (list: Vec<(String, String)>)
    ensures
        list.deep_view() == tags(raw@),
{
    let segments = split_on(raw, ';');
    let ghost all = segments.deep_view();
    let ghost f = |segment: Seq<char>| tag_of(segment);
    let mut list: Vec<(String, String)> = Vec::new();
    assert(list.deep_view() =~= all.take(0).filter_map(f));
    for i in 0..segments.len()
        invariant
            all == segments.deep_view(),
            f == (|segment: Seq<char>| tag_of(segment)),
            list.deep_view() == all.take(i as int).filter_map(f),
    {
        let ghost before = list.deep_view();
        proof {
            all.lemma_filter_map_take_succ(f, i as int);
        }
        if let Some(tag) = parse_tag(segments[i].as_str()) {
            let ghost shown = tag.deep_view();
            list.push(tag);
            assert(list.deep_view() =~= before + seq![shown]);
        } else {
            assert(before + Seq::empty() =~= before);
        }
    }
    assert(all.take(segments.len() as int) =~= all);
    list
}

/// Looks up the first tag with a key.
pub fn lookup(list: &Vec<(String, String)>, key: &str) -> (value: Option<String>)
    ensures
        value.deep_view() == first_value(list.deep_view(), key@),
{
    let ghost all = list.deep_view();
    assert(all.skip(0) =~= all);
    for i in 0..list.len()
        invariant
            all == list.deep_view(),
            first_value(all, key@) == first_value(all.skip(i as int), key@),
    {
        assert(all.skip(i as int)[0] == list@[i as int].deep_view());
        assert(all.skip(i as int).drop_first() =~= all.skip(i + 1));
        if same(list[i].0.as_str(), key) {
            return Some(list[i].1.clone());
        }
    }
    None
}

// ─── DMARC ─────────────────────────────────────────────────────────

/// The policy that a `p` tag names.
pub open spec fn policy_of(value: Option<Seq<char>>) -> DmarcPolicy {
    match value {
        Some(name) => if name == "reject"@ {
            DmarcPolicy::Reject
        } else if name == "quarantine"@ {
            DmarcPolicy::Quarantine
        } else if name == "none"@ {
            DmarcPolicy::NoAction
        } else {
            DmarcPolicy::Missing
        },
        None => DmarcPolicy::Missing,
    }
}

/// The policy that an `sp` tag names. An unknown name asks for no action.
pub open spec fn subdomain_policy_of(value: Option<Seq<char>>) -> Option<DmarcPolicy> {
    match value {
        Some(name) => if name == "reject"@ {
            Some(DmarcPolicy::Reject)
        } else if name == "quarantine"@ {
            Some(DmarcPolicy::Quarantine)
        } else {
            Some(DmarcPolicy::NoAction)
        },
        None => None,
    }
}

/// The share that a `pct` tag gives: a number that fits a byte, else 100.
pub open spec fn pct_of(value: Option<Seq<char>>) -> u8 {
    match value {
        Some(number) => match unsigned_value(number, 255) {
            Some(n) => n as u8,
            None => 100,
        },
        None => 100,
    }
}

/// The alignment that an `adkim` or `aspf` tag names.
pub open spec fn alignment_of(value: Option<Seq<char>>) -> AlignmentMode {
    match value {
        Some(name) => if name == "s"@ {
            AlignmentMode::Strict
        } else if name == "r"@ {
            AlignmentMode::Relaxed
        } else {
            AlignmentMode::Unset
        },
        None => AlignmentMode::Unset,
    }
}

/// A DMARC record read from its text.
pub open spec fn dmarc_record(raw: Seq<char>) -> DmarcRecordView {
    DmarcRecordView {
        raw,
        policy: policy_of(tag_value(raw, "p"@)),
        subdomain_policy: subdomain_policy_of(tag_value(raw, "sp"@)),
        rua: tag_value(raw, "rua"@),
        ruf: tag_value(raw, "ruf"@),
        pct: pct_of(tag_value(raw, "pct"@)),
        adkim: alignment_of(tag_value(raw, "adkim"@)),
        aspf: alignment_of(tag_value(raw, "aspf"@)),
    }
}

fn read_policy(value: &Option<String>) -> (policy: DmarcPolicy)
    ensures
        policy == policy_of(value.deep_view()),
{
    match value {
        Some(name) => if same(name.as_str(), "reject") {
            DmarcPolicy::Reject
        } else if same(name.as_str(), "quarantine") {
            DmarcPolicy::Quarantine
        } else if same(name.as_str(), "none") {
            DmarcPolicy::NoAction
        } else {
            DmarcPolicy::Missing
        },
        None => DmarcPolicy::Missing,
    }
}

fn read_subdomain_policy(value: &Option<String>) -> (policy: Option<DmarcPolicy>)
    ensures
        policy == subdomain_policy_of(value.deep_view()),
{
    match value {
        Some(name) => if same(name.as_str(), "reject") {
            Some(DmarcPolicy::Reject)
        } else if same(name.as_str(), "quarantine") {
            Some(DmarcPolicy::Quarantine)
        } else {
            Some(DmarcPolicy::NoAction)
        },
        None => None,
    }
}

fn read_pct(value: &Option<String>) -> (pct: u8)
    ensures
        pct == pct_of(value.deep_view()),
{
    match value {
        Some(number) => match parse_unsigned(number.as_str(), 255) {
            Some(n) => n as u8,
            None => 100,
        },
        None => 100,
    }
}

fn read_alignment(value: &Option<String>) -> (mode: AlignmentMode)
    ensures
        mode == alignment_of(value.deep_view()),
{
    match value {
        Some(name) => if same(name.as_str(), "s") {
            AlignmentMode::Strict
        } else if same(name.as_str(), "r") {
            AlignmentMode::Relaxed
        } else {
            AlignmentMode::Unset
        },
        None => AlignmentMode::Unset,
    }
}

/// Reads a DMARC record.
pub fn parse_dmarc(raw: &str) -> (record: DmarcRecord)
    ensures
        record@ == dmarc_record(raw@),
{
    let list = parse_tags(raw);
    DmarcRecord {
        raw: raw.to_string(),
        policy: read_policy(&lookup(&list, "p")),
        subdomain_policy: read_subdomain_policy(&lookup(&list, "sp")),
        rua: lookup(&list, "rua"),
        ruf: lookup(&list, "ruf"),
        pct: read_pct(&lookup(&list, "pct")),
        adkim: read_alignment(&lookup(&list, "adkim")),
        aspf: read_alignment(&lookup(&list, "aspf")),
    }
}

// ─── DKIM ──────────────────────────────────────────────────────────

/// A number as the machine counts it, from zero again behind the largest.
pub open spec fn wrapped(n: nat) -> usize {
    (n % (usize::MAX as nat + 1)) as usize
}

/// The key size that a base64 text suggests: four characters stand for three bytes.
pub open spec fn approx_bits(base64: Seq<char>) -> usize {
    wrapped(wrapped(encode_utf8(base64).len() * 3) as nat / 4 * 8)
}

/// The public key that a record holds.
pub open spec fn dkim_public_key(raw: Seq<char>) -> Seq<char> {
    match tag_value(raw, "p"@) {
        Some(key) => key,
        None => Seq::empty(),
    }
}

/// The key type that a record names, `rsa` where it names none.
pub open spec fn dkim_key_type(raw: Seq<char>) -> Seq<char> {
    match tag_value(raw, "k"@) {
        Some(name) => name,
        None => "rsa"@,
    }
}

/// A record names its version and holds a key. A key withdrawn by an empty `p` tag is none.
pub open spec fn dkim_valid(raw: Seq<char>) -> bool {
    (occurs_in(raw, "v=DKIM1"@) || occurs_in(raw, "v=dkim1"@)) && dkim_public_key(raw).len() > 0
}

/// A DKIM key record read from its text.
pub open spec fn dkim_key(selector: Seq<char>, raw: Seq<char>) -> DkimKeyView {
    DkimKeyView {
        selector,
        raw,
        key_type: dkim_key_type(raw),
        public_key: dkim_public_key(raw),
        key_bits_approx: approx_bits(dkim_public_key(raw)),
        valid_syntax: dkim_valid(raw),
    }
}

/// Reads a DKIM key record.
pub fn parse_dkim_record(selector: &str, raw: &str) -> (key: DkimKey)
    ensures
        key@ == dkim_key(selector@, raw@),
{
    let list = parse_tags(raw);
    let key_type = match lookup(&list, "k") {
        Some(name) => name,
        None => "rsa".to_owned(),
    };
    let public_key = match lookup(&list, "p") {
        Some(key) => key,
        None => String::new(),
    };
    let size: usize = public_key.as_str().as_bytes().len();
    let key_bits_approx: usize = (size.wrapping_mul(3) / 4).wrapping_mul(8);
    let has_version = contains(raw, "v=DKIM1") || contains(raw, "v=dkim1");
    let has_key = !public_key.as_str().is_empty();
    DkimKey {
        selector: selector.to_string(),
        raw: raw.to_string(),
        key_type,
        public_key,
        key_bits_approx,
        valid_syntax: has_version && has_key,
    }
}

// ─── Laws ──────────────────────────────────────────────────────────

/// Every mechanism of an SPF record is one of its words, without white space, and neither its
/// version nor an `all` mechanism; and every such word is among the mechanisms.
pub proof fn law_mechanisms_are_words(raw: Seq<char>, word: Seq<char>)
    ensures
        spf_mechanisms(raw).contains(word) <==> words(raw).contains(word) && is_mechanism(word),
        spf_mechanisms(raw).contains(word) ==> word.len() > 0 && forall|j: int|
            0 <= j < word.len() ==> !white_space(#[trigger] word[j]),
{
    let keep = |w: Seq<char>| is_mechanism(w);
    if spf_mechanisms(raw).contains(word) {
        words(raw).lemma_filter_contains_rev(keep, word);
        let i = choose|i: int| 0 <= i < spf_mechanisms(raw).len() && spf_mechanisms(raw)[i] == word;
        words(raw).lemma_filter_pred(keep, i);
        let k = choose|k: int| 0 <= k < words(raw).len() && words(raw)[k] == word;
        law_words_are_solid(raw, k);
    }
    if words(raw).contains(word) && is_mechanism(word) {
        let i = choose|i: int| 0 <= i < words(raw).len() && words(raw)[i] == word;
        words(raw).lemma_filter_contains(keep, i);
    }
}

/// The `all` mechanism at the end of a record decides its qualifier, whatever stands in front.
pub proof fn law_terminator_decides(front: Seq<char>)
    ensures
        spf_qualifier(front + "-all"@) == SpfQualifier::Fail,
        spf_qualifier(front + "~all"@) == SpfQualifier::SoftFail,
        spf_qualifier(front + "?all"@) == SpfQualifier::Neutral,
        spf_qualifier(front + "+all"@) == SpfQualifier::Pass,
        spf_qualifier(front + " all"@) == SpfQualifier::Pass,
{
    reveal_strlit("-all");
    reveal_strlit("~all");
    reveal_strlit("?all");
    reveal_strlit("+all");
    reveal_strlit(" all");
    assert("-all"@[0] == '-' && "~all"@[0] == '~' && "?all"@[0] == '?' && "+all"@[0] == '+');
    assert(" all"@[0] == ' ');
    lemma_only_suffix(front, "-all"@);
    lemma_only_suffix(front, "~all"@);
    lemma_only_suffix(front, "?all"@);
    lemma_only_suffix(front, "+all"@);
    lemma_only_suffix(front, " all"@);
}

proof fn lemma_only_suffix(front: Seq<char>, term: Seq<char>)
    ensures
        forall|other: Seq<char>|
            other.len() == term.len() ==> (#[trigger] other.is_suffix_of(front + term) <==> other
                == term),
{
    let raw = front + term;
    assert(raw.subrange(raw.len() - term.len(), raw.len() as int) =~= term);
}

/// A record gives a key the value of the first tag with that key, and none where there is no
/// such tag.
pub proof fn law_first_tag_wins(list: Seq<(Seq<char>, Seq<char>)>, key: Seq<char>, at: int)
    requires
        0 <= at <= list.len(),
        forall|i: int| 0 <= i < at ==> (#[trigger] list[i]).0 != key,
    ensures
        at < list.len() && list[at].0 == key ==> first_value(list, key) == Some(list[at].1),
        at == list.len() ==> first_value(list, key) is None,
    decreases list.len(),
{
    if list.len() > 0 && at > 0 {
        let rest = list.drop_first();
        assert forall|i: int| 0 <= i < at - 1 implies (#[trigger] rest[i]).0 != key by {
            assert(rest[i] == list[i + 1]);
        }
        assert(list[0].0 != key);
        law_first_tag_wins(rest, key, at - 1);
    }
}

/// A key without a public key has no bits and is not valid, whatever else its record says; nor is
/// one whose record names no version.
pub proof fn law_revoked_or_unversioned_is_invalid(selector: Seq<char>, raw: Seq<char>)
    ensures
        dkim_public_key(raw).len() == 0 ==> !dkim_key(selector, raw).valid_syntax && dkim_key(
            selector,
            raw,
        ).key_bits_approx == 0,
        !occurs_in(raw, "v=DKIM1"@) && !occurs_in(raw, "v=dkim1"@) ==> !dkim_key(
            selector,
            raw,
        ).valid_syntax,
{
    lemma_fits(0);
}

proof fn lemma_fits(n: nat)
    requires
        n <= usize::MAX,
    ensures
        wrapped(n) == n,
{
    lemma_small_mod(n, usize::MAX as nat + 1);
}

/// The share of mail is 100 where the record does not give a number that fits a byte, and the
/// number where it does.
pub proof fn law_pct_defaults_to_all(raw: Seq<char>, n: u8)
    ensures
        tag_value(raw, "pct"@) is None ==> dmarc_record(raw).pct == 100,
        tag_value(raw, "pct"@) == Some(decimal(n as nat)) ==> dmarc_record(raw).pct == n,
{
    law_decimal_reads_back(n as nat, 255);
}

/// The key size of a record is exact unless the record is longer than a sixth of what the
/// machine can count.
pub proof fn law_bits_are_exact(raw: Seq<char>)
    requires
        encode_utf8(raw).len() * 6 <= usize::MAX,
    ensures
        approx_bits(dkim_public_key(raw)) == encode_utf8(dkim_public_key(raw)).len() * 3 / 4 * 8,
{
    let list = tags(raw);
    match tag_value(raw, "p"@) {
        Some(value) => {
            lemma_value_is_listed(list, "p"@);
            let i = choose|i: int| 0 <= i < list.len() && (#[trigger] list[i]).1 == value;
            let f = |segment: Seq<char>| tag_of(segment);
            assert(list.contains(list[i]));
            pieces(raw, ';').lemma_filter_map_contains(f, list[i]);
            let segment = choose|t: Seq<char>|
                #[trigger] pieces(raw, ';').contains(t) && f(t) == Some(list[i]);
            let k = choose|k: int| 0 <= k < pieces(raw, ';').len() && pieces(raw, ';')[k] == segment;
            lemma_piece_size(raw, ';', k);
            let body = trimmed(segment);
            lemma_trimmed_size(segment);
            let at = first_index(body, '=') as int;
            lemma_part_size(body, at + 1, body.len() as int);
            assert(body.skip(at + 1) =~= body.subrange(at + 1, body.len() as int));
            lemma_trimmed_size(body.skip(at + 1));
        },
        None => {},
    }
    let size = encode_utf8(dkim_public_key(raw)).len();
    lemma_fits(size * 3);
    lemma_fits(size * 3 / 4 * 8);
}

/// A value that is found stands in the list under its key.
pub proof fn lemma_value_is_listed(list: Seq<(Seq<char>, Seq<char>)>, key: Seq<char>)
    requires
        first_value(list, key) is Some,
    ensures
        exists|i: int|
            0 <= i < list.len() && (#[trigger] list[i]).1 == first_value(list, key)->0 && list[i].0
                == key,
    decreases list.len(),
{
    if list[0].0 == key {
        assert(list[0].1 == first_value(list, key)->0);
    } else {
        let rest = list.drop_first();
        lemma_value_is_listed(rest, key);
        let i = choose|i: int|
            0 <= i < rest.len() && (#[trigger] rest[i]).1 == first_value(rest, key)->0 && rest[i].0
                == key;
        assert(list[i + 1] == rest[i]);
    }
}

proof fn lemma_concat_size(a: Seq<char>, b: Seq<char>)
    ensures
        encode_utf8(a + b).len() == encode_utf8(a).len() + encode_utf8(b).len(),
    decreases a.len(),
{
    if a.len() == 0 {
        assert(a + b =~= b);
    } else {
        lemma_concat_size(a.drop_first(), b);
        assert((a + b).drop_first() =~= a.drop_first() + b);
    }
}

proof fn lemma_part_size(s: Seq<char>, from: int, to: int)
    requires
        0 <= from <= to <= s.len(),
    ensures
        encode_utf8(s.subrange(from, to)).len() <= encode_utf8(s).len(),
{
    let front = s.take(from);
    let part = s.subrange(from, to);
    let back = s.skip(to);
    lemma_concat_size(front, part);
    lemma_concat_size(front + part, back);
    assert(front + part + back =~= s);
}

proof fn lemma_trimmed_size(s: Seq<char>)
    ensures
        encode_utf8(trimmed(s)).len() <= encode_utf8(s).len(),
{
    lemma_trimmed_start_size(s);
    lemma_trimmed_end_size(trimmed_start(s));
}

proof fn lemma_trimmed_start_size(s: Seq<char>)
    ensures
        encode_utf8(trimmed_start(s)).len() <= encode_utf8(s).len(),
    decreases s.len(),
{
    if s.len() > 0 && white_space(s[0]) {
        lemma_trimmed_start_size(s.drop_first());
        lemma_part_size(s, 1, s.len() as int);
        assert(s.drop_first() =~= s.subrange(1, s.len() as int));
    }
}

proof fn lemma_trimmed_end_size(s: Seq<char>)
    ensures
        encode_utf8(trimmed_end(s)).len() <= encode_utf8(s).len(),
    decreases s.len(),
{
    if s.len() > 0 && white_space(s.last()) {
        lemma_trimmed_end_size(s.drop_last());
        lemma_part_size(s, 0, s.len() - 1);
        assert(s.drop_last() =~= s.subrange(0, s.len() - 1));
    }
}

proof fn lemma_piece_size(s: Seq<char>, separator: char, k: int)
    requires
        0 <= k < pieces(s, separator).len(),
    ensures
        encode_utf8(pieces(s, separator)[k]).len() <= encode_utf8(s).len(),
    decreases s.len(),
{
    let at = first_index(s, separator) as int;
    if at < s.len() {
        if k == 0 {
            lemma_part_size(s, 0, at);
            assert(s.take(at) =~= s.subrange(0, at));
        } else {
            lemma_piece_size(s.skip(at + 1), separator, k - 1);
            lemma_part_size(s, at + 1, s.len() as int);
            assert(s.skip(at + 1) =~= s.subrange(at + 1, s.len() as int));
        }
    }
}

} // verus!
