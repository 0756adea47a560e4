//! What DNS is asked, and what is made of the answers.

use crate::models::{DkimKey, DkimKeyView, QueryMeta, QueryMetaView};
use crate::parser::{dkim_key, dkim_valid, parse_dkim_record};
use crate::text::{
    cat2, cat3, concat_all, decode_bytes, decoded_text, join, joined, same, starts_with,
};
use vstd::prelude::*;

verus! {

broadcast use vstd::string::group_string_axioms;

// ─── Questions ─────────────────────────────────────────────────────

/// The selectors under which DKIM keys are looked for.
pub open spec fn selectors() -> Seq<Seq<char>> {
    seq![
        "default"@,
        "mail"@,
        "google"@,
        "selector1"@,
        "selector2"@,
        "amazon"@,
        "microsoft"@,
        "k1"@,
        "k2"@,
        "smtp"@,
        "dkim"@,
        "mta"@,
        "sendgrid"@,
        "s1"@,
        "s2"@,
    ]
}

/// The selectors under which DKIM keys are looked for.
pub fn dkim_selectors() -> (list: Vec<String>)
    ensures
        list.deep_view() == selectors(),
{
    let list = vec![
        "default".to_owned(),
        "mail".to_owned(),
        "google".to_owned(),
        "selector1".to_owned(),
        "selector2".to_owned(),
        "amazon".to_owned(),
        "microsoft".to_owned(),
        "k1".to_owned(),
        "k2".to_owned(),
        "smtp".to_owned(),
        "dkim".to_owned(),
        "mta".to_owned(),
        "sendgrid".to_owned(),
        "s1".to_owned(),
        "s2".to_owned(),
    ];
    assert(list.deep_view() =~= selectors());
    list
}

/// The name under which a domain publishes its DMARC record.
pub fn dmarc_query(domain: &str) -> (query: String)
    ensures
        query@ == "_dmarc."@ + domain@,
{
    cat2("_dmarc.", domain)
}

/// The name under which a domain publishes the DKIM key of a selector.
pub fn dkim_query(selector: &str, domain: &str) -> (query: String)
    ensures
        query@ == selector@ + "._domainkey."@ + domain@,
{
    cat3(selector, "._domainkey.", domain)
}

// ─── Answers ───────────────────────────────────────────────────────

/// What came of a TXT lookup: records, each a list of chunks of bytes; an error; or nothing in time.
#[derive(Debug)]
pub enum Lookup {
    Found(Vec<Vec<Vec<u8>>>),
    Failed(String),
    TimedOut,
}

/// What came of a lookup with its chunks decoded.
#[derive(Debug)]
pub enum Answer {
    Found(Vec<Vec<String>>),
    Failed(String),
    TimedOut,
}

/// The view of an `Answer`.
pub enum AnswerView {
    Found(Seq<Seq<Seq<char>>>),
    Failed(Seq<char>),
    TimedOut,
}

impl View for Answer {
    type V = AnswerView;

    open spec fn view(&self) -> AnswerView {
        match self {
            Answer::Found(records) => AnswerView::Found(records.deep_view()),
            Answer::Failed(e) => AnswerView::Failed(e@),
            Answer::TimedOut => AnswerView::TimedOut,
        }
    }
}

/// The decoded chunks of a record.
pub open spec fn decoded_record(record: Seq<Vec<u8>>) -> Seq<Seq<char>> {
    record.map_values(|chunk: Vec<u8>| decoded_text(chunk@))
}

/// The decoded chunks of a list of records.
pub open spec fn decoded(records: Seq<Vec<Vec<u8>>>) -> Seq<Seq<Seq<char>>> {
    records.map_values(|record: Vec<Vec<u8>>| decoded_record(record@))
}

/// What a lookup says once its chunks are decoded.
pub open spec fn answer_of(lookup: Lookup) -> AnswerView {
    match lookup {
        Lookup::Found(records) => AnswerView::Found(decoded(records@)),
        Lookup::Failed(e) => AnswerView::Failed(e@),
        Lookup::TimedOut => AnswerView::TimedOut,
    }
}

fn decode_record(record: &Vec<Vec<u8>>) -> (chunks: Vec<String>)
    ensures
        chunks.deep_view() == decoded_record(record@),
{
    let mut chunks: Vec<String> = Vec::new();
    for i in 0..record.len()
        invariant
            chunks.deep_view() == decoded_record(record@.take(i as int)),
    {
        let ghost before = chunks.deep_view();
        let chunk = decode_bytes(record[i].as_slice());
        chunks.push(chunk);
        assert(chunks.deep_view() =~= before.push(chunk@));
        assert(chunks.deep_view() =~= decoded_record(record@.take(i + 1)));
    }
    assert(record@.take(record.len() as int) =~= record@);
    chunks
}

/// Decodes the chunks of a lookup.
pub fn decode(lookup: Lookup) -> (answer: Answer)
    ensures
        answer@ == answer_of(lookup),
{
    match lookup {
        Lookup::Found(records) => {
            let mut out: Vec<Vec<String>> = Vec::new();
            for i in 0..records.len()
                invariant
                    out.deep_view() == decoded(records@.take(i as int)),
            {
                let ghost before = out.deep_view();
                let chunks = decode_record(&records[i]);
                out.push(chunks);
                assert(out.deep_view() =~= before.push(decoded_record(records@[i as int]@)));
                assert(out.deep_view() =~= decoded(records@.take(i + 1)));
            }
            assert(records@.take(records.len() as int) =~= records@);
            Answer::Found(out)
        },
        Lookup::Failed(e) => Answer::Failed(e),
        Lookup::TimedOut => Answer::TimedOut,
    }
}

/// The texts of the records that are not empty, each made of its chunks.
pub open spec fn record_texts(records: Seq<Seq<Seq<char>>>) -> Seq<Seq<char>> {
    records.map_values(|record: Seq<Seq<char>>| record.flatten()).filter(
        |text: Seq<char>| text.len() > 0,
    )
}

/// The texts that an answer holds.
pub open spec fn answer_texts(answer: AnswerView) -> Seq<Seq<char>> {
    match answer {
        AnswerView::Found(records) => record_texts(records),
        AnswerView::Failed(_) => Seq::empty(),
        AnswerView::TimedOut => Seq::empty(),
    }
}

/// What the query log notes of a lookup.
pub open spec fn noted(
    query: Seq<char>,
    latency_ms: u64,
    answer: AnswerView,
    shown: Seq<char>,
) -> QueryMetaView {
    match answer {
        AnswerView::Found(_) => QueryMetaView {
            query,
            latency_ms,
            raw_response: Some(shown),
            status: "OK"@,
        },
        AnswerView::Failed(e) => QueryMetaView {
            query,
            latency_ms,
            raw_response: None,
            status: "DNS_ERROR: "@ + e,
        },
        AnswerView::TimedOut => QueryMetaView {
            query,
            latency_ms,
            raw_response: None,
            status: "TIMEOUT"@,
        },
    }
}

fn collect_texts(records: &Vec<Vec<String>>) -> (texts: Vec<String>)
    ensures
        texts.deep_view() == record_texts(records.deep_view()),
{
    let mut texts: Vec<String> = Vec::new();
    let ghost all = records.deep_view();
    let ghost whole = |record: Seq<Seq<char>>| record.flatten();
    let ghost keep = |text: Seq<char>| text.len() > 0;
    proof {
        reveal(Seq::filter);
        assert(texts.deep_view() =~= all.take(0).map_values(whole).filter(keep));
    }
    for i in 0..records.len()
        invariant
            all == records.deep_view(),
            whole == (|record: Seq<Seq<char>>| record.flatten()),
            keep == (|text: Seq<char>| text.len() > 0),
            texts.deep_view() == all.take(i as int).map_values(whole).filter(keep),
    {
        let ghost before = texts.deep_view();
        let text = concat_all(&records[i]);
        proof {
            let seen = all.take(i as int).map_values(whole);
            seen.lemma_filter_push(text@, keep);
            assert(all.take(i + 1).map_values(whole) =~= seen.push(text@));
        }
        if !text.as_str().is_empty() {
            texts.push(text);
            assert(texts.deep_view() =~= before.push(text@));
        }
    }
    assert(all.take(records.len() as int) =~= all);
    texts
}

/// Reads an answer: the texts it holds, and what the query log notes of it.
pub fn read_answer(query: &str, latency_ms: u64, answer: &Answer) -> (r: (Vec<String>, QueryMeta))
    ensures
        r.0.deep_view() == answer_texts(answer@),
        r.1@ == noted(query@, latency_ms, answer@, joined(answer_texts(answer@), " | "@)),
{
    match answer {
        Answer::Found(records) => {
            let texts = collect_texts(records);
            let meta = QueryMeta {
                query: query.to_string(),
                latency_ms,
                raw_response: Some(join(&texts, " | ")),
                status: "OK".to_owned(),
            };
            (texts, meta)
        },
        Answer::Failed(e) => {
            let meta = QueryMeta {
                query: query.to_string(),
                latency_ms,
                raw_response: None,
                status: cat2("DNS_ERROR: ", e.as_str()),
            };
            let texts: Vec<String> = Vec::new();
            assert(texts.deep_view() =~= Seq::empty());
            (texts, meta)
        },
        Answer::TimedOut => {
            let meta = QueryMeta {
                query: query.to_string(),
                latency_ms,
                raw_response: None,
                status: "TIMEOUT".to_owned(),
            };
            let texts: Vec<String> = Vec::new();
            assert(texts.deep_view() =~= Seq::empty());
            (texts, meta)
        },
    }
}

/// Reads a TXT lookup: the texts it found, and what the query log notes of it.
pub fn fetch_txt_all(query: &str, latency_ms: u64, lookup: Lookup) -> (r: (Vec<String>, QueryMeta))
    ensures
        r.0.deep_view() == answer_texts(answer_of(lookup)),
        r.1@ == noted(
            query@,
            latency_ms,
            answer_of(lookup),
            joined(answer_texts(answer_of(lookup)), " | "@),
        ),
{
    let answer = decode(lookup);
    read_answer(query, latency_ms, &answer)
}

// ─── The record of a policy ────────────────────────────────────────

/// The first text with a prefix.
pub open spec fn first_with_prefix(texts: Seq<Seq<char>>, prefix: Seq<char>) -> Option<Seq<char>>
    decreases texts.len(),
{
    if texts.len() == 0 {
        None
    } else if prefix.is_prefix_of(texts[0]) {
        Some(texts[0])
    } else {
        first_with_prefix(texts.drop_first(), prefix)
    }
}

/// The log entry of a query once its record was looked for: where the query went well and the
/// record is not there, the status says so.
pub open spec fn marked(meta: QueryMetaView, found: bool, missing: Seq<char>) -> QueryMetaView {
    if !found && meta.status == "OK"@ {
        QueryMetaView { status: missing, ..meta }
    } else {
        meta
    }
}

fn find_prefixed(texts: &Vec<String>, prefix: &str) -> (found: Option<String>)
    ensures
        found.deep_view() == first_with_prefix(texts.deep_view(), prefix@),
{
    let ghost all = texts.deep_view();
    assert(all.skip(0) =~= all);
    for i in 0..texts.len()
        invariant
            all == texts.deep_view(),
            first_with_prefix(all, prefix@) == first_with_prefix(all.skip(i as int), prefix@),
    {
        assert(all.skip(i as int)[0] == texts@[i as int]@);
        assert(all.skip(i as int).drop_first() =~= all.skip(i + 1));
        if starts_with(texts[i].as_str(), prefix) {
            return Some(texts[i].clone());
        }
    }
    None
}

fn mark(meta: QueryMeta, found: bool, missing: &str) -> (r: QueryMeta)
    ensures
        r@ == marked(meta@, found, missing@),
{
    let mut r = meta;
    if !found && same(r.status.as_str(), "OK") {
        r.status = missing.to_string();
    }
    r
}

/// What a query for the record of a policy brings: the record, and the log entry.
pub open spec fn policy_record(
    query: Seq<char>,
    latency_ms: u64,
    answer: AnswerView,
    prefix: Seq<char>,
    missing: Seq<char>,
) -> (Option<Seq<char>>, QueryMetaView) {
    let texts = answer_texts(answer);
    let found = first_with_prefix(texts, prefix);
    (
        found,
        marked(
            noted(query, latency_ms, answer, joined(texts, " | "@)),
            found is Some,
            missing,
        ),
    )
}

/// Reads the lookup of a domain's own name: the SPF record, and what the query log notes.
pub fn get_spf(domain: &str, latency_ms: u64, lookup: Lookup) -> (r: (Option<String>, QueryMeta))
    ensures
        (r.0.deep_view(), r.1@) == policy_record(
            domain@,
            latency_ms,
            answer_of(lookup),
            "v=spf1"@,
            "NO_SPF_RECORD"@,
        ),
{
    let (texts, meta) = fetch_txt_all(domain, latency_ms, lookup);
    let found = find_prefixed(&texts, "v=spf1");
    let meta = mark(meta, found.is_some(), "NO_SPF_RECORD");
    (found, meta)
}

/// Reads the lookup of a domain's `_dmarc` name: the DMARC record, and what the query log notes.
pub fn get_dmarc(domain: &str, latency_ms: u64, lookup: Lookup) -> (r: (Option<String>, QueryMeta))
    ensures
        (r.0.deep_view(), r.1@) == policy_record(
            "_dmarc."@ + domain@,
            latency_ms,
            answer_of(lookup),
            "v=DMARC1"@,
            "NO_DMARC_RECORD"@,
        ),
{
    let query = dmarc_query(domain);
    let (texts, meta) = fetch_txt_all(query.as_str(), latency_ms, lookup);
    let found = find_prefixed(&texts, "v=DMARC1");
    let meta = mark(meta, found.is_some(), "NO_DMARC_RECORD");
    (found, meta)
}

// ─── DKIM keys ─────────────────────────────────────────────────────

/// What was found under one selector.
#[derive(Debug)]
pub struct Probe {
    pub selector: String,
    pub text: Option<String>,
    pub meta: QueryMeta,
}

/// The view of a `Probe`.
pub struct ProbeView {
    pub selector: Seq<char>,
    pub text: Option<Seq<char>>,
    pub meta: QueryMetaView,
}

impl View for Probe {
    type V = ProbeView;

    open spec fn view(&self) -> ProbeView {
        ProbeView {
            selector: self.selector@,
            text: self.text.deep_view(),
            meta: self.meta@,
        }
    }
}

impl DeepView for Probe {
    type V = ProbeView;

    open spec fn deep_view(&self) -> ProbeView {
        self@
    }
}

/// All chunks of all records, one behind the other.
pub open spec fn whole_text(records: Seq<Seq<Seq<char>>>) -> Seq<char> {
    records.map_values(|record: Seq<Seq<char>>| record.flatten()).flatten()
}

/// What was found under a selector: all that the answer holds, as one text.
pub open spec fn probed(
    selector: Seq<char>,
    query: Seq<char>,
    latency_ms: u64,
    answer: AnswerView,
) -> ProbeView {
    let text = match answer {
        AnswerView::Found(records) => Some(whole_text(records)),
        AnswerView::Failed(_) => None,
        AnswerView::TimedOut => None,
    };
    ProbeView {
        selector,
        text,
        meta: noted(query, latency_ms, answer, if text is Some { text->0 } else { Seq::empty() }),
    }
}

fn concat_records(records: &Vec<Vec<String>>) -> (s: String)
    ensures
        s@ == whole_text(records.deep_view()),
{
    let mut parts: Vec<String> = Vec::new();
    let ghost all = records.deep_view();
    let ghost whole = |record: Seq<Seq<char>>| record.flatten();
    for i in 0..records.len()
        invariant
            all == records.deep_view(),
            whole == (|record: Seq<Seq<char>>| record.flatten()),
            parts.deep_view() == all.take(i as int).map_values(whole),
    {
        let ghost before = parts.deep_view();
        let text = concat_all(&records[i]);
        parts.push(text);
        assert(parts.deep_view() =~= before.push(text@));
        assert(parts.deep_view() =~= all.take(i + 1).map_values(whole));
    }
    assert(all.take(records.len() as int) =~= all);
    concat_all(&parts)
}

/// Reads the answer for one selector.
pub fn read_probe(selector: &str, query: &str, latency_ms: u64, answer: &Answer) -> (probe: Probe)
    ensures
        probe@ == probed(selector@, query@, latency_ms, answer@),
{
    let (text, shown, status) = match answer {
        Answer::Found(records) => {
            let text = concat_records(records);
            (Some(text.clone()), Some(text), "OK".to_owned())
        },
        Answer::Failed(e) => (None, None, cat2("DNS_ERROR: ", e.as_str())),
        Answer::TimedOut => (None, None, "TIMEOUT".to_owned()),
    };
    Probe {
        selector: selector.to_string(),
        text,
        meta: QueryMeta { query: query.to_string(), latency_ms, raw_response: shown, status },
    }
}

/// Reads the TXT lookup for one selector.
pub fn probe_selector(selector: &str, domain: &str, latency_ms: u64, lookup: Lookup) -> (probe:
    Probe)
    ensures
        probe@ == probed(
            selector@,
            selector@ + "._domainkey."@ + domain@,
            latency_ms,
            answer_of(lookup),
        ),
{
    let answer = decode(lookup);
    let query = dkim_query(selector, domain);
    read_probe(selector, query.as_str(), latency_ms, &answer)
}

/// The key found under a selector, where there is a valid one.
pub open spec fn probe_key(probe: ProbeView) -> Option<DkimKeyView> {
    match probe.text {
        Some(text) => if dkim_valid(text) {
            Some(dkim_key(probe.selector, text))
        } else {
            None
        },
        None => None,
    }
}

/// The valid keys among what was found, in order.
pub open spec fn found_keys(probes: Seq<ProbeView>) -> Seq<DkimKeyView> {
    probes.filter_map(|probe: ProbeView| probe_key(probe))
}

/// The query log of a list of probes.
pub open spec fn probe_log(probes: Seq<ProbeView>) -> Seq<QueryMetaView> {
    probes.map_values(|probe: ProbeView| probe.meta)
}

/// Collects the valid keys among what was found, and the query log.
pub fn collect_keys(probes: Vec<Probe>) -> (r: (Vec<DkimKey>, Vec<QueryMeta>))
    ensures
        r.0.deep_view() == found_keys(probes.deep_view()),
        r.1.deep_view() == probe_log(probes.deep_view()),
{
    let ghost all = probes.deep_view();
    let ghost f = |probe: ProbeView| probe_key(probe);
    let mut keys: Vec<DkimKey> = Vec::new();
    let mut log: Vec<QueryMeta> = Vec::new();
    assert(keys.deep_view() =~= all.take(0).filter_map(f));
    assert(log.deep_view() =~= probe_log(all.take(0)));
    for probe in it: probes
        invariant
            it.seq() == probes@,
            all == probes.deep_view(),
            f == (|probe: ProbeView| probe_key(probe)),
            keys.deep_view() == all.take(it.index() as int).filter_map(f),
            log.deep_view() == probe_log(all.take(it.index() as int)),
    {
        let ghost i = it.index() as int;
        let ghost old_keys = keys.deep_view();
        let ghost old_log = log.deep_view();
        proof {
            all.lemma_filter_map_take_succ(f, i);
            assert(all[i] == probe@);
            assert(old_keys + Seq::empty() =~= old_keys);
        }
        if let Some(text) = &probe.text {
            let key = parse_dkim_record(probe.selector.as_str(), text.as_str());
            if key.valid_syntax {
                keys.push(key);
                assert(keys.deep_view() =~= old_keys + seq![key@]);
            }
        }
        log.push(probe.meta);
        assert(log.deep_view() =~= old_log.push(probe@.meta));
        assert(log.deep_view() =~= probe_log(all.take(i + 1)));
    }
    assert(all.take(probes@.len() as int) =~= all);
    (keys, log)
}

/// What was found under the selectors, in order: one reply for each, with its latency, or none
/// where the query was lost.
pub open spec fn probes_of(domain: Seq<char>, replies: Seq<Option<(u64, Lookup)>>) -> Seq<ProbeView>
    decreases replies.len(),
{
    if replies.len() == 0 {
        Seq::empty()
    } else {
        let before = probes_of(domain, replies.drop_last());
        let i = replies.len() - 1;
        match replies[i] {
            Some((latency_ms, lookup)) => if i < selectors().len() {
                before.push(
                    probed(
                        selectors()[i],
                        selectors()[i] + "._domainkey."@ + domain,
                        latency_ms,
                        answer_of(lookup),
                    ),
                )
            } else {
                before
            },
            None => before,
        }
    }
}

/// Reads the lookups of all selectors: the valid keys, and the query log.
pub fn discover_dkim(domain: &str, replies: Vec<Option<(u64, Lookup)>>) -> (r: (
    Vec<DkimKey>,
    Vec<QueryMeta>,
))
    ensures
        r.0.deep_view() == found_keys(probes_of(domain@, replies@)),
        r.1.deep_view() == probe_log(probes_of(domain@, replies@)),
{
    let names = dkim_selectors();
    let mut probes: Vec<Probe> = Vec::new();
    let mut at: usize = 0;
    let ghost all = replies@;
    assert(probes.deep_view() =~= probes_of(domain@, all.take(0)));
    for reply in it: replies
        invariant
            it.seq() == replies@,
            all == replies@,
            names.deep_view() == selectors(),
            at == if it.index() <= names@.len() {
                it.index() as int
            } else {
                names@.len() as int
            },
            probes.deep_view() == probes_of(domain@, all.take(it.index() as int)),
    {
        let ghost i = it.index() as int;
        let ghost before = probes.deep_view();
        proof {
            assert(all.take(i + 1).drop_last() =~= all.take(i));
            assert(all.take(i + 1)[i] == reply);
        }
        if at < names.len() {
            if let Some((latency_ms, lookup)) = reply {
                let probe = probe_selector(names[at].as_str(), domain, latency_ms, lookup);
                assert(names.deep_view()[i] == names@[i]@);
                probes.push(probe);
                assert(probes.deep_view() =~= before.push(probe@));
            }
            at = at + 1;
        }
    }
    assert(all.take(replies@.len() as int) =~= all);
    collect_keys(probes)
}

// ─── Laws ──────────────────────────────────────────────────────────

/// Fifteen selectors are tried, no two of them the same.
pub proof fn law_selectors_differ()
    ensures
        selectors().len() == 15,
        selectors().no_duplicates(),
{
    reveal_strlit("default");
    reveal_strlit("mail");
    reveal_strlit("google");
    reveal_strlit("selector1");
    reveal_strlit("selector2");
    reveal_strlit("amazon");
    reveal_strlit("microsoft");
    reveal_strlit("k1");
    reveal_strlit("k2");
    reveal_strlit("smtp");
    reveal_strlit("dkim");
    reveal_strlit("mta");
    reveal_strlit("sendgrid");
    reveal_strlit("s1");
    reveal_strlit("s2");
    let list = selectors();
    assert forall|i: int, j: int| 0 <= i < list.len() && 0 <= j < list.len() && i != j implies
    list[i] != list[j] by {
        let (a, b) = (list[i], list[j]);
        assert(a.len() != b.len() || a[0] != b[0] || a[1] != b[1] || a[a.len() - 1]
            != b[b.len() - 1]);
    }
}

/// The record of a policy is the first text that begins with its version; there is none exactly
/// where no text does.
pub proof fn law_record_is_first_with_prefix(texts: Seq<Seq<char>>, prefix: Seq<char>)
    ensures
        match first_with_prefix(texts, prefix) {
            Some(text) => exists|i: int|
                0 <= i < texts.len() && #[trigger] texts[i] == text && prefix.is_prefix_of(text)
                    && forall|j: int| 0 <= j < i ==> !prefix.is_prefix_of(#[trigger] texts[j]),
            None => forall|i: int|
                0 <= i < texts.len() ==> !prefix.is_prefix_of(#[trigger] texts[i]),
        },
    decreases texts.len(),
{
    if texts.len() > 0 {
        if prefix.is_prefix_of(texts[0]) {
            assert(texts[0] == first_with_prefix(texts, prefix)->0);
        } else {
            let rest = texts.drop_first();
            law_record_is_first_with_prefix(rest, prefix);
            match first_with_prefix(rest, prefix) {
                Some(text) => {
                    let i = choose|i: int|
                        0 <= i < rest.len() && #[trigger] rest[i] == text && prefix.is_prefix_of(
                            text,
                        ) && forall|j: int|
                            0 <= j < i ==> !prefix.is_prefix_of(#[trigger] rest[j]);
                    assert(texts[i + 1] == text);
                    assert forall|j: int| 0 <= j < i + 1 implies !prefix.is_prefix_of(
                        #[trigger] texts[j],
                    ) by {
                        if j > 0 {
                            assert(texts[j] == rest[j - 1]);
                        }
                    }
                },
                None => {
                    assert forall|i: int| 0 <= i < texts.len() implies !prefix.is_prefix_of(
                        #[trigger] texts[i],
                    ) by {
                        if i > 0 {
                            assert(texts[i] == rest[i - 1]);
                        }
                    }
                },
            }
        }
    }
}

/// The status that the log shows for a policy query tells what came of it: found, not there, an
/// error, or nothing in time. The rest of the entry is the query, its latency and, where there
/// was an answer, all of its texts. After an error or a timeout no record is found.
pub proof fn law_status_tells_outcome(
    query: Seq<char>,
    latency_ms: u64,
    answer: AnswerView,
    prefix: Seq<char>,
    missing: Seq<char>,
)
    ensures
        ({
            let (found, meta) = policy_record(query, latency_ms, answer, prefix, missing);
            &&& meta.status == match answer {
                AnswerView::Found(_) => if found is Some {
                    "OK"@
                } else {
                    missing
                },
                AnswerView::Failed(e) => "DNS_ERROR: "@ + e,
                AnswerView::TimedOut => "TIMEOUT"@,
            }
            &&& meta.query == query
            &&& meta.latency_ms == latency_ms
            &&& meta.raw_response == match answer {
                AnswerView::Found(records) => Some(joined(record_texts(records), " | "@)),
                _ => None,
            }
            &&& answer !is Found ==> found is None
        }),
{
    reveal_strlit("OK");
    reveal_strlit("DNS_ERROR: ");
    reveal_strlit("TIMEOUT");
    if let AnswerView::Failed(e) = answer {
        assert(("DNS_ERROR: "@ + e).len() != "OK"@.len());
    }
    assert("TIMEOUT"@.len() != "OK"@.len());
}

/// Every key that is reported is valid, and was read from what was found under its selector.
pub proof fn law_reported_keys_are_valid(probes: Seq<ProbeView>, i: int)
    requires
        0 <= i < found_keys(probes).len(),
    ensures
        found_keys(probes)[i].valid_syntax,
        exists|j: int|
            0 <= j < probes.len() && (#[trigger] probes[j]).text is Some && found_keys(probes)[i]
                == dkim_key(probes[j].selector, probes[j].text->0),
{
    let f = |probe: ProbeView| probe_key(probe);
    let key = found_keys(probes)[i];
    assert(found_keys(probes).contains(key));
    probes.lemma_filter_map_contains(f, key);
    let probe = choose|t: ProbeView| #[trigger] probes.contains(t) && f(t) == Some(key);
    let j = choose|j: int| 0 <= j < probes.len() && probes[j] == probe;
    assert(probes[j].text is Some);
}

/// Every valid key that was found is reported.
pub proof fn law_valid_keys_are_reported(probes: Seq<ProbeView>, j: int)
    requires
        0 <= j < probes.len(),
        probe_key(probes[j]) is Some,
    ensures
        found_keys(probes).contains(probe_key(probes[j])->0),
    decreases probes.len(),
{
    let key = probe_key(probes[j])->0;
    let rest = probes.drop_last();
    if j == probes.len() - 1 {
        assert(found_keys(probes)[found_keys(rest).len() as int] == key);
    } else {
        law_valid_keys_are_reported(rest, j);
        let i = choose|i: int| 0 <= i < found_keys(rest).len() && found_keys(rest)[i] == key;
        assert(found_keys(probes)[i] == key);
    }
}

/// The selectors that are tried, by name.
pub proof fn law_selectors_by_name()
    ensures
        selectors()[0] == "default"@,
        selectors()[1] == "mail"@,
        selectors()[2] == "google"@,
        selectors()[3] == "selector1"@,
        selectors()[4] == "selector2"@,
        selectors()[5] == "amazon"@,
        selectors()[6] == "microsoft"@,
        selectors()[7] == "k1"@,
        selectors()[8] == "k2"@,
        selectors()[9] == "smtp"@,
        selectors()[10] == "dkim"@,
        selectors()[11] == "mta"@,
        selectors()[12] == "sendgrid"@,
        selectors()[13] == "s1"@,
        selectors()[14] == "s2"@,
{
}

/// Every chunk of every record is decoded, in its place.
pub proof fn law_chunks_are_decoded_in_place(records: Seq<Vec<Vec<u8>>>, i: int, k: int)
    requires
        0 <= i < records.len(),
        0 <= k < records[i]@.len(),
    ensures
        decoded(records).len() == records.len(),
        decoded(records)[i].len() == records[i]@.len(),
        decoded(records)[i][k] == decoded_text(records[i]@[k]@),
{
}

/// A lookup that failed or ran out of time says so; one that brought records says what they hold.
pub proof fn law_lookup_says_how_it_ended(lookup: Lookup)
    ensures
        lookup matches Lookup::Found(records) ==> answer_of(lookup) == AnswerView::Found(
            decoded(records@),
        ),
        lookup matches Lookup::Failed(e) ==> answer_of(lookup) == AnswerView::Failed(e@),
        lookup is TimedOut ==> answer_of(lookup) is TimedOut,
{
}

/// The record of a policy is the first text of the answer that begins with the prefix, whole; where
/// none of its texts does, there is no record.
pub proof fn law_record_is_taken_from_answer(
    query: Seq<char>,
    latency_ms: u64,
    records: Seq<Seq<Seq<char>>>,
    prefix: Seq<char>,
    missing: Seq<char>,
    at: int,
)
    requires
        0 <= at <= answer_texts(AnswerView::Found(records)).len(),
        forall|j: int|
            0 <= j < at ==> !prefix.is_prefix_of(
                #[trigger] answer_texts(AnswerView::Found(records))[j],
            ),
        at < answer_texts(AnswerView::Found(records)).len() ==> prefix.is_prefix_of(
            answer_texts(AnswerView::Found(records))[at],
        ),
    ensures
        ({
            let texts = answer_texts(AnswerView::Found(records));
            let found = policy_record(
                query,
                latency_ms,
                AnswerView::Found(records),
                prefix,
                missing,
            ).0;
            &&& at < texts.len() ==> found == Some(texts[at])
            &&& at == texts.len() ==> found is None
        }),
{
    let texts = answer_texts(AnswerView::Found(records));
    law_record_is_first_with_prefix(texts, prefix);
    if let Some(text) = first_with_prefix(texts, prefix) {
        let i = choose|i: int|
            0 <= i < texts.len() && #[trigger] texts[i] == text && prefix.is_prefix_of(text)
                && forall|j: int| 0 <= j < i ==> !prefix.is_prefix_of(#[trigger] texts[j]);
        if i < at {
            assert(!prefix.is_prefix_of(texts[i]));
        }
        if at < i {
            assert(!prefix.is_prefix_of(texts[at]));
        }
    }
}

/// The text of a record is its chunks one behind the other; each further record adds its text,
/// unless that is empty.
pub proof fn law_texts_grow_by_records(records: Seq<Seq<Seq<char>>>, record: Seq<Seq<char>>)
    ensures
        answer_texts(AnswerView::Found(Seq::empty())).len() == 0,
        record.flatten().len() > 0 ==> answer_texts(AnswerView::Found(records.push(record)))
            == answer_texts(AnswerView::Found(records)).push(record.flatten()),
        record.flatten().len() == 0 ==> answer_texts(AnswerView::Found(records.push(record)))
            == answer_texts(AnswerView::Found(records)),
        forall|e: Seq<char>| (#[trigger] answer_texts(AnswerView::Failed(e))).len() == 0,
        answer_texts(AnswerView::TimedOut).len() == 0,
{
    let whole = |r: Seq<Seq<char>>| r.flatten();
    let keep = |text: Seq<char>| text.len() > 0;
    let texts = records.map_values(whole);
    assert(records.push(record).map_values(whole) =~= texts.push(record.flatten()));
    texts.lemma_filter_push(record.flatten(), keep);
    assert(Seq::<Seq<Seq<char>>>::empty().map_values(whole) =~= Seq::<Seq<char>>::empty());
    assert(Seq::<Seq<char>>::empty().filter(keep) =~= Seq::<Seq<char>>::empty()) by {
        reveal(Seq::filter);
    }
}

/// All that an answer holds for a selector is one text: each further record adds its chunks to it.
pub proof fn law_whole_text_grows_by_records(records: Seq<Seq<Seq<char>>>, record: Seq<Seq<char>>)
    ensures
        whole_text(Seq::empty()).len() == 0,
        whole_text(records.push(record)) == whole_text(records) + record.flatten(),
{
    let whole = |r: Seq<Seq<char>>| r.flatten();
    let texts = records.map_values(whole);
    assert(records.push(record).map_values(whole) =~= texts.push(record.flatten()));
    texts.lemma_flatten_push(record.flatten());
    assert(Seq::<Seq<Seq<char>>>::empty().map_values(whole) =~= Seq::<Seq<char>>::empty());
}

/// What is kept of the answer for a selector: the selector, all that was found, and a log entry with
/// the query, its latency, that text and how it ended.
pub proof fn law_probe_keeps_its_answer(
    selector: Seq<char>,
    query: Seq<char>,
    latency_ms: u64,
    answer: AnswerView,
)
    ensures
        ({
            let probe = probed(selector, query, latency_ms, answer);
            &&& probe.selector == selector
            &&& probe.meta.query == query
            &&& probe.meta.latency_ms == latency_ms
            &&& probe.meta.raw_response == probe.text
            &&& answer matches AnswerView::Found(records) ==> probe.text == Some(
                whole_text(records),
            ) && probe.meta.status == "OK"@
            &&& answer matches AnswerView::Failed(e) ==> probe.text is None && probe.meta.status
                == "DNS_ERROR: "@ + e
            &&& answer is TimedOut ==> probe.text is None && probe.meta.status == "TIMEOUT"@
        }),
{
}

/// Replies are taken one after another: the next reply, while there are selectors left, adds the
/// probe of its selector under the name that was asked for; a lost query adds nothing, and nor does
/// a reply beyond the fifteenth.
pub proof fn law_each_reply_adds_its_probe(
    domain: Seq<char>,
    replies: Seq<Option<(u64, Lookup)>>,
    latency_ms: u64,
    lookup: Lookup,
)
    ensures
        probes_of(domain, Seq::empty()).len() == 0,
        probes_of(domain, replies.push(None)) == probes_of(domain, replies),
        replies.len() < 15 ==> probes_of(domain, replies.push(Some((latency_ms, lookup))))
            == probes_of(domain, replies).push(
            probed(
                selectors()[replies.len() as int],
                selectors()[replies.len() as int] + "._domainkey."@ + domain,
                latency_ms,
                answer_of(lookup),
            ),
        ),
        replies.len() >= 15 ==> probes_of(domain, replies.push(Some((latency_ms, lookup))))
            == probes_of(domain, replies),
{
    assert(replies.push(None).drop_last() =~= replies);
    assert(replies.push(Some((latency_ms, lookup))).drop_last() =~= replies);
}

/// The probe of one selector.
pub open spec fn probe_of_reply(
    domain: Seq<char>,
    i: int,
    latency_ms: u64,
    lookup: Lookup,
) -> ProbeView {
    probed(
        selectors()[i],
        selectors()[i] + "._domainkey."@ + domain,
        latency_ms,
        answer_of(lookup),
    )
}

proof fn lemma_reply_is_probed(
    domain: Seq<char>,
    replies: Seq<Option<(u64, Lookup)>>,
    i: int,
    latency_ms: u64,
    lookup: Lookup,
)
    requires
        0 <= i < replies.len(),
        i < 15,
        replies[i] == Some((latency_ms, lookup)),
    ensures
        exists|j: int|
            0 <= j < probes_of(domain, replies).len() && (#[trigger] probes_of(domain, replies)[j])
                == probe_of_reply(domain, i, latency_ms, lookup),
    decreases replies.len(),
{
    let rest = replies.drop_last();
    let probes = probes_of(domain, replies);
    let before = probes_of(domain, rest);
    if i == replies.len() - 1 {
        assert(probes[before.len() as int] == probe_of_reply(domain, i, latency_ms, lookup));
    } else {
        lemma_reply_is_probed(domain, rest, i, latency_ms, lookup);
        let j = choose|j: int|
            0 <= j < before.len() && (#[trigger] before[j]) == probe_of_reply(
                domain,
                i,
                latency_ms,
                lookup,
            );
        assert(probes[j] == before[j]);
    }
}

/// Every reply counts: whatever came back for one of the fifteen selectors is among the probes,
/// under that selector, with its query, its latency and all the text that was found.
pub proof fn law_every_reply_counts(
    domain: Seq<char>,
    replies: Seq<Option<(u64, Lookup)>>,
    i: int,
    latency_ms: u64,
    lookup: Lookup,
)
    requires
        0 <= i < replies.len(),
        i < 15,
        replies[i] == Some((latency_ms, lookup)),
    ensures
        exists|j: int|
            {
                let probe = #[trigger] probes_of(domain, replies)[j];
                &&& 0 <= j < probes_of(domain, replies).len()
                &&& probe.selector == selectors()[i]
                &&& probe.meta.query == selectors()[i] + "._domainkey."@ + domain
                &&& probe.meta.latency_ms == latency_ms
                &&& probe.text == match lookup {
                    Lookup::Found(records) => Some(whole_text(decoded(records@))),
                    _ => None,
                }
            },
{
    lemma_reply_is_probed(domain, replies, i, latency_ms, lookup);
    let probes = probes_of(domain, replies);
    let j = choose|j: int|
        0 <= j < probes.len() && (#[trigger] probes[j]) == probe_of_reply(
            domain,
            i,
            latency_ms,
            lookup,
        );
    assert(probes[j].selector == selectors()[i]);
}

/// Where no query was lost, the log has one entry for each of the replies to the fifteen selectors,
/// in order, with the name asked for and the latency.
pub proof fn law_all_replies_are_logged(
    domain: Seq<char>,
    replies: Seq<Option<(u64, Lookup)>>,
)
    requires
        replies.len() <= 15,
        forall|i: int| 0 <= i < replies.len() ==> (#[trigger] replies[i]) is Some,
    ensures
        probe_log(probes_of(domain, replies)).len() == replies.len(),
        forall|i: int|
            0 <= i < replies.len() ==> (#[trigger] probe_log(probes_of(domain, replies))[i]).query
                == selectors()[i] + "._domainkey."@ + domain && probe_log(
                probes_of(domain, replies),
            )[i].latency_ms == (replies[i]->0).0,
    decreases replies.len(),
{
    if replies.len() > 0 {
        let rest = replies.drop_last();
        assert forall|i: int| 0 <= i < rest.len() implies (#[trigger] rest[i]) is Some by {
            assert(rest[i] == replies[i]);
        }
        law_all_replies_are_logged(domain, rest);
        let before = probes_of(domain, rest);
        let probes = probes_of(domain, replies);
        let last = replies.len() - 1;
        assert(replies[last] is Some);
        assert(probe_log(before).len() == before.len());
        assert forall|i: int| 0 <= i < replies.len() implies (#[trigger] probe_log(probes)[i]).query
            == selectors()[i] + "._domainkey."@ + domain && probe_log(probes)[i].latency_ms
            == (replies[i]->0).0 by {
            if i < last {
                assert(probes[i] == before[i]);
                assert(probe_log(before)[i].query == selectors()[i] + "._domainkey."@ + domain);
                assert(rest[i] == replies[i]);
            } else {
                assert(probe_log(probes)[i] == probes[i].meta);
            }
        }
    }
}

/// A valid key text found under any of the fifteen selectors is reported as a key of that selector.
pub proof fn law_key_under_any_selector_is_reported(
    domain: Seq<char>,
    replies: Seq<Option<(u64, Lookup)>>,
    i: int,
    latency_ms: u64,
    records: Vec<Vec<Vec<u8>>>,
)
    requires
        0 <= i < replies.len(),
        i < 15,
        replies[i] == Some((latency_ms, Lookup::Found(records))),
        dkim_key(selectors()[i], whole_text(decoded(records@))).valid_syntax,
    ensures
        found_keys(probes_of(domain, replies)).contains(
            dkim_key(selectors()[i], whole_text(decoded(records@))),
        ),
{
    let probes = probes_of(domain, replies);
    lemma_reply_is_probed(domain, replies, i, latency_ms, Lookup::Found(records));
    let j = choose|j: int|
        0 <= j < probes.len() && (#[trigger] probes[j]) == probe_of_reply(
            domain,
            i,
            latency_ms,
            Lookup::Found(records),
        );
    law_valid_keys_are_reported(probes, j);
}

/// Keys are collected probe by probe: a probe adds the key that its text holds where that is valid,
/// and nothing otherwise; and every probe adds its log entry.
pub proof fn law_each_probe_adds_its_key(probes: Seq<ProbeView>, probe: ProbeView)
    ensures
        found_keys(Seq::empty()).len() == 0,
        probe_log(probes.push(probe)) == probe_log(probes).push(probe.meta),
        probe.text is Some && dkim_key(probe.selector, probe.text->0).valid_syntax ==> found_keys(
            probes.push(probe),
        ) == found_keys(probes).push(dkim_key(probe.selector, probe.text->0)),
        probe.text is None || !dkim_key(probe.selector, probe.text->0).valid_syntax ==> found_keys(
            probes.push(probe),
        ) == found_keys(probes),
{
    let f = |p: ProbeView| probe_key(p);
    assert(probes.push(probe).drop_last() =~= probes);
    assert(probe_log(probes.push(probe)) =~= probe_log(probes).push(probe.meta));
    if let Some(key) = probe_key(probe) {
        assert(found_keys(probes) + seq![key] =~= found_keys(probes).push(key));
    }
}

} // verus!
