//! What the headers of a received mail say of its authentication.

use crate::page::{heading, plain, span, Page, SpanView, Style};
use crate::text::{
    contains, first_line, head_line, lower_text, lowercase, occurs_in, same, trim, trimmed,
};
use vstd::prelude::*;

verus! {

broadcast use vstd::string::group_string_axioms;

// ─── The headers of a mail ─────────────────────────────────────────

/// The headers of a mail, each a name and a decoded value, in order; or what is wrong with it.
pub uninterp spec fn mail_headers(content: Seq<char>) -> Result<
    Seq<(Seq<char>, Seq<char>)>,
    Seq<char>,
>;

/// `mailparse::parse_mail` is a function of the bytes of a mail, and so are the names and values
/// of the headers that `get_headers`, `get_key` and `get_value` hand out, and the text of its
/// error. What they are on given bytes is not stated. Parts within parts are read by recursion,
/// as deep as the stack allows.
#[verifier::external_body]
fn read_headers(content: &str) -> (r: Result<Vec<(String, String)>, String>)
    ensures
        match r {
            Ok(list) => mail_headers(content@) == Ok::<
                Seq<(Seq<char>, Seq<char>)>,
                Seq<char>,
            >(list.deep_view()),
            Err(e) => mail_headers(content@) == Err::<Seq<(Seq<char>, Seq<char>)>, Seq<char>>(e@),
        },
{
    match mailparse::parse_mail(content.as_bytes()) {
        Ok(mail) => Ok(mail.get_headers().into_iter().map(|h| (h.get_key(), h.get_value())).collect()),
        Err(e) => Err(e.to_string()),
    }
}

/// The kinds of headers that the analysis knows.
#[derive(Debug, Clone, Copy, PartialEq, Eq, Structural)]
pub enum HeaderKind {
    From,
    Received,
    DkimSignature,
    ReceivedSpf,
    AuthenticationResults,
    Other,
}

/// The kind of a header with a name in lower case.
pub open spec fn kind_of(name: Seq<char>) -> HeaderKind {
    if name == "from"@ {
        HeaderKind::From
    } else if name == "received"@ {
        HeaderKind::Received
    } else if name == "dkim-signature"@ {
        HeaderKind::DkimSignature
    } else if name == "received-spf"@ {
        HeaderKind::ReceivedSpf
    } else if name == "authentication-results"@ {
        HeaderKind::AuthenticationResults
    } else {
        HeaderKind::Other
    }
}

/// Tells the kind of a header from its name in lower case.
pub fn classify(name: &str) -> (kind: HeaderKind)
    ensures
        kind == kind_of(name@),
{
    if same(name, "from") {
        HeaderKind::From
    } else if same(name, "received") {
        HeaderKind::Received
    } else if same(name, "dkim-signature") {
        HeaderKind::DkimSignature
    } else if same(name, "received-spf") {
        HeaderKind::ReceivedSpf
    } else if same(name, "authentication-results") {
        HeaderKind::AuthenticationResults
    } else {
        HeaderKind::Other
    }
}

/// A header ready for analysis: its kind, its value, and the trimmed value in lower case.
#[derive(Debug, Clone)]
pub struct Header {
    pub kind: HeaderKind,
    pub value: String,
    pub lower: String,
}

/// The view of a `Header`.
pub struct HeaderView {
    pub kind: HeaderKind,
    pub value: Seq<char>,
    pub lower: Seq<char>,
}

impl View for Header {
    type V = HeaderView;

    open spec fn view(&self) -> HeaderView {
        HeaderView { kind: self.kind, value: self.value@, lower: self.lower@ }
    }
}

impl DeepView for Header {
    type V = HeaderView;

    open spec fn deep_view(&self) -> HeaderView {
        self@
    }
}

/// A header made ready for analysis.
pub open spec fn prepared(header: (Seq<char>, Seq<char>)) -> HeaderView {
    HeaderView {
        kind: kind_of(lower_text(header.0)),
        value: header.1,
        lower: lower_text(trimmed(header.1)),
    }
}

/// A list of headers made ready for analysis.
pub open spec fn all_prepared(headers: Seq<(Seq<char>, Seq<char>)>) -> Seq<HeaderView> {
    headers.map_values(|header: (Seq<char>, Seq<char>)| prepared(header))
}

/// Makes headers ready for analysis. Names and values are compared in lower case.
pub fn prepare(headers: &Vec<(String, String)>) -> (list: Vec<Header>)
    ensures
        list.deep_view() == all_prepared(headers.deep_view()),
{
    let mut list: Vec<Header> = Vec::new();
    let ghost all = headers.deep_view();
    for i in 0..headers.len()
        invariant
            all == headers.deep_view(),
            list.deep_view() == all_prepared(all.take(i as int)),
    {
        let ghost before = list.deep_view();
        let name = lowercase(headers[i].0.as_str());
        let header = Header {
            kind: classify(name.as_str()),
            value: headers[i].1.clone(),
            lower: lowercase(trim(headers[i].1.as_str()).as_str()),
        };
        list.push(header);
        assert(list.deep_view() =~= before.push(prepared(all[i as int])));
        assert(list.deep_view() =~= all_prepared(all.take(i + 1)));
    }
    assert(all.take(headers.len() as int) =~= all);
    list
}

// ─── The analysis ──────────────────────────────────────────────────

/// What is shown for a header that stands for itself.
pub open spec fn header_line(header: HeaderView) -> Seq<SpanView> {
    match header.kind {
        HeaderKind::From => seq![
            plain("  "@),
            span(Style::Bold, "From:"@),
            plain(" "@),
            plain(trimmed(header.value)),
            plain("\n"@),
        ],
        HeaderKind::Received => seq![
            plain("  "@),
            span(Style::Bold, "Received:"@),
            plain(" "@),
            plain(trimmed(first_line(header.value))),
            plain("\n"@),
        ],
        HeaderKind::DkimSignature => seq![
            plain("  "@),
            span(Style::Bold, "DKIM-Signature:"@),
            plain(" "@),
            plain("Present"@),
            plain("\n"@),
        ],
        HeaderKind::ReceivedSpf | HeaderKind::AuthenticationResults | HeaderKind::Other => seq![],
    }
}

/// What a `Received-SPF` value in lower case says.
pub open spec fn spf_status(lower: Seq<char>) -> SpanView {
    if occurs_in(lower, "pass"@) {
        span(Style::GreenBold, "PASS"@)
    } else if occurs_in(lower, "fail"@) {
        span(Style::RedBold, "FAIL"@)
    } else {
        span(Style::YellowBold, "NEUTRAL"@)
    }
}

/// What is shown for a `Received-SPF` header.
pub open spec fn spf_entry(header: HeaderView) -> Seq<SpanView> {
    if header.kind == HeaderKind::ReceivedSpf {
        seq![
            plain("  ["@),
            spf_status(header.lower),
            plain("] "@),
            plain(trimmed(first_line(trimmed(header.value)))),
            plain("\n"@),
        ]
    } else {
        seq![]
    }
}

/// What a value in lower case says of SPF.
pub open spec fn spf_verdict(lower: Seq<char>) -> Seq<SpanView> {
    if occurs_in(lower, "spf=pass"@) {
        seq![span(Style::GreenBold, "SPF=PASS"@), plain(" "@)]
    } else if occurs_in(lower, "spf=fail"@) {
        seq![span(Style::RedBold, "SPF=FAIL"@), plain(" "@)]
    } else if occurs_in(lower, "spf="@) {
        seq![span(Style::YellowBold, "SPF=OTHER"@), plain(" "@)]
    } else {
        seq![]
    }
}

/// What a value in lower case says of DKIM.
pub open spec fn dkim_verdict(lower: Seq<char>) -> Seq<SpanView> {
    if occurs_in(lower, "dkim=pass"@) {
        seq![span(Style::GreenBold, "DKIM=PASS"@), plain(" "@)]
    } else if occurs_in(lower, "dkim=fail"@) {
        seq![span(Style::RedBold, "DKIM=FAIL"@), plain(" "@)]
    } else if occurs_in(lower, "dkim="@) {
        seq![span(Style::YellowBold, "DKIM=OTHER"@), plain(" "@)]
    } else {
        seq![]
    }
}

/// What a value in lower case says of DMARC.
pub open spec fn dmarc_verdict(lower: Seq<char>) -> Seq<SpanView> {
    if occurs_in(lower, "dmarc=pass"@) {
        seq![span(Style::GreenBold, "DMARC=PASS"@), plain(" "@)]
    } else if occurs_in(lower, "dmarc=fail"@) {
        seq![span(Style::RedBold, "DMARC=FAIL"@), plain(" "@)]
    } else if occurs_in(lower, "dmarc="@) {
        seq![span(Style::YellowBold, "DMARC=OTHER"@), plain(" "@)]
    } else {
        seq![]
    }
}

/// What is shown for an `Authentication-Results` header.
pub open spec fn auth_entry(header: HeaderView) -> Seq<SpanView> {
    if header.kind == HeaderKind::AuthenticationResults {
        seq![
            plain("  Raw: "@),
            span(Style::Dim, trimmed(header.value)),
            plain("\n"@),
            plain("  Verdicts: "@),
        ] + spf_verdict(header.lower) + dkim_verdict(header.lower) + dmarc_verdict(header.lower)
            + seq![plain("\n"@)]
    } else {
        seq![]
    }
}

/// There is a header of a kind.
pub open spec fn has_kind(headers: Seq<HeaderView>, kind: HeaderKind) -> bool {
    exists|i: int| 0 <= i < headers.len() && (#[trigger] headers[i]).kind == kind
}

/// What is shown for the `Received-SPF` headers.
pub open spec fn spf_section(headers: Seq<HeaderView>) -> Seq<SpanView> {
    if has_kind(headers, HeaderKind::ReceivedSpf) {
        seq![
            plain("\n"@),
            span(Style::Dim, "── RECEIVED-SPF ─────────────────────────"@),
            plain("\n"@),
        ] + headers.flat_map(|header: HeaderView| spf_entry(header))
    } else {
        seq![]
    }
}

/// What is shown for the `Authentication-Results` headers.
pub open spec fn auth_section(headers: Seq<HeaderView>) -> Seq<SpanView> {
    if has_kind(headers, HeaderKind::AuthenticationResults) {
        seq![
            plain("\n"@),
            span(Style::Dim, "── AUTHENTICATION-RESULTS ───────────────"@),
            plain("\n"@),
        ] + headers.flat_map(|header: HeaderView| auth_entry(header))
    } else {
        seq![]
    }
}

/// The analysis of a list of headers.
pub open spec fn analysis(headers: Seq<HeaderView>) -> Seq<SpanView> {
    seq![
        plain("\n"@),
        span(Style::CyanBold, "── EMAIL HEADER ANALYSIS ────────────────"@),
        plain("\n"@),
    ] + headers.flat_map(|header: HeaderView| header_line(header)) + spf_section(headers)
        + auth_section(headers) + seq![
        span(Style::CyanBold, "─────────────────────────────────────────"@),
        plain("\n\n"@),
    ]
}

/// What is shown where a mail cannot be read.
pub open spec fn complaint(error: Seq<char>) -> Seq<SpanView> {
    seq![
        span(Style::RedBold, "Error:"@),
        plain(" Failed to parse email: "@),
        plain(error),
        plain("\n"@),
    ]
}

fn show_header(page: &mut Page, header: &Header)
    ensures
        final(page)@ == old(page)@ + header_line(header@),
{
    match header.kind {
        HeaderKind::From => {
            page.say("  ");
            page.put(Style::Bold, "From:");
            page.say(" ");
            page.say(trim(header.value.as_str()).as_str());
            page.say("\n");
        },
        HeaderKind::Received => {
            page.say("  ");
            page.put(Style::Bold, "Received:");
            page.say(" ");
            page.say(trim(head_line(header.value.as_str()).as_str()).as_str());
            page.say("\n");
        },
        HeaderKind::DkimSignature => {
            page.say("  ");
            page.put(Style::Bold, "DKIM-Signature:");
            page.say(" ");
            page.say("Present");
            page.say("\n");
        },
        HeaderKind::ReceivedSpf | HeaderKind::AuthenticationResults | HeaderKind::Other => {},
    }
    assert(page@ =~= old(page)@ + header_line(header@));
}

fn show_status(page: &mut Page, lower: &str)
    ensures
        final(page)@ == old(page)@.push(spf_status(lower@)),
{
    if contains(lower, "pass") {
        page.put(Style::GreenBold, "PASS");
    } else if contains(lower, "fail") {
        page.put(Style::RedBold, "FAIL");
    } else {
        page.put(Style::YellowBold, "NEUTRAL");
    }
}

fn show_spf_entry(page: &mut Page, header: &Header)
    ensures
        final(page)@ == old(page)@ + spf_entry(header@),
{
    if header.kind == HeaderKind::ReceivedSpf {
        page.say("  [");
        show_status(page, header.lower.as_str());
        page.say("] ");
        let value = trim(header.value.as_str());
        page.say(trim(head_line(value.as_str()).as_str()).as_str());
        page.say("\n");
    }
    assert(page@ =~= old(page)@ + spf_entry(header@));
}

fn show_verdict(page: &mut Page, style: Style, text: &str)
    ensures
        final(page)@ == old(page)@ + seq![span(style, text@), plain(" "@)],
{
    page.put(style, text);
    page.say(" ");
    assert(page@ =~= old(page)@ + seq![span(style, text@), plain(" "@)]);
}

fn show_spf_verdict(page: &mut Page, lower: &str)
    ensures
        final(page)@ == old(page)@ + spf_verdict(lower@),
{
    if contains(lower, "spf=pass") {
        show_verdict(page, Style::GreenBold, "SPF=PASS");
    } else if contains(lower, "spf=fail") {
        show_verdict(page, Style::RedBold, "SPF=FAIL");
    } else if contains(lower, "spf=") {
        show_verdict(page, Style::YellowBold, "SPF=OTHER");
    }
    assert(page@ =~= old(page)@ + spf_verdict(lower@));
}

fn show_dkim_verdict(page: &mut Page, lower: &str)
    ensures
        final(page)@ == old(page)@ + dkim_verdict(lower@),
{
    if contains(lower, "dkim=pass") {
        show_verdict(page, Style::GreenBold, "DKIM=PASS");
    } else if contains(lower, "dkim=fail") {
        show_verdict(page, Style::RedBold, "DKIM=FAIL");
    } else if contains(lower, "dkim=") {
        show_verdict(page, Style::YellowBold, "DKIM=OTHER");
    }
    assert(page@ =~= old(page)@ + dkim_verdict(lower@));
}

fn show_dmarc_verdict(page: &mut Page, lower: &str)
    ensures
        final(page)@ == old(page)@ + dmarc_verdict(lower@),
{
    if contains(lower, "dmarc=pass") {
        show_verdict(page, Style::GreenBold, "DMARC=PASS");
    } else if contains(lower, "dmarc=fail") {
        show_verdict(page, Style::RedBold, "DMARC=FAIL");
    } else if contains(lower, "dmarc=") {
        show_verdict(page, Style::YellowBold, "DMARC=OTHER");
    }
    assert(page@ =~= old(page)@ + dmarc_verdict(lower@));
}

fn show_auth_entry(page: &mut Page, header: &Header)
    ensures
        final(page)@ == old(page)@ + auth_entry(header@),
{
    if header.kind == HeaderKind::AuthenticationResults {
        page.say("  Raw: ");
        page.put(Style::Dim, trim(header.value.as_str()).as_str());
        page.say("\n");
        page.say("  Verdicts: ");
        show_spf_verdict(page, header.lower.as_str());
        show_dkim_verdict(page, header.lower.as_str());
        show_dmarc_verdict(page, header.lower.as_str());
        page.say("\n");
    }
    assert(page@ =~= old(page)@ + auth_entry(header@));
}

fn holds_kind(headers: &Vec<Header>, kind: HeaderKind) -> (r: bool)
    ensures
        r == has_kind(headers.deep_view(), kind),
{
    for i in 0..headers.len()
        invariant
            forall|j: int| 0 <= j < i ==> (#[trigger] headers.deep_view()[j]).kind != kind,
    {
        assert(headers.deep_view()[i as int] == headers@[i as int]@);
        if headers[i].kind == kind {
            return true;
        }
    }
    false
}

fn show_spf_section(page: &mut Page, headers: &Vec<Header>)
    ensures
        final(page)@ == old(page)@ + spf_section(headers.deep_view()),
{
    if !holds_kind(headers, HeaderKind::ReceivedSpf) {
        assert(page@ =~= old(page)@ + spf_section(headers.deep_view()));
        return;
    }
    page.say("\n");
    page.put(Style::Dim, "── RECEIVED-SPF ─────────────────────────");
    page.say("\n");
    let ghost start = page@;
    let ghost all = headers.deep_view();
    let ghost f = |header: HeaderView| spf_entry(header);
    assert(start =~= start + all.take(0).flat_map(f));
    for i in 0..headers.len()
        invariant
            all == headers.deep_view(),
            f == (|header: HeaderView| spf_entry(header)),
            page@ == start + all.take(i as int).flat_map(f),
    {
        show_spf_entry(page, &headers[i]);
        proof {
            all.lemma_flat_map_take_append(f, i as int);
            assert(page@ =~= start + all.take(i + 1).flat_map(f));
        }
    }
    assert(all.take(headers.len() as int) =~= all);
    assert(page@ =~= old(page)@ + spf_section(headers.deep_view()));
}

fn show_auth_section(page: &mut Page, headers: &Vec<Header>)
    ensures
        final(page)@ == old(page)@ + auth_section(headers.deep_view()),
{
    if !holds_kind(headers, HeaderKind::AuthenticationResults) {
        assert(page@ =~= old(page)@ + auth_section(headers.deep_view()));
        return;
    }
    page.say("\n");
    page.put(Style::Dim, "── AUTHENTICATION-RESULTS ───────────────");
    page.say("\n");
    let ghost start = page@;
    let ghost all = headers.deep_view();
    let ghost f = |header: HeaderView| auth_entry(header);
    assert(start =~= start + all.take(0).flat_map(f));
    for i in 0..headers.len()
        invariant
            all == headers.deep_view(),
            f == (|header: HeaderView| auth_entry(header)),
            page@ == start + all.take(i as int).flat_map(f),
    {
        show_auth_entry(page, &headers[i]);
        proof {
            all.lemma_flat_map_take_append(f, i as int);
            assert(page@ =~= start + all.take(i + 1).flat_map(f));
        }
    }
    assert(all.take(headers.len() as int) =~= all);
    assert(page@ =~= old(page)@ + auth_section(headers.deep_view()));
}

/// Analyses headers.
pub fn analyze(headers: &Vec<Header>) -> (page: Page)
    ensures
        page@ == analysis(headers.deep_view()),
{
    let mut page = Page::new();
    page.say("\n");
    page.put(Style::CyanBold, "── EMAIL HEADER ANALYSIS ────────────────");
    page.say("\n");
    let ghost start = page@;
    let ghost all = headers.deep_view();
    let ghost f = |header: HeaderView| header_line(header);
    assert(start =~= start + all.take(0).flat_map(f));
    for i in 0..headers.len()
        invariant
            all == headers.deep_view(),
            f == (|header: HeaderView| header_line(header)),
            page@ == start + all.take(i as int).flat_map(f),
    {
        show_header(&mut page, &headers[i]);
        proof {
            all.lemma_flat_map_take_append(f, i as int);
            assert(page@ =~= start + all.take(i + 1).flat_map(f));
        }
    }
    assert(all.take(headers.len() as int) =~= all);
    show_spf_section(&mut page, headers);
    show_auth_section(&mut page, headers);
    page.put(Style::CyanBold, "─────────────────────────────────────────");
    page.say("\n\n");
    assert(page@ =~= analysis(headers.deep_view()));
    page
}

/// Reads a mail and writes the analysis of its headers, or else why it cannot be read.
pub fn parse_and_print_headers(content: &str) -> (r: Result<Page, Page>)
    ensures
        match mail_headers(content@) {
            Ok(headers) => r matches Ok(page) && page@ == analysis(all_prepared(headers)),
            Err(error) => r matches Err(page) && page@ == complaint(error),
        },
{
    match read_headers(content) {
        Ok(headers) => {
            let list = prepare(&headers);
            Ok(analyze(&list))
        },
        Err(error) => {
            let mut page = Page::new();
            page.put(Style::RedBold, "Error:");
            page.say(" Failed to parse email: ");
            page.say(error.as_str());
            page.say("\n");
            assert(page@ =~= complaint(error@));
            Err(page)
        },
    }
}

// ─── Laws ──────────────────────────────────────────────────────────

proof fn lemma_flat_map_filter<A, B>(
    s: Seq<A>,
    keep: spec_fn(A) -> bool,
    f: spec_fn(A) -> Seq<B>,
)
    requires
        forall|x: A| !keep(x) ==> (#[trigger] f(x)).len() == 0,
    ensures
        s.filter(keep).flat_map(f) == s.flat_map(f),
    decreases s.len(),
{
    if s.len() == 0 {
        assert(s.filter(keep) =~= s) by {
            reveal(Seq::filter);
        }
    } else {
        let rest = s.drop_last();
        let last = s.last();
        lemma_flat_map_filter(rest, keep, f);
        rest.lemma_filter_push(last, keep);
        rest.lemma_flat_map_push(f, last);
        assert(rest.push(last) =~= s);
        if keep(last) {
            rest.filter(keep).lemma_flat_map_push(f, last);
        } else {
            assert(f(last) =~= Seq::empty());
            assert(rest.flat_map(f) + f(last) =~= rest.flat_map(f));
        }
    }
}

proof fn lemma_has_kind_filter(
    headers: Seq<HeaderView>,
    keep: spec_fn(HeaderView) -> bool,
    kind: HeaderKind,
)
    requires
        forall|h: HeaderView| h.kind == kind ==> #[trigger] keep(h),
    ensures
        has_kind(headers.filter(keep), kind) == has_kind(headers, kind),
{
    if has_kind(headers, kind) {
        let i = choose|i: int| 0 <= i < headers.len() && (#[trigger] headers[i]).kind == kind;
        headers.lemma_filter_contains(keep, i);
        let j = choose|j: int|
            0 <= j < headers.filter(keep).len() && headers.filter(keep)[j] == headers[i];
        assert(headers.filter(keep)[j].kind == kind);
    }
    if has_kind(headers.filter(keep), kind) {
        let j = choose|j: int|
            0 <= j < headers.filter(keep).len() && (#[trigger] headers.filter(keep)[j]).kind
                == kind;
        assert(headers.filter(keep).contains(headers.filter(keep)[j]));
        headers.lemma_filter_contains_rev(keep, headers.filter(keep)[j]);
        let i = choose|i: int| 0 <= i < headers.len() && headers[i] == headers.filter(keep)[j];
        assert(headers[i].kind == kind);
    }
}

/// Headers of other kinds change nothing in the analysis.
pub proof fn law_other_headers_do_not_matter(headers: Seq<HeaderView>)
    ensures
        analysis(headers.filter(|header: HeaderView| header.kind != HeaderKind::Other)) == analysis(
            headers,
        ),
{
    let keep = |header: HeaderView| header.kind != HeaderKind::Other;
    lemma_flat_map_filter(headers, keep, |header: HeaderView| header_line(header));
    lemma_flat_map_filter(headers, keep, |header: HeaderView| spf_entry(header));
    lemma_flat_map_filter(headers, keep, |header: HeaderView| auth_entry(header));
    lemma_has_kind_filter(headers, keep, HeaderKind::ReceivedSpf);
    lemma_has_kind_filter(headers, keep, HeaderKind::AuthenticationResults);
}

/// A header is known by its name in lower case, and by nothing else.
pub proof fn law_kind_is_in_the_name(headers: Seq<(Seq<char>, Seq<char>)>, i: int)
    requires
        0 <= i < headers.len(),
    ensures
        all_prepared(headers).len() == headers.len(),
        ({
            let name = lower_text(headers[i].0);
            let header = all_prepared(headers)[i];
            &&& header.kind == HeaderKind::From <==> name == "from"@
            &&& header.kind == HeaderKind::Received <==> name == "received"@
            &&& header.kind == HeaderKind::DkimSignature <==> name == "dkim-signature"@
            &&& header.kind == HeaderKind::ReceivedSpf <==> name == "received-spf"@
            &&& header.kind == HeaderKind::AuthenticationResults <==> name
                == "authentication-results"@
            &&& header.value == headers[i].1
            &&& header.lower == lower_text(trimmed(headers[i].1))
        }),
{
    reveal_strlit("from");
    reveal_strlit("received");
    reveal_strlit("dkim-signature");
    reveal_strlit("received-spf");
    reveal_strlit("authentication-results");
    assert("from"@.len() == 4 && "received"@.len() == 8 && "dkim-signature"@.len() == 14);
    assert("received-spf"@.len() == 12 && "authentication-results"@.len() == 22);
}

/// A sender is shown trimmed, a relay by its trimmed first line, a signature by its presence; no
/// other header has a line of its own.
pub proof fn law_header_lines_by_kind(header: HeaderView)
    ensures
        header.kind == HeaderKind::From ==> header_line(header) == seq![
            plain("  "@),
            span(Style::Bold, "From:"@),
            plain(" "@),
            plain(trimmed(header.value)),
            plain("\n"@),
        ],
        header.kind == HeaderKind::Received ==> header_line(header) == seq![
            plain("  "@),
            span(Style::Bold, "Received:"@),
            plain(" "@),
            plain(trimmed(first_line(header.value))),
            plain("\n"@),
        ],
        header.kind == HeaderKind::DkimSignature ==> header_line(header) == seq![
            plain("  "@),
            span(Style::Bold, "DKIM-Signature:"@),
            plain(" "@),
            plain("Present"@),
            plain("\n"@),
        ],
        header.kind == HeaderKind::ReceivedSpf || header.kind == HeaderKind::AuthenticationResults
            || header.kind == HeaderKind::Other ==> header_line(header).len() == 0,
{
}

/// A `Received-SPF` header is a pass in green exactly where its value in lower case holds `pass`, a
/// failure in red exactly where it holds `fail` and no pass, and neutral in yellow otherwise; it is
/// shown by its trimmed first line. No other header is shown so.
pub proof fn law_received_spf_reads_pass_and_fail(header: HeaderView)
    ensures
        header.kind != HeaderKind::ReceivedSpf ==> spf_entry(header).len() == 0,
        header.kind == HeaderKind::ReceivedSpf ==> ({
            let pass = occurs_in(header.lower, "pass"@);
            let fail = occurs_in(header.lower, "fail"@);
            let shown = spf_entry(header);
            &&& shown.len() == 5
            &&& shown[0] == plain("  ["@)
            &&& pass ==> shown[1] == span(Style::GreenBold, "PASS"@)
            &&& fail && !pass ==> shown[1] == span(Style::RedBold, "FAIL"@)
            &&& !fail && !pass ==> shown[1] == span(Style::YellowBold, "NEUTRAL"@)
            &&& shown[2] == plain("] "@)
            &&& shown[3] == plain(trimmed(first_line(trimmed(header.value))))
            &&& shown[4] == plain("\n"@)
        }),
{
}

/// The SPF verdict of a value in lower case is a pass in green exactly where `spf=pass` stands in
/// it; a failure in red exactly where `spf=fail` does and no pass; another in yellow exactly where
/// `spf=` does and neither; and none otherwise. Nothing else in the value bears on it.
pub proof fn law_spf_verdict_reads_its_own_tag(lower: Seq<char>)
    ensures
        ({
            let pass = occurs_in(lower, "spf=pass"@);
            let fail = occurs_in(lower, "spf=fail"@);
            let named = occurs_in(lower, "spf="@);
            let shown = spf_verdict(lower);
            &&& shown.len() == 0 <==> !pass && !fail && !named
            &&& shown.len() == 2 <==> pass || fail || named
            &&& pass ==> shown[0] == span(Style::GreenBold, "SPF=PASS"@)
            &&& fail && !pass ==> shown[0] == span(Style::RedBold, "SPF=FAIL"@)
            &&& named && !pass && !fail ==> shown[0] == span(Style::YellowBold, "SPF=OTHER"@)
            &&& shown.len() == 2 ==> shown[1] == plain(" "@)
        }),
{
}

/// The DKIM verdict of a value in lower case is a pass in green exactly where `dkim=pass` stands in
/// it; a failure in red exactly where `dkim=fail` does and no pass; another in yellow exactly where
/// `dkim=` does and neither; and none otherwise. Nothing else in the value bears on it.
pub proof fn law_dkim_verdict_reads_its_own_tag(lower: Seq<char>)
    ensures
        ({
            let pass = occurs_in(lower, "dkim=pass"@);
            let fail = occurs_in(lower, "dkim=fail"@);
            let named = occurs_in(lower, "dkim="@);
            let shown = dkim_verdict(lower);
            &&& shown.len() == 0 <==> !pass && !fail && !named
            &&& shown.len() == 2 <==> pass || fail || named
            &&& pass ==> shown[0] == span(Style::GreenBold, "DKIM=PASS"@)
            &&& fail && !pass ==> shown[0] == span(Style::RedBold, "DKIM=FAIL"@)
            &&& named && !pass && !fail ==> shown[0] == span(Style::YellowBold, "DKIM=OTHER"@)
            &&& shown.len() == 2 ==> shown[1] == plain(" "@)
        }),
{
}

/// The DMARC verdict of a value in lower case is a pass in green exactly where `dmarc=pass` stands in
/// it; a failure in red exactly where `dmarc=fail` does and no pass; another in yellow exactly where
/// `dmarc=` does and neither; and none otherwise. Nothing else in the value bears on it.
pub proof fn law_dmarc_verdict_reads_its_own_tag(lower: Seq<char>)
    ensures
        ({
            let pass = occurs_in(lower, "dmarc=pass"@);
            let fail = occurs_in(lower, "dmarc=fail"@);
            let named = occurs_in(lower, "dmarc="@);
            let shown = dmarc_verdict(lower);
            &&& shown.len() == 0 <==> !pass && !fail && !named
            &&& shown.len() == 2 <==> pass || fail || named
            &&& pass ==> shown[0] == span(Style::GreenBold, "DMARC=PASS"@)
            &&& fail && !pass ==> shown[0] == span(Style::RedBold, "DMARC=FAIL"@)
            &&& named && !pass && !fail ==> shown[0] == span(Style::YellowBold, "DMARC=OTHER"@)
            &&& shown.len() == 2 ==> shown[1] == plain(" "@)
        }),
{
}

/// An `Authentication-Results` header is shown whole, trimmed and dimmed, and below it its verdicts
/// on SPF, DKIM and DMARC, in this order. No other header is shown so.
pub proof fn law_auth_entry_shows_three_verdicts(header: HeaderView)
    ensures
        header.kind != HeaderKind::AuthenticationResults ==> auth_entry(header).len() == 0,
        header.kind == HeaderKind::AuthenticationResults ==> ({
            let shown = auth_entry(header);
            let s = spf_verdict(header.lower);
            let k = dkim_verdict(header.lower);
            let d = dmarc_verdict(header.lower);
            let at = 4 + s.len() as int;
            &&& shown.len() == 5 + s.len() + k.len() + d.len()
            &&& shown[0] == plain("  Raw: "@)
            &&& shown[1] == span(Style::Dim, trimmed(header.value))
            &&& shown[2] == plain("\n"@)
            &&& shown[3] == plain("  Verdicts: "@)
            &&& shown.subrange(4, at) == s
            &&& shown.subrange(at, at + k.len()) == k
            &&& shown.subrange(at + k.len(), at + k.len() + d.len()) == d
            &&& shown.last() == plain("\n"@)
        }),
{
    if header.kind == HeaderKind::AuthenticationResults {
        let shown = auth_entry(header);
        let s = spf_verdict(header.lower);
        let k = dkim_verdict(header.lower);
        let d = dmarc_verdict(header.lower);
        let at = 4 + s.len() as int;
        assert(shown.subrange(4, at) =~= s);
        assert(shown.subrange(at, at + k.len()) =~= k);
        assert(shown.subrange(at + k.len(), at + k.len() + d.len()) =~= d);
    }
}

/// A mail without headers is a heading and a closing rule. A further header that has a line of its
/// own adds that line; a further one on authentication adds its entry, under a heading of its own
/// where it is the first; and everything else stays in its place.
pub proof fn law_analysis_grows_by_headers(headers: Seq<HeaderView>, header: HeaderView)
    ensures
        analysis(Seq::empty()) == seq![
            plain("\n"@),
            span(Style::CyanBold, "── EMAIL HEADER ANALYSIS ────────────────"@),
            plain("\n"@),
            span(Style::CyanBold, "─────────────────────────────────────────"@),
            plain("\n\n"@),
        ],
        ({
            let old_page = analysis(headers);
            let new_page = analysis(headers.push(header));
            let first_spf = !has_kind(headers, HeaderKind::ReceivedSpf);
            let first_auth = !has_kind(headers, HeaderKind::AuthenticationResults);
            let auth = auth_section(headers).len() as int;
            let spf = spf_section(headers).len() as int;
            let end = old_page.len() - 2;
            &&& header.kind == HeaderKind::Other ==> new_page == old_page
            &&& header.kind == HeaderKind::From || header.kind == HeaderKind::Received
                || header.kind == HeaderKind::DkimSignature ==> new_page == old_page.take(
                end - auth - spf,
            ) + header_line(header) + old_page.skip(end - auth - spf)
            &&& header.kind == HeaderKind::ReceivedSpf && first_spf ==> new_page == old_page.take(
                end - auth,
            ) + heading("── RECEIVED-SPF ─────────────────────────"@) + spf_entry(header) + old_page.skip(end - auth)
            &&& header.kind == HeaderKind::ReceivedSpf && !first_spf ==> new_page == old_page.take(
                end - auth,
            ) + spf_entry(header) + old_page.skip(end - auth)
            &&& header.kind == HeaderKind::AuthenticationResults && first_auth ==> new_page
                == old_page.take(end) + heading("── AUTHENTICATION-RESULTS ───────────────"@) + auth_entry(header) + old_page.skip(end)
            &&& header.kind == HeaderKind::AuthenticationResults && !first_auth ==> new_page
                == old_page.take(end) + auth_entry(header) + old_page.skip(end)
        }),
{
    lemma_empty_analysis();
    lemma_sections_grow(headers, header);
    let top = seq![
        plain("\n"@),
        span(Style::CyanBold, "── EMAIL HEADER ANALYSIS ────────────────"@),
        plain("\n"@),
    ];
    let bottom = seq![
        span(Style::CyanBold, "─────────────────────────────────────────"@),
        plain("\n\n"@),
    ];
    let line = |h: HeaderView| header_line(h);
    let l = headers.flat_map(line);
    let s = spf_section(headers);
    let a = auth_section(headers);
    let more = headers.push(header);
    assert(analysis(headers) == top + l + s + a + bottom);
    assert(analysis(more) == top + more.flat_map(line) + spf_section(more) + auth_section(more)
        + bottom);
    if header.kind == HeaderKind::ReceivedSpf {
        assert(header_line(header).len() == 0);
        lemma_insert_third(top, l, s, a, bottom, spf_entry(header));
        lemma_insert_third(
            top,
            l,
            s,
            a,
            bottom,
            heading("── RECEIVED-SPF ─────────────────────────"@) + spf_entry(header),
        );
        lemma_group(
            (top + l + s + a + bottom).take((top + l + s).len() as int),
            heading("── RECEIVED-SPF ─────────────────────────"@),
            spf_entry(header),
            (top + l + s + a + bottom).skip((top + l + s).len() as int),
        );
    } else if header.kind == HeaderKind::AuthenticationResults {
        lemma_insert_fourth(top, l, s, a, bottom, auth_entry(header));
        lemma_insert_fourth(
            top,
            l,
            s,
            a,
            bottom,
            heading("── AUTHENTICATION-RESULTS ───────────────"@) + auth_entry(header),
        );
        lemma_group(
            (top + l + s + a + bottom).take((top + l + s + a).len() as int),
            heading("── AUTHENTICATION-RESULTS ───────────────"@),
            auth_entry(header),
            (top + l + s + a + bottom).skip((top + l + s + a).len() as int),
        );
    } else {
        lemma_insert_second(top, l, s, a, bottom, header_line(header));
    }
}

proof fn lemma_insert_second(
    t: Seq<SpanView>,
    l: Seq<SpanView>,
    s: Seq<SpanView>,
    a: Seq<SpanView>,
    b: Seq<SpanView>,
    x: Seq<SpanView>,
)
    ensures
        ({
            let whole = t + l + s + a + b;
            let at = whole.len() - b.len() - a.len() - s.len();
            t + (l + x) + s + a + b == whole.take(at) + x + whole.skip(at)
        }),
{
    let whole = t + l + s + a + b;
    let at = whole.len() - b.len() - a.len() - s.len();
    assert(whole.take(at) =~= t + l);
    assert(whole.skip(at) =~= s + a + b);
    assert(t + (l + x) + s + a + b =~= (t + l) + x + (s + a + b));
}

proof fn lemma_insert_third(
    t: Seq<SpanView>,
    l: Seq<SpanView>,
    s: Seq<SpanView>,
    a: Seq<SpanView>,
    b: Seq<SpanView>,
    x: Seq<SpanView>,
)
    ensures
        ({
            let whole = t + l + s + a + b;
            let at = whole.len() - b.len() - a.len();
            &&& t + l + (s + x) + a + b == whole.take(at) + x + whole.skip(at)
            &&& at == (t + l + s).len()
        }),
{
    let whole = t + l + s + a + b;
    let at = whole.len() - b.len() - a.len();
    assert(whole.take(at) =~= t + l + s);
    assert(whole.skip(at) =~= a + b);
    assert(t + l + (s + x) + a + b =~= (t + l + s) + x + (a + b));
}

proof fn lemma_insert_fourth(
    t: Seq<SpanView>,
    l: Seq<SpanView>,
    s: Seq<SpanView>,
    a: Seq<SpanView>,
    b: Seq<SpanView>,
    x: Seq<SpanView>,
)
    ensures
        ({
            let whole = t + l + s + a + b;
            let at = whole.len() - b.len();
            &&& t + l + s + (a + x) + b == whole.take(at) + x + whole.skip(at)
            &&& at == (t + l + s + a).len()
        }),
{
    let whole = t + l + s + a + b;
    let at = whole.len() - b.len();
    assert(whole.take(at) =~= t + l + s + a);
    assert(whole.skip(at) =~= b);
    assert(t + l + s + (a + x) + b =~= (t + l + s + a) + x + b);
}

proof fn lemma_group(a: Seq<SpanView>, b: Seq<SpanView>, c: Seq<SpanView>, d: Seq<SpanView>)
    ensures
        a + (b + c) + d == a + b + c + d,
{
    assert(a + (b + c) + d =~= a + b + c + d);
}

proof fn lemma_empty_analysis()
    ensures
        analysis(Seq::empty()) == seq![
            plain("\n"@),
            span(Style::CyanBold, "── EMAIL HEADER ANALYSIS ────────────────"@),
            plain("\n"@),
            span(Style::CyanBold, "─────────────────────────────────────────"@),
            plain("\n\n"@),
        ],
{
    let none = Seq::<HeaderView>::empty();
    let line = |h: HeaderView| header_line(h);
    assert(none.flat_map(line) =~= Seq::<SpanView>::empty());
    assert(!has_kind(none, HeaderKind::ReceivedSpf));
    assert(!has_kind(none, HeaderKind::AuthenticationResults));
    assert(analysis(none) =~= seq![
        plain("\n"@),
        span(Style::CyanBold, "── EMAIL HEADER ANALYSIS ────────────────"@),
        plain("\n"@),
        span(Style::CyanBold, "─────────────────────────────────────────"@),
        plain("\n\n"@),
    ]);
}

proof fn lemma_sections_grow(headers: Seq<HeaderView>, header: HeaderView)
    ensures
        ({
            let more = headers.push(header);
            let line = |h: HeaderView| header_line(h);
            &&& more.flat_map(line) == headers.flat_map(line) + header_line(header)
            &&& header_line(header).len() == 0 ==> more.flat_map(line) == headers.flat_map(line)
            &&& header.kind != HeaderKind::ReceivedSpf ==> spf_section(more) == spf_section(
                headers,
            )
            &&& header.kind == HeaderKind::ReceivedSpf ==> spf_section(more) == spf_section(
                headers,
            ) + (if has_kind(headers, HeaderKind::ReceivedSpf) {
                spf_entry(header)
            } else {
                heading("── RECEIVED-SPF ─────────────────────────"@) + spf_entry(header)
            })
            &&& header.kind != HeaderKind::AuthenticationResults ==> auth_section(more)
                == auth_section(headers)
            &&& header.kind == HeaderKind::AuthenticationResults ==> auth_section(more)
                == auth_section(headers) + (if has_kind(
                headers,
                HeaderKind::AuthenticationResults,
            ) {
                auth_entry(header)
            } else {
                heading("── AUTHENTICATION-RESULTS ───────────────"@) + auth_entry(header)
            })
            &&& header.kind == HeaderKind::Other ==> analysis(more) == analysis(headers)
        }),
{
    let more = headers.push(header);
    let line = |h: HeaderView| header_line(h);
    let spf = |h: HeaderView| spf_entry(h);
    let auth = |h: HeaderView| auth_entry(h);
    headers.lemma_flat_map_push(line, header);
    headers.lemma_flat_map_push(spf, header);
    headers.lemma_flat_map_push(auth, header);
    lemma_has_kind_push(headers, header, HeaderKind::ReceivedSpf);
    lemma_has_kind_push(headers, header, HeaderKind::AuthenticationResults);
    assert(header_line(header).len() == 0 ==> headers.flat_map(line) + header_line(header)
        =~= headers.flat_map(line));
    if !has_kind(headers, HeaderKind::ReceivedSpf) {
        lemma_no_entries(headers, HeaderKind::ReceivedSpf, spf);
    }
    if !has_kind(headers, HeaderKind::AuthenticationResults) {
        lemma_no_entries(headers, HeaderKind::AuthenticationResults, auth);
    }
    if header.kind == HeaderKind::ReceivedSpf {
        assert(spf_section(more) =~= spf_section(headers) + (if has_kind(
            headers,
            HeaderKind::ReceivedSpf,
        ) {
            spf_entry(header)
        } else {
            heading("── RECEIVED-SPF ─────────────────────────"@) + spf_entry(header)
        }));
    } else {
        assert(spf_section(more) =~= spf_section(headers));
    }
    if header.kind == HeaderKind::AuthenticationResults {
        assert(auth_section(more) =~= auth_section(headers) + (if has_kind(
            headers,
            HeaderKind::AuthenticationResults,
        ) {
            auth_entry(header)
        } else {
            heading("── AUTHENTICATION-RESULTS ───────────────"@) + auth_entry(header)
        }));
    } else {
        assert(auth_section(more) =~= auth_section(headers));
    }
}

proof fn lemma_has_kind_push(headers: Seq<HeaderView>, header: HeaderView, kind: HeaderKind)
    ensures
        has_kind(headers.push(header), kind) <==> has_kind(headers, kind) || header.kind == kind,
{
    let more = headers.push(header);
    if has_kind(headers, kind) {
        let i = choose|i: int| 0 <= i < headers.len() && (#[trigger] headers[i]).kind == kind;
        assert(more[i].kind == kind);
    }
    if header.kind == kind {
        assert(more[headers.len() as int].kind == kind);
    }
    if has_kind(more, kind) {
        let i = choose|i: int| 0 <= i < more.len() && (#[trigger] more[i]).kind == kind;
        if i < headers.len() {
            assert(headers[i].kind == kind);
        }
    }
}

proof fn lemma_no_entries(
    headers: Seq<HeaderView>,
    kind: HeaderKind,
    f: spec_fn(HeaderView) -> Seq<SpanView>,
)
    requires
        !has_kind(headers, kind),
        forall|h: HeaderView| h.kind != kind ==> (#[trigger] f(h)).len() == 0,
    ensures
        headers.flat_map(f).len() == 0,
    decreases headers.len(),
{
    if headers.len() > 0 {
        let rest = headers.drop_last();
        let last = headers.last();
        assert(headers[headers.len() - 1].kind != kind);
        assert(!has_kind(rest, kind)) by {
            if has_kind(rest, kind) {
                let i = choose|i: int| 0 <= i < rest.len() && (#[trigger] rest[i]).kind == kind;
                assert(headers[i].kind == kind);
            }
        }
        lemma_no_entries(rest, kind, f);
        rest.lemma_flat_map_push(f, last);
        assert(rest.push(last) =~= headers);
    }
}

/// A mail that cannot be read is complained about in one line, with the reason.
pub proof fn law_complaint_gives_reason(error: Seq<char>)
    ensures
        complaint(error).len() == 4,
        complaint(error)[0] == span(Style::RedBold, "Error:"@),
        complaint(error)[1] == plain(" Failed to parse email: "@),
        complaint(error)[2] == plain(error),
        complaint(error)[3] == plain("\n"@),
{
}

} // verus!
