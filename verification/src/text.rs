//! Text as sequences of characters: searching, trimming, splitting, joining and decimal numbers.

use vstd::prelude::*;
use vstd::slice::slice_subrange;
use vstd::utf8::{decode_utf8, is_ascii_chars, valid_utf8};

verus! {

broadcast use vstd::string::group_string_axioms;

// ─── What is taken from the standard library ───────────────────────

/// `String::push` appends one character.
pub assume_specification[ String::push ](s: &mut String, c: char)
    ensures
        final(s)@ == old(s)@.push(c),
;

/// The lower-case equivalent of a text, by the Unicode case mappings.
pub uninterp spec fn lowercase_text(s: Seq<char>) -> Seq<char>;

/// The upper-case equivalent of a text, by the Unicode case mappings.
pub uninterp spec fn uppercase_text(s: Seq<char>) -> Seq<char>;

/// The quoted and escaped form in which a text is shown for debugging.
pub uninterp spec fn debug_text(s: Seq<char>) -> Seq<char>;

/// Bytes decoded as UTF-8, with replacement characters in place of what is not UTF-8.
pub uninterp spec fn lossy_text(bytes: Seq<u8>) -> Seq<char>;

/// `A` to `Z` become `a` to `z`; every other character stays.
pub open spec fn ascii_lower(c: char) -> char {
    if 'A' <= c <= 'Z' {
        (c as u32 + 32) as char
    } else {
        c
    }
}

/// `a` to `z` become `A` to `Z`; every other character stays.
pub open spec fn ascii_upper(c: char) -> char {
    if 'a' <= c <= 'z' {
        (c as u32 - 32) as char
    } else {
        c
    }
}

/// Printable ASCII that debug output shows as it is: no quote and no backslash.
pub open spec fn shown_plainly(c: char) -> bool {
    ' ' <= c <= '~' && c != '"' && c != '\\'
}

/// `str::to_lowercase` is a function of the text; on ASCII it maps each character alone.
#[verifier::external_body]
fn to_lowercase(s: &str) -> (r: String)
    ensures
        r@ == lowercase_text(s@),
        is_ascii_chars(s@) ==> r@ == s@.map_values(|c: char| ascii_lower(c)),
{
    s.to_lowercase()
}

/// `str::to_uppercase` is a function of the text; on ASCII it maps each character alone.
#[verifier::external_body]
fn to_uppercase(s: &str) -> (r: String)
    ensures
        r@ == uppercase_text(s@),
        is_ascii_chars(s@) ==> r@ == s@.map_values(|c: char| ascii_upper(c)),
{
    s.to_uppercase()
}

/// The `Debug` output of a `str` is a function of the text; where nothing needs an escape
/// it is the text in double quotes.
#[verifier::external_body]
fn to_debug(s: &str) -> (r: String)
    ensures
        r@ == debug_text(s@),
        s@.all(|c: char| shown_plainly(c)) ==> r@ == seq!['"'] + s@ + seq!['"'],
{
    format!("{:?}", s)
}

/// `String::from_utf8_lossy` is a function of the bytes; valid UTF-8 is decoded as it stands.
#[verifier::external_body]
fn from_utf8_lossy(bytes: &[u8]) -> (r: String)
    ensures
        r@ == lossy_text(bytes@),
        valid_utf8(bytes@) ==> r@ == decode_utf8(bytes@),
{
    String::from_utf8_lossy(bytes).to_string()
}

/// A text in lower case. On ASCII each character is mapped alone.
pub open spec fn lower_text(s: Seq<char>) -> Seq<char> {
    if is_ascii_chars(s) {
        s.map_values(|c: char| ascii_lower(c))
    } else {
        lowercase_text(s)
    }
}

/// Puts a text into lower case.
pub fn lowercase(s: &str) -> (r: String)
    ensures
        r@ == lower_text(s@),
{
    to_lowercase(s)
}

/// A text in upper case. On ASCII each character is mapped alone.
pub open spec fn upper_text(s: Seq<char>) -> Seq<char> {
    if is_ascii_chars(s) {
        s.map_values(|c: char| ascii_upper(c))
    } else {
        uppercase_text(s)
    }
}

/// Puts a text into upper case.
pub fn uppercase(s: &str) -> (r: String)
    ensures
        r@ == upper_text(s@),
{
    to_uppercase(s)
}

/// A text quoted for debugging. What needs no escape stands between the quotes as it is.
pub open spec fn quoted_text(s: Seq<char>) -> Seq<char> {
    if s.all(|c: char| shown_plainly(c)) {
        seq!['"'] + s + seq!['"']
    } else {
        debug_text(s)
    }
}

/// Quotes a text for debugging.
pub fn quote(s: &str) -> (r: String)
    ensures
        r@ == quoted_text(s@),
{
    to_debug(s)
}

/// Bytes decoded as UTF-8. What is not UTF-8 becomes replacement characters.
pub open spec fn decoded_text(bytes: Seq<u8>) -> Seq<char> {
    if valid_utf8(bytes) {
        decode_utf8(bytes)
    } else {
        lossy_text(bytes)
    }
}

/// Decodes bytes as UTF-8.
pub fn decode_bytes(bytes: &[u8]) -> (r: String)
    ensures
        r@ == decoded_text(bytes@),
{
    from_utf8_lossy(bytes)
}

// ─── Characters and texts ──────────────────────────────────────────

/// The characters of a text.
pub fn to_chars(s: &str) -> (chars: Vec<char>)
    ensures
        chars@ == s@,
{
    let mut chars: Vec<char> = Vec::new();
    for c in it: s.chars()
        invariant
            it.seq() == s@,
            chars@ == s@.take(it.index() as int),
    {
        chars.push(c);
    }
    chars
}

/// The text made of the given characters.
pub fn from_chars(chars: &[char]) -> (s: String)
    ensures
        s@ == chars@,
{
    let mut s = String::new();
    for i in 0..chars.len()
        invariant
            s@ == chars@.take(i as int),
    {
        s.push(chars[i]);
    }
    s
}

/// The part of a text from one position up to another.
fn part(chars: &Vec<char>, from: usize, to: usize) -> (s: String)
    requires
        from <= to <= chars@.len(),
    ensures
        s@ == chars@.subrange(from as int, to as int),
{
    from_chars(slice_subrange(chars.as_slice(), from, to))
}

/// Two texts, one behind the other.
pub fn cat2(a: &str, b: &str) -> (s: String)
    ensures
        s@ == a@ + b@,
{
    let mut s = a.to_string();
    s.append(b);
    s
}

/// Three texts, one behind the other.
pub fn cat3(a: &str, b: &str, c: &str) -> (s: String)
    ensures
        s@ == a@ + b@ + c@,
{
    let mut s = cat2(a, b);
    s.append(c);
    s
}

/// Four texts, one behind the other.
pub fn cat4(a: &str, b: &str, c: &str, d: &str) -> (s: String)
    ensures
        s@ == a@ + b@ + c@ + d@,
{
    let mut s = cat3(a, b, c);
    s.append(d);
    s
}

/// Five texts, one behind the other.
pub fn cat5(a: &str, b: &str, c: &str, d: &str, e: &str) -> (s: String)
    ensures
        s@ == a@ + b@ + c@ + d@ + e@,
{
    let mut s = cat3(a, b, c);
    s.append(d);
    s.append(e);
    s
}

/// Texts joined with a separator between neighbours.
pub open spec fn joined(parts: Seq<Seq<char>>, separator: Seq<char>) -> Seq<char>
    decreases parts.len(),
{
    if parts.len() == 0 {
        Seq::empty()
    } else if parts.len() == 1 {
        parts[0]
    } else {
        joined(parts.drop_last(), separator) + separator + parts.last()
    }
}

/// Joins texts with a separator between neighbours.
pub fn join(parts: &Vec<String>, separator: &str) -> (s: String)
    ensures
        s@ == joined(parts.deep_view(), separator@),
{
    let mut s = String::new();
    let ghost all = parts.deep_view();
    for i in 0..parts.len()
        invariant
            all == parts.deep_view(),
            s@ == joined(all.take(i as int), separator@),
    {
        proof {
            assert(all.take(i + 1).drop_last() =~= all.take(i as int));
            assert(all.take(i + 1).last() == parts@[i as int]@);
        }
        if i > 0 {
            s.append(separator);
        }
        s.append(parts[i].as_str());
        assert(i == 0 ==> s@ =~= parts@[0]@);
    }
    assert(all.take(parts.len() as int) =~= all);
    s
}

/// The form in which a list of texts is shown for debugging.
pub open spec fn debug_list(items: Seq<Seq<char>>) -> Seq<char> {
    seq!['['] + joined(items.map_values(|item: Seq<char>| quoted_text(item)), seq![',', ' '])
        + seq![']']
}

/// Shows a list of texts for debugging.
pub fn to_debug_list(items: &Vec<String>) -> (s: String)
    ensures
        s@ == debug_list(items.deep_view()),
{
    let mut shown: Vec<String> = Vec::new();
    let ghost f = |item: Seq<char>| quoted_text(item);
    for i in 0..items.len()
        invariant
            f == (|item: Seq<char>| quoted_text(item)),
            shown.deep_view() == items.deep_view().take(i as int).map_values(f),
    {
        let ghost before = shown.deep_view();
        let item = quote(items[i].as_str());
        shown.push(item);
        assert(shown.deep_view() =~= before.push(f(items.deep_view()[i as int])));
        assert(shown.deep_view() =~= items.deep_view().take(i + 1).map_values(f));
    }
    assert(items.deep_view().take(items.len() as int) =~= items.deep_view());
    proof {
        reveal_strlit("[");
        reveal_strlit(", ");
        reveal_strlit("]");
        assert("["@ =~= seq!['[']);
        assert(", "@ =~= seq![',', ' ']);
        assert("]"@ =~= seq![']']);
    }
    cat3("[", join(&shown, ", ").as_str(), "]")
}

/// All texts one behind the other.
pub fn concat_all(parts: &Vec<String>) -> (s: String)
    ensures
        s@ == parts.deep_view().flatten(),
{
    let mut s = String::new();
    let ghost all = parts.deep_view();
    proof {
        assert(all.take(0).flatten() =~= Seq::<char>::empty());
    }
    for i in 0..parts.len()
        invariant
            all == parts.deep_view(),
            s@ == all.take(i as int).flatten(),
    {
        proof {
            all.take(i as int).lemma_flatten_push(all[i as int]);
            assert(all.take(i + 1) =~= all.take(i as int).push(all[i as int]));
        }
        s.append(parts[i].as_str());
    }
    assert(all.take(parts.len() as int) =~= all);
    s
}

// ─── Searching ─────────────────────────────────────────────────────

/// `needle` stands in `hay` at position `at`.
pub open spec fn occurs_at(hay: Seq<char>, needle: Seq<char>, at: int) -> bool {
    0 <= at && at + needle.len() <= hay.len() && hay.subrange(at, at + needle.len()) == needle
}

/// `needle` stands somewhere in `hay`.
pub open spec fn occurs_in(hay: Seq<char>, needle: Seq<char>) -> bool {
    exists|at: int| occurs_at(hay, needle, at)
}

fn matches_at(hay: &Vec<char>, needle: &Vec<char>, at: usize) -> (r: bool)
    requires
        at + needle@.len() <= hay@.len(),
    ensures
        r == occurs_at(hay@, needle@, at as int),
{
    for i in 0..needle.len()
        invariant
            at + needle.len() <= hay.len(),
            forall|j: int| 0 <= j < i ==> hay@[at + j] == needle@[j],
    {
        if hay[at + i] != needle[i] {
            assert(hay@.subrange(at as int, at + needle@.len())[i as int] != needle@[i as int]);
            return false;
        }
    }
    assert(hay@.subrange(at as int, at + needle@.len()) =~= needle@);
    true
}

/// Whether one text stands somewhere in another.
pub fn contains(hay: &str, needle: &str) -> (r: bool)
    ensures
        r == occurs_in(hay@, needle@),
{
    let h = to_chars(hay);
    let n = to_chars(needle);
    if n.len() > h.len() {
        return false;
    }
    let last: usize = h.len() - n.len();
    let mut at: usize = 0;
    while at <= last
        invariant
            last == h@.len() - n@.len(),
            h@ == hay@,
            n@ == needle@,
            at <= last + 1,
            h@.len() <= usize::MAX,
            forall|i: int| 0 <= i < at ==> !occurs_at(h@, n@, i),
        decreases last + 1 - at,
    {
        if matches_at(&h, &n, at) {
            return true;
        }
        if at == last {
            return false;
        }
        at = at + 1;
    }
    false
}

/// Whether a text begins with another.
pub fn starts_with(s: &str, prefix: &str) -> (r: bool)
    ensures
        r == prefix@.is_prefix_of(s@),
{
    let h = to_chars(s);
    let n = to_chars(prefix);
    n.len() <= h.len() && matches_at(&h, &n, 0)
}

/// Whether a text ends with another.
pub fn ends_with(s: &str, suffix: &str) -> (r: bool)
    ensures
        r == suffix@.is_suffix_of(s@),
{
    let h = to_chars(s);
    let n = to_chars(suffix);
    n.len() <= h.len() && matches_at(&h, &n, h.len() - n.len())
}

/// Whether two texts are the same.
pub fn same(a: &str, b: &str) -> (r: bool)
    ensures
        r == (a@ == b@),
{
    let x = to_chars(a);
    let y = to_chars(b);
    if x.len() != y.len() {
        return false;
    }
    let r = matches_at(&x, &y, 0);
    assert(x@.subrange(0, x@.len() as int) =~= x@);
    r
}

// ─── White space ───────────────────────────────────────────────────

/// The Unicode `White_Space` property.
pub open spec fn white_space(c: char) -> bool {
    let n = c as u32;
    ||| 0x9 <= n <= 0xd
    ||| n == 0x20
    ||| n == 0x85
    ||| n == 0xa0
    ||| n == 0x1680
    ||| 0x2000 <= n <= 0x200a
    ||| n == 0x2028
    ||| n == 0x2029
    ||| n == 0x202f
    ||| n == 0x205f
    ||| n == 0x3000
}

/// Whether a character has the Unicode `White_Space` property.
pub fn is_white_space(c: char) -> (r: bool)
    ensures
        r == white_space(c),
{
    let n: u32 = c as u32;
    (0x9 <= n && n <= 0xd) || n == 0x20 || n == 0x85 || n == 0xa0 || n == 0x1680 || (0x2000 <= n
        && n <= 0x200a) || n == 0x2028 || n == 0x2029 || n == 0x202f || n == 0x205f || n == 0x3000
}

/// A text without its leading white space.
pub open spec fn trimmed_start(s: Seq<char>) -> Seq<char>
    decreases s.len(),
{
    if s.len() > 0 && white_space(s[0]) {
        trimmed_start(s.drop_first())
    } else {
        s
    }
}

/// A text without its trailing white space.
pub open spec fn trimmed_end(s: Seq<char>) -> Seq<char>
    decreases s.len(),
{
    if s.len() > 0 && white_space(s.last()) {
        trimmed_end(s.drop_last())
    } else {
        s
    }
}

/// A text without its leading and trailing white space.
pub open spec fn trimmed(s: Seq<char>) -> Seq<char> {
    trimmed_end(trimmed_start(s))
}

/// Removes leading and trailing white space.
pub fn trim(s: &str) -> (r: String)
    ensures
        r@ == trimmed(s@),
{
    let chars = to_chars(s);
    let mut from: usize = 0;
    let mut to: usize = chars.len();
    assert(chars@.skip(0) =~= chars@);
    while from < chars.len() && is_white_space(chars[from])
        invariant
            from <= chars@.len(),
            trimmed_start(chars@.skip(from as int)) == trimmed_start(chars@),
        decreases chars@.len() - from,
    {
        assert(chars@.skip(from as int).drop_first() =~= chars@.skip(from + 1));
        from = from + 1;
    }
    let ghost body = chars@.skip(from as int);
    assert(body == trimmed_start(chars@));
    assert(chars@.subrange(from as int, to as int) =~= body);
    while from < to && is_white_space(chars[to - 1])
        invariant
            from <= to <= chars@.len(),
            trimmed_end(chars@.subrange(from as int, to as int)) == trimmed_end(body),
        decreases to - from,
    {
        assert(chars@.subrange(from as int, to as int).drop_last() =~= chars@.subrange(
            from as int,
            to - 1,
        ));
        to = to - 1;
    }
    part(&chars, from, to)
}

/// The length of the leading run of characters that are not white space.
pub open spec fn word_len(s: Seq<char>) -> nat
    decreases s.len(),
{
    if s.len() == 0 || white_space(s[0]) {
        0
    } else {
        1 + word_len(s.drop_first())
    }
}

/// `word_len` reaches to the first white space and no further.
pub proof fn lemma_word_len(s: Seq<char>)
    ensures
        word_len(s) <= s.len(),
        s.len() > 0 && !white_space(s[0]) ==> word_len(s) > 0,
        forall|i: int| 0 <= i < word_len(s) ==> !white_space(#[trigger] s[i]),
        word_len(s) < s.len() ==> white_space(s[word_len(s) as int]),
    decreases s.len(),
{
    if s.len() > 0 && !white_space(s[0]) {
        let rest = s.drop_first();
        lemma_word_len(rest);
        assert forall|i: int| 0 <= i < word_len(s) implies !white_space(#[trigger] s[i]) by {
            if i > 0 {
                assert(s[i] == rest[i - 1]);
            }
        }
    }
}

/// The words of a text: its maximal runs of characters that are not white space.
pub open spec fn words(s: Seq<char>) -> Seq<Seq<char>>
    decreases s.len(),
{
    if s.len() == 0 {
        Seq::empty()
    } else if white_space(s[0]) {
        words(s.drop_first())
    } else {
        proof {
            lemma_word_len(s);
        }
        seq![s.take(word_len(s) as int)] + words(s.skip(word_len(s) as int))
    }
}

/// A word is not empty and holds no white space.
pub proof fn law_words_are_solid(s: Seq<char>, i: int)
    requires
        0 <= i < words(s).len(),
    ensures
        words(s)[i].len() > 0,
        forall|j: int| 0 <= j < words(s)[i].len() ==> !white_space(#[trigger] words(s)[i][j]),
    decreases s.len(),
{
    if white_space(s[0]) {
        law_words_are_solid(s.drop_first(), i);
    } else {
        lemma_word_len(s);
        if i > 0 {
            law_words_are_solid(s.skip(word_len(s) as int), i - 1);
        }
    }
}

/// Splits a text into its words.
pub fn split_words(s: &str) -> (out: Vec<String>)
    ensures
        out.deep_view() == words(s@),
{
    let chars = to_chars(s);
    let mut out: Vec<String> = Vec::new();
    let mut i: usize = 0;
    assert(chars@.skip(0) =~= chars@);
    assert(out.deep_view() + words(chars@) =~= words(chars@));
    while i < chars.len()
        invariant
            i <= chars@.len(),
            out.deep_view() + words(chars@.skip(i as int)) == words(chars@),
        decreases chars@.len() - i,
    {
        let ghost rest = chars@.skip(i as int);
        if is_white_space(chars[i]) {
            assert(rest.drop_first() =~= chars@.skip(i + 1));
            i = i + 1;
        } else {
            let mut j: usize = i;
            while j < chars.len() && !is_white_space(chars[j])
                invariant
                    i <= j <= chars@.len(),
                    rest == chars@.skip(i as int),
                    word_len(rest) == (j - i) + word_len(chars@.skip(j as int)),
                decreases chars@.len() - j,
            {
                assert(chars@.skip(j as int).drop_first() =~= chars@.skip(j + 1));
                j = j + 1;
            }
            let ghost before = out.deep_view();
            let word = part(&chars, i, j);
            proof {
                lemma_word_len(rest);
                assert(word@ =~= rest.take(word_len(rest) as int));
                assert(rest.skip(word_len(rest) as int) =~= chars@.skip(j as int));
            }
            out.push(word);
            proof {
                assert(out.deep_view() =~= before.push(word@));
                assert(before.push(word@) + words(chars@.skip(j as int)) =~= before + (seq![
                    word@,
                ] + words(chars@.skip(j as int))));
            }
            i = j;
        }
    }
    assert(words(chars@.skip(i as int)) =~= Seq::empty());
    assert(out.deep_view() + Seq::<Seq<char>>::empty() =~= out.deep_view());
    out
}

// ─── Splitting at a character ──────────────────────────────────────

/// The position of the first `c` in a text, or its length where there is none.
pub open spec fn first_index(s: Seq<char>, c: char) -> nat
    decreases s.len(),
{
    if s.len() == 0 || s[0] == c {
        0
    } else {
        1 + first_index(s.drop_first(), c)
    }
}

/// `first_index` is the least position at which the character stands.
pub proof fn lemma_first_index(s: Seq<char>, c: char)
    ensures
        first_index(s, c) <= s.len(),
        first_index(s, c) < s.len() ==> s[first_index(s, c) as int] == c,
        forall|i: int| 0 <= i < first_index(s, c) ==> #[trigger] s[i] != c,
    decreases s.len(),
{
    if s.len() > 0 && s[0] != c {
        let rest = s.drop_first();
        lemma_first_index(rest, c);
        assert forall|i: int| 0 <= i < first_index(s, c) implies #[trigger] s[i] != c by {
            if i > 0 {
                assert(s[i] == rest[i - 1]);
            }
        }
    }
}

/// The least position at which a character stands is the first.
pub proof fn lemma_first_index_is(s: Seq<char>, c: char, at: int)
    requires
        0 <= at <= s.len(),
        at < s.len() ==> s[at] == c,
        forall|i: int| 0 <= i < at ==> #[trigger] s[i] != c,
    ensures
        first_index(s, c) == at,
{
    lemma_first_index(s, c);
    let found = first_index(s, c) as int;
    if found < at {
        assert(s[found] != c);
    }
}

/// Finds the first `c` at or behind a position.
fn find_char(chars: &Vec<char>, from: usize, c: char) -> (at: usize)
    requires
        from <= chars@.len(),
    ensures
        from <= at <= chars@.len(),
        at == from + first_index(chars@.skip(from as int), c),
{
    let mut at: usize = from;
    while at < chars.len() && chars[at] != c
        invariant
            from <= at <= chars@.len(),
            first_index(chars@.skip(from as int), c) == (at - from) + first_index(
                chars@.skip(at as int),
                c,
            ),
        decreases chars@.len() - at,
    {
        assert(chars@.skip(at as int).drop_first() =~= chars@.skip(at + 1));
        at = at + 1;
    }
    at
}

/// The pieces of a text between the occurrences of a separator, empty ones too.
pub open spec fn pieces(s: Seq<char>, separator: char) -> Seq<Seq<char>>
    decreases s.len(),
{
    let at = first_index(s, separator) as int;
    if at >= s.len() {
        seq![s]
    } else {
        seq![s.take(at)] + pieces(s.skip(at + 1), separator)
    }
}

/// Splits a text at every occurrence of a separator.
pub fn split_on(s: &str, separator: char) -> (out: Vec<String>)
    ensures
        out.deep_view() == pieces(s@, separator),
{
    let chars = to_chars(s);
    let mut out: Vec<String> = Vec::new();
    let mut from: usize = 0;
    assert(chars@.skip(0) =~= chars@);
    assert(out.deep_view() + pieces(chars@, separator) =~= pieces(chars@, separator));
    loop
        invariant
            from <= chars@.len(),
            chars@ == s@,
            out.deep_view() + pieces(chars@.skip(from as int), separator) == pieces(
                chars@,
                separator,
            ),
        decreases chars@.len() - from,
    {
        let at = find_char(&chars, from, separator);
        let ghost rest = chars@.skip(from as int);
        let ghost before = out.deep_view();
        let piece = part(&chars, from, at);
        assert(piece@ =~= rest.take(at - from));
        out.push(piece);
        assert(out.deep_view() =~= before.push(piece@));
        if at == chars.len() {
            proof {
                assert(piece@ =~= rest);
                assert(before.push(piece@) =~= before + seq![rest]);
            }
            return out;
        }
        proof {
            assert(rest.skip(at - from + 1) =~= chars@.skip(at + 1));
            assert(before.push(piece@) + pieces(chars@.skip(at + 1), separator) =~= before + (seq![
                piece@,
            ] + pieces(chars@.skip(at + 1), separator)));
        }
        from = at + 1;
    }
}

/// A text joined from parts that do not hold the separator is split into these parts again.
pub proof fn law_split_undoes_join(parts: Seq<Seq<char>>, separator: char)
    requires
        parts.len() > 0,
        forall|i: int, k: int|
            0 <= i < parts.len() && 0 <= k < parts[i].len() ==> (#[trigger] parts[i][k])
                != separator,
    ensures
        pieces(joined(parts, seq![separator]), separator) == parts,
    decreases parts.len(),
{
    let last = parts.last();
    assert forall|k: int| 0 <= k < last.len() implies #[trigger] last[k] != separator by {
        assert(parts[parts.len() - 1][k] != separator);
    }
    if parts.len() == 1 {
        lemma_first_index_is(last, separator, last.len() as int);
        assert(parts =~= seq![last]);
    } else {
        let rest = parts.drop_last();
        assert forall|i: int, k: int|
            0 <= i < rest.len() && 0 <= k < rest[i].len() implies (#[trigger] rest[i][k])
            != separator by {
            assert(parts[i][k] != separator);
        }
        law_split_undoes_join(rest, separator);
        lemma_pieces_push(joined(rest, seq![separator]), last, separator);
        assert(rest.push(last) =~= parts);
    }
}

proof fn lemma_pieces_push(s: Seq<char>, last: Seq<char>, separator: char)
    requires
        forall|k: int| 0 <= k < last.len() ==> #[trigger] last[k] != separator,
    ensures
        pieces(s + seq![separator] + last, separator) == pieces(s, separator).push(last),
    decreases s.len(),
{
    let whole = s + seq![separator] + last;
    let at = first_index(s, separator) as int;
    lemma_first_index(s, separator);
    assert forall|i: int| 0 <= i < at implies #[trigger] whole[i] != separator by {
        assert(whole[i] == s[i]);
    }
    lemma_first_index_is(whole, separator, at);
    assert(whole.take(at) =~= s.take(at));
    assert(pieces(whole, separator) == seq![whole.take(at)] + pieces(
        whole.skip(at + 1),
        separator,
    ));
    if at < s.len() {
        let rest = s.skip(at + 1);
        lemma_pieces_push(rest, last, separator);
        assert(whole.skip(at + 1) =~= rest + seq![separator] + last);
        assert(seq![s.take(at)] + pieces(rest, separator).push(last) =~= (seq![s.take(at)]
            + pieces(rest, separator)).push(last));
    } else {
        assert(s.take(at) =~= s);
        assert(whole.skip(at + 1) =~= last);
        lemma_first_index_is(last, separator, last.len() as int);
        assert(pieces(last, separator) == seq![last]);
        assert(pieces(s, separator) == seq![s]);
        assert(seq![s] + seq![last] =~= seq![s].push(last));
    }
}

/// A line without the carriage return in front of its line feed.
pub open spec fn without_cr(s: Seq<char>) -> Seq<char> {
    if s.len() > 0 && s.last() == '\r' {
        s.drop_last()
    } else {
        s
    }
}

/// The lines of a text. A line ends with a line feed, or a carriage return and a line feed;
/// behind the last one no line begins unless there is text.
pub open spec fn lines(s: Seq<char>) -> Seq<Seq<char>>
    decreases s.len(),
{
    let at = first_index(s, '\n') as int;
    if s.len() == 0 {
        Seq::empty()
    } else if at >= s.len() {
        seq![s]
    } else {
        seq![without_cr(s.take(at))] + lines(s.skip(at + 1))
    }
}

/// Splits a text into its lines.
pub fn split_lines(s: &str) -> (out: Vec<String>)
    ensures
        out.deep_view() == lines(s@),
{
    let chars = to_chars(s);
    let mut out: Vec<String> = Vec::new();
    let mut from: usize = 0;
    assert(chars@.skip(0) =~= chars@);
    assert(out.deep_view() + lines(chars@) =~= lines(chars@));
    while from < chars.len()
        invariant
            from <= chars@.len(),
            chars@ == s@,
            out.deep_view() + lines(chars@.skip(from as int)) == lines(chars@),
        decreases chars@.len() - from,
    {
        let at = find_char(&chars, from, '\n');
        let ghost rest = chars@.skip(from as int);
        let ghost before = out.deep_view();
        if at == chars.len() {
            let line = part(&chars, from, at);
            out.push(line);
            proof {
                assert(line@ =~= rest);
                assert(out.deep_view() =~= before + seq![rest]);
            }
            return out;
        }
        let to: usize = if at > from && chars[at - 1] == '\r' {
            at - 1
        } else {
            at
        };
        let line = part(&chars, from, to);
        out.push(line);
        proof {
            assert(line@ =~= without_cr(rest.take(at - from)));
            assert(out.deep_view() =~= before.push(line@));
            assert(rest.skip(at - from + 1) =~= chars@.skip(at + 1));
            assert(before.push(line@) + lines(chars@.skip(at + 1)) =~= before + (seq![line@]
                + lines(chars@.skip(at + 1))));
        }
        from = at + 1;
    }
    assert(lines(chars@.skip(from as int)) =~= Seq::empty());
    assert(out.deep_view() + Seq::<Seq<char>>::empty() =~= out.deep_view());
    out
}

/// The first line of a text, or nothing where the text is empty.
pub open spec fn first_line(s: Seq<char>) -> Seq<char> {
    if lines(s).len() > 0 {
        lines(s)[0]
    } else {
        Seq::empty()
    }
}

/// The first line of a text.
pub fn head_line(s: &str) -> (r: String)
    ensures
        r@ == first_line(s@),
{
    let all = split_lines(s);
    if all.len() > 0 {
        assert(all.deep_view()[0] == all@[0]@);
        all[0].clone()
    } else {
        String::new()
    }
}

/// At most the first `count` characters of a text.
pub open spec fn shortened(s: Seq<char>, count: nat) -> Seq<char> {
    if s.len() <= count {
        s
    } else {
        s.take(count as int)
    }
}

/// Keeps at most the first `count` characters of a text.
pub fn shorten(s: &str, count: usize) -> (r: String)
    ensures
        r@ == shortened(s@, count as nat),
{
    let chars = to_chars(s);
    let to: usize = if chars.len() <= count {
        chars.len()
    } else {
        count
    };
    assert(chars@.subrange(0, to as int) =~= shortened(s@, count as nat));
    part(&chars, 0, to)
}

// ─── Decimal numbers ───────────────────────────────────────────────

/// The ASCII digits.
pub open spec fn is_digit(c: char) -> bool {
    '0' <= c <= '9'
}

/// The value of a digit.
pub open spec fn digit_value(c: char) -> nat {
    (c as u32 - '0' as u32) as nat
}

/// The digit with a value below ten.
pub open spec fn digit_char(d: nat) -> char {
    ('0' as u32 + d) as char
}

/// The value of a row of digits.
pub open spec fn digits_value(s: Seq<char>) -> nat
    decreases s.len(),
{
    if s.len() == 0 {
        0
    } else {
        digits_value(s.drop_last()) * 10 + digit_value(s.last())
    }
}

/// What follows an optional plus sign.
pub open spec fn without_plus(s: Seq<char>) -> Seq<char> {
    if s.len() > 0 && s[0] == '+' {
        s.skip(1)
    } else {
        s
    }
}

/// An unsigned decimal number up to a limit: an optional plus sign and at least one digit.
pub open spec fn unsigned_value(s: Seq<char>, limit: nat) -> Option<nat> {
    let digits = without_plus(s);
    if digits.len() > 0 && digits.all(|c: char| is_digit(c)) && digits_value(digits) <= limit {
        Some(digits_value(digits))
    } else {
        None
    }
}

proof fn lemma_digits_value_grows(s: Seq<char>, i: int)
    requires
        0 <= i <= s.len(),
    ensures
        digits_value(s.take(i)) <= digits_value(s),
    decreases s.len(),
{
    if i == s.len() {
        assert(s.take(i) =~= s);
    } else {
        lemma_digits_value_grows(s.drop_last(), i);
        assert(s.drop_last().take(i) =~= s.take(i));
    }
}

/// Reads an unsigned decimal number up to a limit.
pub fn parse_unsigned(s: &str, limit: u16) -> (r: Option<u16>)
    ensures
        r is Some == unsigned_value(s@, limit as nat) is Some,
        r matches Some(n) ==> unsigned_value(s@, limit as nat) == Some(n as nat),
{
    let chars = to_chars(s);
    let from: usize = if chars.len() > 0 && chars[0] == '+' {
        1
    } else {
        0
    };
    let ghost digits = without_plus(s@);
    assert(digits =~= chars@.skip(from as int));
    if from == chars.len() {
        return None;
    }
    let mut value: u32 = 0;
    let mut i: usize = from;
    while i < chars.len()
        invariant
            from <= i <= chars@.len(),
            from < chars@.len(),
            digits == chars@.skip(from as int),
            digits == without_plus(s@),
            value <= limit,
            value as nat == digits_value(digits.take(i - from)),
            forall|j: int| 0 <= j < i - from ==> is_digit(#[trigger] digits[j]),
        decreases chars@.len() - i,
    {
        let c = chars[i];
        assert(c == digits[i - from]);
        if !('0' <= c && c <= '9') {
            proof {
                let digit = |d: char| is_digit(d);
                assert(!digit(digits[i - from]));
            }
            return None;
        }
        proof {
            assert(digits.take(i - from + 1).drop_last() =~= digits.take(i - from));
            lemma_digits_value_grows(digits, i - from + 1);
        }
        value = value * 10 + (c as u32 - 48);
        if value > limit as u32 {
            return None;
        }
        i = i + 1;
    }
    assert(digits.take(i - from) =~= digits);
    Some(value as u16)
}

/// The decimal form of a number.
pub open spec fn decimal(n: nat) -> Seq<char>
    decreases n,
{
    if n < 10 {
        seq![digit_char(n)]
    } else {
        decimal(n / 10).push(digit_char(n % 10))
    }
}

/// Writes a number in decimal form.
pub fn to_decimal(n: u64) -> (s: String)
    ensures
        s@ == decimal(n as nat),
    decreases n,
{
    let mut s = if n < 10 {
        String::new()
    } else {
        to_decimal(n / 10)
    };
    let digit: u8 = (n % 10) as u8;
    s.push((48 + digit) as char);
    assert(n < 10 ==> s@ =~= seq![digit_char(n as nat)]);
    s
}

/// A number read back from its decimal form is the number.
pub proof fn law_decimal_reads_back(n: nat, limit: nat)
    requires
        n <= limit,
    ensures
        unsigned_value(decimal(n), limit) == Some(n),
{
    lemma_decimal(n);
    assert(decimal(n)[0] != '+');
}

proof fn lemma_decimal(n: nat)
    ensures
        decimal(n).len() > 0,
        forall|i: int| 0 <= i < decimal(n).len() ==> is_digit(#[trigger] decimal(n)[i]),
        digits_value(decimal(n)) == n,
    decreases n,
{
    if n < 10 {
        assert(decimal(n).drop_last() =~= Seq::empty());
        assert(digits_value(Seq::<char>::empty()) == 0);
    } else {
        lemma_decimal(n / 10);
        assert(decimal(n).drop_last() =~= decimal(n / 10));
    }
}

// ─── Laws ──────────────────────────────────────────────────────────

/// A text of white space alone.
pub open spec fn blank(s: Seq<char>) -> bool {
    forall|i: int| 0 <= i < s.len() ==> white_space(#[trigger] s[i])
}

/// A text without white space.
pub open spec fn solid(s: Seq<char>) -> bool {
    forall|i: int| 0 <= i < s.len() ==> !white_space(#[trigger] s[i])
}

/// A text in which a character does not stand.
pub open spec fn lacks(s: Seq<char>, c: char) -> bool {
    forall|i: int| 0 <= i < s.len() ==> #[trigger] s[i] != c
}

/// One text stands in another exactly where the other is made of it with something in front and
/// something behind.
pub proof fn law_found_means_within(hay: Seq<char>, needle: Seq<char>)
    ensures
        forall|a: Seq<char>, b: Seq<char>| occurs_in(#[trigger] (a + needle + b), needle),
        occurs_in(hay, needle) ==> exists|a: Seq<char>, b: Seq<char>|
            hay == #[trigger] (a + needle + b),
{
    assert forall|a: Seq<char>, b: Seq<char>| occurs_in(#[trigger] (a + needle + b), needle) by {
        let whole = a + needle + b;
        assert(whole.subrange(a.len() as int, a.len() as int + needle.len()) =~= needle);
        assert(occurs_at(whole, needle, a.len() as int));
    }
    if occurs_in(hay, needle) {
        let at = choose|at: int| occurs_at(hay, needle, at);
        let a = hay.take(at);
        let b = hay.skip(at + needle.len());
        assert(hay =~= a + needle + b);
    }
}

/// Tabs, line breaks and spaces are white space; letters, digits and ASCII punctuation are not.
pub proof fn law_white_space_is_unicode(c: char)
    ensures
        white_space(c) <==> (c == '\t' || c == '\n' || c == '\u{b}' || c == '\u{c}' || c == '\r' || c
            == ' ' || c == '\u{85}' || c == '\u{a0}' || c == '\u{1680}' || '\u{2000}' <= c
            <= '\u{200a}' || c == '\u{2028}' || c == '\u{2029}' || c == '\u{202f}' || c
            == '\u{205f}' || c == '\u{3000}'),
        '!' <= c <= '~' ==> !white_space(c),
{
}

proof fn lemma_blank_start(w: Seq<char>, s: Seq<char>)
    requires
        blank(w),
    ensures
        trimmed_start(w + s) == trimmed_start(s),
    decreases w.len(),
{
    if w.len() == 0 {
        assert(w + s =~= s);
    } else {
        let rest = w.drop_first();
        assert forall|i: int| 0 <= i < rest.len() implies white_space(#[trigger] rest[i]) by {
            assert(rest[i] == w[i + 1]);
        }
        lemma_blank_start(rest, s);
        assert((w + s)[0] == w[0]);
        assert((w + s).drop_first() =~= rest + s);
    }
}

proof fn lemma_blank_end(s: Seq<char>, w: Seq<char>)
    requires
        blank(w),
    ensures
        trimmed_end(s + w) == trimmed_end(s),
    decreases w.len(),
{
    if w.len() == 0 {
        assert(s + w =~= s);
    } else {
        let rest = w.drop_last();
        assert forall|i: int| 0 <= i < rest.len() implies white_space(#[trigger] rest[i]) by {
            assert(rest[i] == w[i]);
        }
        lemma_blank_end(s, rest);
        assert((s + w).last() == w[w.len() - 1]);
        assert((s + w).drop_last() =~= s + rest);
    }
}

/// Trimming takes the white space around a text away and nothing else.
pub proof fn law_trim_drops_blank_ends(front: Seq<char>, s: Seq<char>, back: Seq<char>)
    requires
        blank(front),
        blank(back),
        s.len() > 0 ==> !white_space(s[0]) && !white_space(s.last()),
    ensures
        trimmed(front + s + back) == s,
{
    lemma_blank_start(front, s + back);
    assert(front + s + back =~= front + (s + back));
    if s.len() == 0 {
        assert(s + back =~= back + s);
        lemma_blank_start(back, s);
        assert(trimmed_start(s) == s);
        assert(trimmed_end(s) == s);
    } else {
        assert((s + back)[0] == s[0]);
        lemma_blank_end(s, back);
    }
}

/// No words stand in white space; text without any is one word; and behind white space each
/// further word is one more.
pub proof fn law_words_stand_between_blanks(s: Seq<char>, space: char, word: Seq<char>)
    requires
        white_space(space),
        word.len() > 0,
        solid(word),
    ensures
        words(Seq::<char>::empty()) == Seq::<Seq<char>>::empty(),
        words(word) == seq![word],
        words(s.push(space)) == words(s),
        words(s.push(space) + word) == words(s).push(word),
{
    lemma_one_word(word);
    lemma_words_split(s, seq![space]);
    lemma_words_split(s, seq![space] + word);
    assert(s.push(space) =~= s + seq![space]);
    assert(s.push(space) + word =~= s + (seq![space] + word));
    assert(seq![space].drop_first() =~= Seq::<char>::empty());
    assert(words(seq![space]) == words(Seq::<char>::empty()));
    assert(words(s) + Seq::<Seq<char>>::empty() =~= words(s));
    assert((seq![space] + word).drop_first() =~= word);
    assert((seq![space] + word)[0] == space);
    assert(words(seq![space] + word) == words(word));
    assert(words(s) + seq![word] =~= words(s).push(word));
}

proof fn lemma_one_word(word: Seq<char>)
    requires
        word.len() > 0,
        solid(word),
    ensures
        words(word) == seq![word],
{
    lemma_word_len(word);
    if word_len(word) < word.len() {
        assert(white_space(word[word_len(word) as int]));
    }
    assert(word.take(word.len() as int) =~= word);
    assert(word.skip(word.len() as int) =~= Seq::<char>::empty());
    assert(words(Seq::<char>::empty()) =~= Seq::<Seq<char>>::empty());
    assert(seq![word] + Seq::<Seq<char>>::empty() =~= seq![word]);
}

proof fn lemma_words_split(s: Seq<char>, rest: Seq<char>)
    requires
        rest.len() > 0,
        white_space(rest[0]),
    ensures
        words(s + rest) == words(s) + words(rest),
    decreases s.len(),
{
    let whole = s + rest;
    if s.len() == 0 {
        assert(whole =~= rest);
        assert(words(s) + words(rest) =~= words(rest));
    } else if white_space(s[0]) {
        assert(whole.drop_first() =~= s.drop_first() + rest);
        lemma_words_split(s.drop_first(), rest);
    } else {
        lemma_word_len(s);
        lemma_word_len_cut(s, rest);
        let n = word_len(s) as int;
        assert(whole[0] == s[0]);
        assert(whole.take(n) =~= s.take(n));
        assert(whole.skip(n) =~= s.skip(n) + rest);
        lemma_words_split(s.skip(n), rest);
        assert(seq![s.take(n)] + (words(s.skip(n)) + words(rest)) =~= (seq![s.take(n)] + words(
            s.skip(n),
        )) + words(rest));
    }
}

proof fn lemma_word_len_cut(s: Seq<char>, rest: Seq<char>)
    requires
        rest.len() > 0,
        white_space(rest[0]),
    ensures
        word_len(s + rest) == word_len(s),
    decreases s.len(),
{
    let whole = s + rest;
    if s.len() == 0 {
        assert(whole[0] == rest[0]);
    } else {
        assert(whole[0] == s[0]);
        if !white_space(s[0]) {
            assert(whole.drop_first() =~= s.drop_first() + rest);
            lemma_word_len_cut(s.drop_first(), rest);
        }
    }
}

/// A joined text grows by the separator and the part, and begins with the first part alone.
pub proof fn law_join_grows(parts: Seq<Seq<char>>, part: Seq<char>, separator: Seq<char>)
    ensures
        joined(Seq::<Seq<char>>::empty(), separator) == Seq::<char>::empty(),
        joined(seq![part], separator) == part,
        parts.len() > 0 ==> joined(parts.push(part), separator) == joined(parts, separator)
            + separator + part,
{
    assert(parts.push(part).drop_last() =~= parts);
}

/// A line feed ends a line, and a carriage return in front of it is no part of the line; what
/// follows the last line feed is a line where it is not empty.
pub proof fn law_lines_end_at_line_feeds(line: Seq<char>, rest: Seq<char>)
    requires
        lacks(line, '\n'),
    ensures
        lines(Seq::<char>::empty()) == Seq::<Seq<char>>::empty(),
        line.len() > 0 ==> lines(line) == seq![line],
        line.len() == 0 || line.last() != '\r' ==> lines(line.push('\n') + rest) == seq![line]
            + lines(rest),
        lines(line.push('\r').push('\n') + rest) == seq![line] + lines(rest),
{
    lemma_first_index_is(line, '\n', line.len() as int);
    let plain = line.push('\n') + rest;
    lemma_first_index_is(plain, '\n', line.len() as int);
    assert(plain.take(line.len() as int) =~= line);
    assert(plain.skip(line.len() as int + 1) =~= rest);
    let with_cr = line.push('\r').push('\n') + rest;
    let ended = line.push('\r');
    assert forall|i: int| 0 <= i < ended.len() implies #[trigger] with_cr[i] != '\n' by {
        assert(with_cr[i] == ended[i]);
    }
    lemma_first_index_is(with_cr, '\n', ended.len() as int);
    assert(with_cr.take(ended.len() as int) =~= ended);
    assert(ended.drop_last() =~= line);
    assert(with_cr.skip(ended.len() as int + 1) =~= rest);
}

/// The first line of a text is what stands in front of its first line feed, without a carriage
/// return.
pub proof fn law_first_line_ends_at_line_feed(line: Seq<char>, rest: Seq<char>)
    requires
        lacks(line, '\n'),
    ensures
        first_line(line) == line,
        line.len() == 0 || line.last() != '\r' ==> first_line(line.push('\n') + rest) == line,
        first_line(line.push('\r').push('\n') + rest) == line,
{
    law_lines_end_at_line_feeds(line, rest);
    if line.len() == 0 {
        assert(line =~= Seq::<char>::empty());
    }
}

/// A shortened text is the whole text where it is short enough, and else as many of its first
/// characters as allowed.
pub proof fn law_shortened_is_a_prefix(s: Seq<char>, count: nat)
    ensures
        shortened(s, count).is_prefix_of(s),
        shortened(s, count).len() == if s.len() <= count {
            s.len()
        } else {
            count
        },
{
    assert(s.subrange(0, s.len() as int) =~= s);
    if s.len() > count {
        assert(s.take(count as int) =~= s.subrange(0, count as int));
    }
}

/// A row of digits counts in tens.
pub proof fn law_digits_count_in_tens(digits: Seq<char>, digit: char)
    requires
        '0' <= digit <= '9',
    ensures
        digits_value(Seq::<char>::empty()) == 0,
        digits_value(digits.push(digit)) == 10 * digits_value(digits) + (digit as int - '0' as int),
{
    assert(digits.push(digit).drop_last() =~= digits);
}

/// Every character of a text is a decimal digit.
pub open spec fn all_digits(s: Seq<char>) -> bool {
    forall|i: int| 0 <= i < s.len() ==> '0' <= #[trigger] s[i] <= '9'
}

/// A number is one digit or more, perhaps behind one plus sign, and no larger than the limit;
/// every other text is none.
pub proof fn law_numbers_are_digits(s: Seq<char>, limit: nat)
    ensures
        s.len() > 0 && all_digits(s) && digits_value(s) <= limit ==> unsigned_value(s, limit)
            == Some(digits_value(s)),
        s.len() > 0 && all_digits(s) && digits_value(s) <= limit ==> unsigned_value(
            seq!['+'] + s,
            limit,
        ) == Some(digits_value(s)),
        s.len() > 0 && all_digits(s) && digits_value(s) > limit ==> unsigned_value(s, limit) is None
            && unsigned_value(seq!['+'] + s, limit) is None,
        s.len() == 0 || s == seq!['+'] ==> unsigned_value(s, limit) is None,
        forall|i: int|
            0 < i < s.len() && !('0' <= #[trigger] s[i] <= '9') ==> unsigned_value(s, limit) is None,
        s.len() > 0 && s[0] != '+' && !('0' <= s[0] <= '9') ==> unsigned_value(s, limit) is None,
{
    let digit = |c: char| is_digit(c);
    let plus = seq!['+'] + s;
    assert(plus.skip(1) =~= s);
    assert(plus[0] == '+');
    if s.len() > 0 && all_digits(s) {
        assert(s[0] != '+');
        assert forall|i: int| 0 <= i < s.len() implies digit(#[trigger] s[i]) by {}
        assert(s.all(digit));
    }
    assert forall|i: int| 0 < i < s.len() && !('0' <= #[trigger] s[i] <= '9') implies unsigned_value(
        s,
        limit,
    ) is None by {
        if s[0] == '+' {
            assert(s.skip(1)[i - 1] == s[i]);
            assert(!digit(s.skip(1)[i - 1]));
        } else {
            assert(!digit(s[i]));
        }
    }
    if s.len() > 0 && s[0] != '+' && !('0' <= s[0] <= '9') {
        assert(!digit(s[0]));
    }
    if s == seq!['+'] {
        assert(s.skip(1) =~= Seq::<char>::empty());
    }
}

/// The decimal form of a number is made of digits, without a zero in front of others.
pub proof fn law_decimal_has_no_leading_zero(n: nat)
    ensures
        decimal(n).len() > 0,
        all_digits(decimal(n)),
        decimal(n)[0] == '0' ==> n == 0,
    decreases n,
{
    if n >= 10 {
        law_decimal_has_no_leading_zero(n / 10);
        let front = decimal(n / 10);
        assert(decimal(n)[0] == front[0]);
        assert forall|i: int| 0 <= i < decimal(n).len() implies '0' <= #[trigger] decimal(n)[i]
            <= '9' by {
            if i < front.len() {
                assert(decimal(n)[i] == front[i]);
            }
        }
    }
}

/// Lower case changes the letters `A` to `Z` of an ASCII text and nothing else; upper case changes
/// `a` to `z`.
pub proof fn law_case_changes_letters(s: Seq<char>, i: int)
    requires
        is_ascii_chars(s),
        0 <= i < s.len(),
    ensures
        lower_text(s).len() == s.len(),
        upper_text(s).len() == s.len(),
        'A' <= s[i] <= 'Z' ==> lower_text(s)[i] as int == s[i] as int + 32,
        !('A' <= s[i] <= 'Z') ==> lower_text(s)[i] == s[i],
        'a' <= s[i] <= 'z' ==> upper_text(s)[i] as int == s[i] as int - 32,
        !('a' <= s[i] <= 'z') ==> upper_text(s)[i] == s[i],
{
}

/// Plain texts are quoted as they are, and a list of texts stands in brackets with commas between
/// the quoted items.
pub proof fn law_lists_are_bracketed(items: Seq<Seq<char>>, item: Seq<char>)
    ensures
        (forall|i: int|
            0 <= i < item.len() ==> ' ' <= #[trigger] item[i] <= '~' && item[i] != '"' && item[i]
                != '\\') ==> quoted_text(item) == seq!['"'] + item + seq!['"'],
        debug_list(Seq::<Seq<char>>::empty()) == seq!['[', ']'],
        debug_list(seq![item]) == seq!['['] + quoted_text(item) + seq![']'],
        items.len() > 0 ==> debug_list(items.push(item)) == debug_list(items).drop_last() + seq![
            ',',
            ' ',
        ] + quoted_text(item) + seq![']'],
{
    if forall|i: int|
        0 <= i < item.len() ==> ' ' <= #[trigger] item[i] <= '~' && item[i] != '"' && item[i]
            != '\\' {
        assert(item.all(|c: char| shown_plainly(c)));
    }
    let f = |x: Seq<char>| quoted_text(x);
    let shown = items.map_values(f);
    assert(Seq::<Seq<char>>::empty().map_values(f) =~= Seq::<Seq<char>>::empty());
    assert(debug_list(Seq::<Seq<char>>::empty()) =~= seq!['[', ']']);
    assert(seq![item].map_values(f) =~= seq![quoted_text(item)]);
    assert(items.push(item).map_values(f) =~= shown.push(quoted_text(item)));
    law_join_grows(shown, quoted_text(item), seq![',', ' ']);
    if items.len() > 0 {
        assert(debug_list(items).drop_last() =~= seq!['['] + joined(shown, seq![',', ' ']));
        assert(debug_list(items.push(item)) =~= debug_list(items).drop_last() + seq![',', ' ']
            + quoted_text(item) + seq![']']);
    }
}

} // verus!
