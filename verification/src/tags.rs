//! How tag lists read: one segment after another, each cut at its first equals sign. The order of
//! tags with different keys and the white space around them do not matter.

use crate::models::DmarcRecordView;
use crate::parser::{
    dkim_key_type, dkim_public_key, dmarc_record, first_value, law_first_tag_wins,
    lemma_value_is_listed, tag_of, tag_value, tags,
};
use crate::text::{
    joined, law_split_undoes_join, lemma_first_index_is, pieces, trimmed, trimmed_end,
    trimmed_start, white_space,
};
use vstd::prelude::*;

verus! {

broadcast use vstd::string::group_string_axioms;

/// A text without a semicolon.
pub open spec fn one_segment(s: Seq<char>) -> bool {
    forall|i: int| 0 <= i < s.len() ==> #[trigger] s[i] != ';'
}

/// A text without an equals sign.
pub open spec fn no_equals(s: Seq<char>) -> bool {
    forall|i: int| 0 <= i < s.len() ==> #[trigger] s[i] != '='
}

// ─── Segments ──────────────────────────────────────────────────────

proof fn lemma_filter_map_first<A, B>(s: Seq<A>, f: spec_fn(A) -> Option<B>)
    requires
        s.len() > 0,
    ensures
        s.filter_map(f) == match f(s[0]) {
            Some(b) => seq![b] + s.drop_first().filter_map(f),
            None => s.drop_first().filter_map(f),
        },
    decreases s.len(),
{
    if s.len() == 1 {
        assert(s.drop_last() =~= Seq::empty());
        assert(s.drop_first() =~= Seq::empty());
        assert(Seq::<A>::empty().filter_map(f) =~= Seq::empty());
    } else {
        let rest = s.drop_last();
        lemma_filter_map_first(rest, f);
        assert(s.drop_first().drop_last() =~= rest.drop_first());
        assert(s.drop_first().last() == s.last());
        assert(rest[0] == s[0]);
        assert(s.filter_map(f) =~= match f(s[0]) {
            Some(b) => seq![b] + s.drop_first().filter_map(f),
            None => s.drop_first().filter_map(f),
        });
    }
}

/// The tags of a record are read segment by segment: where a semicolon cuts it, a key has the
/// value of the tag in front, or else the value that the text behind gives to it.
pub proof fn law_tags_read_in_order(front: Seq<char>, back: Seq<char>, key: Seq<char>)
    requires
        one_segment(front),
    ensures
        tag_value(front + seq![';'] + back, key) == match tag_of(front) {
            Some(tag) => if tag.0 == key {
                Some(tag.1)
            } else {
                tag_value(back, key)
            },
            None => tag_value(back, key),
        },
{
    let raw = front + seq![';'] + back;
    let f = |segment: Seq<char>| tag_of(segment);
    lemma_first_index_is(raw, ';', front.len() as int);
    assert(raw.take(front.len() as int) =~= front);
    assert(raw.skip(front.len() as int + 1) =~= back);
    let all = pieces(raw, ';');
    assert(all == seq![front] + pieces(back, ';'));
    lemma_filter_map_first(all, f);
    assert(all.drop_first() =~= pieces(back, ';'));
    if let Some(tag) = tag_of(front) {
        assert(tags(raw) == seq![tag] + tags(back));
        assert(tags(raw).drop_first() =~= tags(back));
        assert(tags(raw)[0] == tag);
    }
}

/// A record of one segment gives a key the value of its tag.
pub proof fn lemma_last_segment(s: Seq<char>, key: Seq<char>)
    requires
        one_segment(s),
    ensures
        tag_value(s, key) == match tag_of(s) {
            Some(tag) => if tag.0 == key {
                Some(tag.1)
            } else {
                None
            },
            None => None,
        },
{
    let f = |segment: Seq<char>| tag_of(segment);
    lemma_first_index_is(s, ';', s.len() as int);
    let all = pieces(s, ';');
    assert(all == seq![s]);
    lemma_filter_map_first(all, f);
    assert(all.drop_first() =~= Seq::empty());
    assert(Seq::<Seq<char>>::empty().filter_map(f) =~= Seq::empty());
    if let Some(tag) = tag_of(s) {
        assert(tags(s) =~= seq![tag]);
        assert(tags(s).drop_first() =~= Seq::empty());
        assert(first_value(Seq::empty(), key) is None);
    }
}

// ─── One tag ───────────────────────────────────────────────────────

/// White space is removed behind the last character that is none.
pub proof fn lemma_trimmed_end_cut(a: Seq<char>, b: Seq<char>)
    requires
        a.len() > 0,
        !white_space(a.last()),
    ensures
        trimmed_end(a + b) == a + trimmed_end(b),
    decreases b.len(),
{
    if b.len() == 0 {
        assert(a + b =~= a);
        assert(a + trimmed_end(b) =~= a);
    } else if white_space(b.last()) {
        lemma_trimmed_end_cut(a, b.drop_last());
        assert((a + b).drop_last() =~= a + b.drop_last());
    }
}

proof fn lemma_trimmed_end_again(s: Seq<char>)
    ensures
        trimmed_end(trimmed_end(s)) == trimmed_end(s),
    decreases s.len(),
{
    if s.len() > 0 && white_space(s.last()) {
        lemma_trimmed_end_again(s.drop_last());
    }
}

proof fn lemma_trimmed_start_cut(a: Seq<char>, b: Seq<char>)
    requires
        b.len() > 0,
        !white_space(b[0]),
    ensures
        trimmed_start(a + b) == trimmed_start(a) + b,
    decreases a.len(),
{
    if a.len() == 0 {
        assert(a + b =~= b);
        assert(trimmed_start(a) + b =~= b);
    } else if white_space(a[0]) {
        lemma_trimmed_start_cut(a.drop_first(), b);
        assert((a + b).drop_first() =~= a.drop_first() + b);
    }
}

proof fn lemma_trimmed_start_again(s: Seq<char>)
    ensures
        trimmed_start(trimmed_start(s)) == trimmed_start(s),
    decreases s.len(),
{
    if s.len() > 0 && white_space(s[0]) {
        lemma_trimmed_start_again(s.drop_first());
    }
}

proof fn lemma_trimmed_start_keeps(s: Seq<char>)
    requires
        no_equals(s),
    ensures
        no_equals(trimmed_start(s)),
    decreases s.len(),
{
    if s.len() > 0 && white_space(s[0]) {
        assert forall|i: int| 0 <= i < s.drop_first().len() implies #[trigger] s.drop_first()[i]
            != '=' by {
            assert(s.drop_first()[i] == s[i + 1]);
        }
        lemma_trimmed_start_keeps(s.drop_first());
    }
}

/// Which end is trimmed first does not matter.
proof fn lemma_trims_commute(s: Seq<char>)
    ensures
        trimmed_start(trimmed_end(s)) == trimmed_end(trimmed_start(s)),
    decreases s.len(),
{
    if s.len() == 0 {
    } else if white_space(s[0]) {
        let rest = s.drop_first();
        lemma_trims_commute(rest);
        lemma_trimmed_end_tail(s);
    } else {
        let first = s.take(1);
        lemma_trimmed_end_cut(first, s.skip(1));
        assert(first + s.skip(1) =~= s);
        assert(trimmed_end(s)[0] == s[0]);
    }
}

proof fn lemma_trimmed_end_tail(s: Seq<char>)
    requires
        s.len() > 0,
        white_space(s[0]),
    ensures
        trimmed_start(trimmed_end(s)) == trimmed_start(trimmed_end(s.drop_first())),
    decreases s.len(),
{
    let rest = s.drop_first();
    if white_space(s.last()) {
        if s.len() > 1 {
            lemma_trimmed_end_tail(s.drop_last());
            assert(s.drop_last().drop_first() =~= rest.drop_last());
        } else {
            assert(s.drop_last() =~= Seq::empty());
            assert(rest =~= Seq::empty());
        }
    } else {
        assert(trimmed_end(s) == s);
        assert(trimmed_end(rest) == rest);
    }
}

/// A segment is cut at its first equals sign into a key and a value, and the white space around
/// either is dropped.
pub proof fn law_segment_is_cut_at_equals(front: Seq<char>, back: Seq<char>)
    requires
        no_equals(front),
    ensures
        tag_of(front + seq!['='] + back) == Some((trimmed(front), trimmed(back))),
{
    let segment = front + seq!['='] + back;
    let tail = seq!['='] + back;
    assert(segment =~= front + tail);
    lemma_trimmed_start_cut(front, tail);
    let key = trimmed_start(front);
    let head = key + seq!['='];
    assert(key + tail =~= head + back);
    lemma_trimmed_end_cut(head, back);
    let value = trimmed_end(back);
    let body = trimmed(segment);
    assert(body == head + value);
    lemma_trimmed_start_keeps(front);
    assert forall|i: int| 0 <= i < key.len() implies #[trigger] body[i] != '=' by {
        assert(body[i] == key[i]);
    }
    lemma_first_index_is(body, '=', key.len() as int);
    assert(body.take(key.len() as int) =~= key);
    assert(body.skip(key.len() as int + 1) =~= value);
    lemma_trimmed_start_again(front);
    lemma_trims_commute(back);
    lemma_trimmed_end_again(trimmed_start(back));
}

/// A segment without an equals sign is no tag.
pub proof fn law_segment_without_equals_is_no_tag(segment: Seq<char>)
    requires
        no_equals(segment),
    ensures
        tag_of(segment) is None,
{
    lemma_trimmed_start_keeps(segment);
    lemma_trimmed_end_keeps(trimmed_start(segment));
    lemma_first_index_is(trimmed(segment), '=', trimmed(segment).len() as int);
}

proof fn lemma_trimmed_end_keeps(s: Seq<char>)
    requires
        no_equals(s),
    ensures
        no_equals(trimmed_end(s)),
    decreases s.len(),
{
    if s.len() > 0 && white_space(s.last()) {
        assert forall|i: int| 0 <= i < s.drop_last().len() implies #[trigger] s.drop_last()[i]
            != '=' by {
            assert(s.drop_last()[i] == s[i]);
        }
        lemma_trimmed_end_keeps(s.drop_last());
    }
}

/// A tag, with or without a space in front of it, is its key and its value.
pub proof fn lemma_tag(segment: Seq<char>, lead: Seq<char>, key: Seq<char>, value: Seq<char>)
    requires
        segment == lead + key + seq!['='] + value,
        lead == Seq::<char>::empty() || lead == seq![' '],
        key.len() > 0,
        forall|i: int| 0 <= i < key.len() ==> #[trigger] key[i] != '=' && !white_space(key[i]),
        value.len() > 0,
        !white_space(value[0]),
    ensures
        tag_of(segment) == Some((key, trimmed_end(value))),
{
    let front = lead + key;
    assert forall|i: int| 0 <= i < front.len() implies #[trigger] front[i] != '=' by {
        if i >= lead.len() {
            assert(front[i] == key[i - lead.len()]);
        }
    }
    law_segment_is_cut_at_equals(front, value);
    lemma_trimmed_start_cut(lead, key);
    assert(trimmed_start(Seq::<char>::empty()) == Seq::<char>::empty());
    if lead.len() == 1 {
        assert(lead[0] == ' ');
        assert(lead.drop_first() =~= Seq::empty());
    }
    assert(trimmed_start(lead) + key =~= key);
    assert(!white_space(key[key.len() - 1]));
}

// ─── What does not matter ──────────────────────────────────────────

/// No key stands twice in a list of tags.
pub open spec fn distinct_keys(list: Seq<(Seq<char>, Seq<char>)>) -> bool {
    forall|i: int, j: int|
        0 <= i < j < list.len() ==> (#[trigger] list[i]).0 != (#[trigger] list[j]).0
}

/// Two lists hold the same tags, in whatever order.
pub open spec fn same_tags(
    a: Seq<(Seq<char>, Seq<char>)>,
    b: Seq<(Seq<char>, Seq<char>)>,
) -> bool {
    forall|tag: (Seq<char>, Seq<char>)| #[trigger] a.contains(tag) <==> b.contains(tag)
}

proof fn lemma_listed_value(list: Seq<(Seq<char>, Seq<char>)>, tag: (Seq<char>, Seq<char>))
    requires
        distinct_keys(list),
        list.contains(tag),
    ensures
        first_value(list, tag.0) == Some(tag.1),
{
    let at = choose|at: int| 0 <= at < list.len() && list[at] == tag;
    assert forall|i: int| 0 <= i < at implies (#[trigger] list[i]).0 != tag.0 by {
        assert(list[at].0 == tag.0);
    }
    law_first_tag_wins(list, tag.0, at);
}

/// Records that hold the same tags, no key twice, give every key the same value: the order of the
/// tags does not matter.
pub proof fn law_order_does_not_matter(a: Seq<char>, b: Seq<char>, key: Seq<char>)
    requires
        distinct_keys(tags(a)),
        same_tags(tags(a), tags(b)),
    ensures
        tag_value(a, key) == tag_value(b, key),
{
    if tag_value(b, key) is Some {
        lemma_value_is_listed(tags(b), key);
        let i = choose|i: int|
            0 <= i < tags(b).len() && (#[trigger] tags(b)[i]).1 == tag_value(b, key)->0 && tags(
                b,
            )[i].0 == key;
        assert(tags(b).contains(tags(b)[i]));
        assert(tags(a).contains(tags(b)[i]));
        lemma_listed_value(tags(a), tags(b)[i]);
    } else if tag_value(a, key) is Some {
        lemma_value_is_listed(tags(a), key);
        let i = choose|i: int|
            0 <= i < tags(a).len() && (#[trigger] tags(a)[i]).1 == tag_value(a, key)->0 && tags(
                a,
            )[i].0 == key;
        assert(tags(a).contains(tags(a)[i]));
        assert(tags(b).contains(tags(a)[i]));
        let j = choose|j: int| 0 <= j < tags(b).len() && tags(b)[j] == tags(a)[i];
        lemma_value_is_found(tags(b), key, j);
    }
}

proof fn lemma_value_is_found(list: Seq<(Seq<char>, Seq<char>)>, key: Seq<char>, at: int)
    requires
        0 <= at < list.len(),
        list[at].0 == key,
    ensures
        first_value(list, key) is Some,
    decreases list.len(),
{
    if list[0].0 != key {
        lemma_value_is_found(list.drop_first(), key, at - 1);
    }
}

/// A text made of segments, each a key and a value with an equals sign between them, with
/// semicolons between the segments.
pub open spec fn written(fields: Seq<(Seq<char>, Seq<char>)>) -> Seq<char> {
    joined(
        fields.map_values(|field: (Seq<char>, Seq<char>)| field.0 + seq!['='] + field.1),
        seq![';'],
    )
}

/// Keys and values without the white space around them.
pub open spec fn bare(fields: Seq<(Seq<char>, Seq<char>)>) -> Seq<(Seq<char>, Seq<char>)> {
    fields.map_values(|field: (Seq<char>, Seq<char>)| (trimmed(field.0), trimmed(field.1)))
}

/// Keys and values that can be written as segments.
pub open spec fn writable(fields: Seq<(Seq<char>, Seq<char>)>) -> bool {
    &&& fields.len() > 0
    &&& forall|i: int|
        0 <= i < fields.len() ==> no_equals((#[trigger] fields[i]).0) && one_segment(fields[i].0)
            && one_segment(fields[i].1)
}

/// What is written as segments is read back, without the white space around keys and values.
pub proof fn law_written_tags_read_back(fields: Seq<(Seq<char>, Seq<char>)>)
    requires
        writable(fields),
    ensures
        tags(written(fields)) == bare(fields),
{
    let write = |field: (Seq<char>, Seq<char>)| field.0 + seq!['='] + field.1;
    let segments = fields.map_values(write);
    assert forall|i: int, k: int|
        0 <= i < segments.len() && 0 <= k < segments[i].len() implies (#[trigger] segments[i][k])
        != ';' by {
        let field = fields[i];
        if k < field.0.len() {
            assert(segments[i][k] == field.0[k]);
        } else if k > field.0.len() {
            assert(segments[i][k] == field.1[k - field.0.len() - 1]);
        }
    }
    law_split_undoes_join(segments, ';');
    lemma_tags_of_segments(fields);
}

proof fn lemma_tags_of_segments(fields: Seq<(Seq<char>, Seq<char>)>)
    requires
        forall|i: int| 0 <= i < fields.len() ==> no_equals((#[trigger] fields[i]).0),
    ensures
        fields.map_values(
            |field: (Seq<char>, Seq<char>)| field.0 + seq!['='] + field.1,
        ).filter_map(|segment: Seq<char>| tag_of(segment)) == bare(fields),
    decreases fields.len(),
{
    let write = |field: (Seq<char>, Seq<char>)| field.0 + seq!['='] + field.1;
    let f = |segment: Seq<char>| tag_of(segment);
    let segments = fields.map_values(write);
    if fields.len() == 0 {
        assert(segments.filter_map(f) =~= bare(fields));
    } else {
        let rest = fields.drop_last();
        assert forall|i: int| 0 <= i < rest.len() implies no_equals((#[trigger] rest[i]).0) by {
            assert(rest[i] == fields[i]);
        }
        lemma_tags_of_segments(rest);
        assert(segments.drop_last() =~= rest.map_values(write));
        let last = fields.last();
        assert(no_equals(fields[fields.len() - 1].0));
        law_segment_is_cut_at_equals(last.0, last.1);
        assert(segments.last() == write(last));
        assert(bare(fields) =~= bare(rest) + seq![(trimmed(last.0), trimmed(last.1))]);
    }
}

/// Two DMARC texts whose segments have the same keys and values, no key twice, in any order and
/// with any white space around keys and values, are the same record but for the text itself.
pub proof fn law_dmarc_order_and_space_do_not_matter(
    a: Seq<(Seq<char>, Seq<char>)>,
    b: Seq<(Seq<char>, Seq<char>)>,
)
    requires
        writable(a),
        writable(b),
        distinct_keys(bare(a)),
        same_tags(bare(a), bare(b)),
    ensures
        dmarc_record(written(b)) == (DmarcRecordView {
            raw: written(b),
            ..dmarc_record(written(a))
        }),
{
    law_written_tags_read_back(a);
    law_written_tags_read_back(b);
    assert forall|key: Seq<char>| #[trigger]
        tag_value(written(b), key) == tag_value(written(a), key) by {
        law_order_does_not_matter(written(a), written(b), key);
    }
}

/// The same holds of the key and the key type of a DKIM text.
pub proof fn law_dkim_order_and_space_do_not_matter(
    a: Seq<(Seq<char>, Seq<char>)>,
    b: Seq<(Seq<char>, Seq<char>)>,
)
    requires
        writable(a),
        writable(b),
        distinct_keys(bare(a)),
        same_tags(bare(a), bare(b)),
    ensures
        dkim_public_key(written(b)) == dkim_public_key(written(a)),
        dkim_key_type(written(b)) == dkim_key_type(written(a)),
{
    law_written_tags_read_back(a);
    law_written_tags_read_back(b);
    law_order_does_not_matter(written(a), written(b), "p"@);
    law_order_does_not_matter(written(a), written(b), "k"@);
}

} // verus!
