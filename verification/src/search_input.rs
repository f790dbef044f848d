//! Reading the search form: the comma-separated tag field.
use vstd::prelude::*;

use crate::game_list::strings_view;
use crate::text::{chars_of, lowercase_of, string_of, to_lowercase, trim, trim_spec};

verus! {

/// The pieces of `s` between occurrences of `c`, as `str::split(c)` yields
/// them (an empty string gives one empty piece).
pub open spec fn split_char(s: Seq<char>, c: char) -> Seq<Seq<char>>
    decreases s.len(),
{
    if s.len() == 0 {
        seq![Seq::<char>::empty()]
    } else {
        let prev = split_char(s.drop_last(), c);
        if s.last() == c {
            prev.push(Seq::<char>::empty())
        } else {
            prev.update(prev.len() - 1, prev.last().push(s.last()))
        }
    }
}

pub proof fn lemma_split_char_nonempty(s: Seq<char>, c: char)
    ensures
        split_char(s, c).len() >= 1,
    decreases s.len(),
{
    if s.len() > 0 {
        lemma_split_char_nonempty(s.drop_last(), c);
    }
}

/// The pieces of `s` between occurrences of `c`.
pub fn split_on(s: &str, c: char) -> (res: Vec<String>)
    ensures
        strings_view(res@) == split_char(s@, c),
{
    let cs = chars_of(s);
    let mut parts: Vec<String> = Vec::new();
    let mut cur: Vec<char> = Vec::new();
    let mut i: usize = 0;
    assert(cs@.take(0) =~= Seq::<char>::empty());
    assert(strings_view(parts@).push(cur@) =~= seq![Seq::<char>::empty()]);
    while i < cs.len()
        invariant
            i <= cs.len(),
            cs@ == s@,
            split_char(cs@.take(i as int), c) == strings_view(parts@).push(cur@),
        decreases cs.len() - i,
    {
        let ghost prev_parts = strings_view(parts@);
        let ghost prev_cur = cur@;
        proof {
            assert(cs@.take(i + 1).drop_last() =~= cs@.take(i as int));
            assert(cs@.take(i + 1).last() == cs@[i as int]);
        }
        if cs[i] == c {
            let piece = string_of(&cur);
            parts.push(piece);
            cur = Vec::new();
            assert(strings_view(parts@) =~= prev_parts.push(prev_cur));
            assert(strings_view(parts@).push(cur@) =~= prev_parts.push(prev_cur).push(
                Seq::<char>::empty(),
            ));
        } else {
            cur.push(cs[i]);
            assert(strings_view(parts@).push(cur@) =~= prev_parts.push(prev_cur).update(
                prev_parts.push(prev_cur).len() - 1,
                prev_parts.push(prev_cur).last().push(cs@[i as int]),
            ));
        }
        i += 1;
    }
    assert(cs@.take(cs.len() as int) =~= cs@);
    let ghost before = strings_view(parts@);
    let last = string_of(&cur);
    parts.push(last);
    assert(strings_view(parts@) =~= before.push(cur@));
    parts
}

/// The tags that the tag field `q` names: none where the field is blank,
/// else its comma-separated pieces, each trimmed and lowercased, without the
/// empty ones.
pub open spec fn tag_query_spec(q: Seq<char>) -> Option<Seq<Seq<char>>> {
    if trim_spec(q).len() == 0 {
        None
    } else {
        Some(
            split_char(q, ',').map_values(|p: Seq<char>| lowercase_of(trim_spec(p))).filter(
                |t: Seq<char>| t.len() > 0,
            ),
        )
    }
}

/// Every tag read from the tag field is non-empty and is the lowercase form
/// of a trimmed piece of the field.
pub proof fn law_tags_are_nonempty_lowercase_pieces(q: Seq<char>)
    requires
        tag_query_spec(q) is Some,
    ensures
        forall|i: int|
            0 <= i < tag_query_spec(q)->0.len() ==> {
                let t = #[trigger] tag_query_spec(q)->0[i];
                &&& t.len() > 0
                &&& exists|j: int|
                    0 <= j < split_char(q, ',').len() && t == lowercase_of(
                        trim_spec(#[trigger] split_char(q, ',')[j]),
                    )
            },
{
    let pieces = split_char(q, ',');
    let g = |p: Seq<char>| lowercase_of(trim_spec(p));
    let mapped = pieces.map_values(g);
    let f = |t: Seq<char>| t.len() > 0;
    assert(tag_query_spec(q)->0 == mapped.filter(f));
    crate::game_list::lemma_filter_subset(mapped, f);
    assert forall|i: int| 0 <= i < mapped.filter(f).len() implies f(#[trigger] mapped.filter(f)[i]) by {
        mapped.lemma_filter_pred(f, i);
    }
    assert forall|i: int| 0 <= i < mapped.filter(f).len() implies exists|j: int|
        0 <= j < pieces.len() && #[trigger] mapped.filter(f)[i] == lowercase_of(
            trim_spec(#[trigger] pieces[j]),
        ) by {
        let t = mapped.filter(f)[i];
        assert(mapped.contains(t));
        let k = choose|k: int| 0 <= k < mapped.len() && mapped[k] == t;
        assert(mapped[k] == g(pieces[k]));
    }
}

/// A text without `c` is one piece.
pub proof fn lemma_split_without_separator(s: Seq<char>, c: char)
    requires
        forall|i: int| 0 <= i < s.len() ==> s[i] != c,
    ensures
        split_char(s, c) == seq![s],
    decreases s.len(),
{
    if s.len() > 0 {
        let t = s.drop_last();
        assert forall|i: int| 0 <= i < t.len() implies t[i] != c by {
            assert(t[i] == s[i]);
        }
        lemma_split_without_separator(t, c);
        assert(s.last() == s[s.len() - 1]);
        assert(s.last() != c);
        assert(t.push(s.last()) =~= s);
        let prev = split_char(t, c);
        assert(prev == seq![t]);
        assert(prev.last() == t);
        assert(split_char(s, c) == prev.update(prev.len() - 1, prev.last().push(s.last())));
        assert(prev.update(prev.len() - 1, prev.last().push(s.last())) =~= seq![s]);
    } else {
        assert(s =~= Seq::<char>::empty());
        assert(split_char(s, c) =~= seq![s]);
    }
}

/// The tag field names no tags exactly when it is blank; a field that is
/// not blank and holds no comma names the one tag it holds, trimmed and
/// lowercased (where that is not empty).
pub proof fn law_tag_field_reading(q: Seq<char>)
    ensures
        tag_query_spec(q) is None <==> trim_spec(q).len() == 0,
        trim_spec(q).len() != 0 && (forall|i: int| 0 <= i < q.len() ==> q[i] != ',')
            && lowercase_of(trim_spec(q)).len() != 0 ==> tag_query_spec(q) == Some(
            seq![lowercase_of(trim_spec(q))],
        ),
{
    if trim_spec(q).len() != 0 && (forall|i: int| 0 <= i < q.len() ==> q[i] != ',')
        && lowercase_of(trim_spec(q)).len() != 0 {
        lemma_split_without_separator(q, ',');
        let g = |p: Seq<char>| lowercase_of(trim_spec(p));
        let f = |t: Seq<char>| t.len() > 0;
        let m = split_char(q, ',').map_values(g);
        assert(m =~= seq![lowercase_of(trim_spec(q))]);
        reveal_with_fuel(Seq::<_>::filter, 2);
        assert(m.drop_last() =~= Seq::<Seq<char>>::empty());
        assert(m.filter(f) =~= seq![lowercase_of(trim_spec(q))]);
    }
}

/// The tags that the tag field `q` names.
pub fn parse_tag_query(q: &str) -> (res: Option<Vec<String>>)
    ensures
        match res {
            None => tag_query_spec(q@) is None,
            Some(v) => tag_query_spec(q@) == Some(strings_view(v@)),
        },
{
    let blank = trim(q);
    if blank.as_str().is_empty() {
        return None;
    }
    let parts = split_on(q, ',');
    let ghost mapped = split_char(q@, ',').map_values(|p: Seq<char>| lowercase_of(trim_spec(p)));
    let ghost f = |t: Seq<char>| t.len() > 0;
    let mut out: Vec<String> = Vec::new();
    let mut j: usize = 0;
    while j < parts.len()
        invariant
            j <= parts.len(),
            strings_view(parts@) == split_char(q@, ','),
            mapped == split_char(q@, ',').map_values(|p: Seq<char>| lowercase_of(trim_spec(p))),
            f == (|t: Seq<char>| t.len() > 0),
            strings_view(out@) == mapped.take(j as int).filter(f),
        decreases parts.len() - j,
    {
        let t = trim(parts[j].as_str());
        let low = to_lowercase(t.as_str());
        proof {
            reveal_with_fuel(Seq::<_>::filter, 1);
            assert(strings_view(parts@)[j as int] == parts@[j as int]@);
            assert(mapped[j as int] == low@);
            assert(mapped.take(j + 1).drop_last() =~= mapped.take(j as int));
        }
        if !low.as_str().is_empty() {
            let ghost before = strings_view(out@);
            out.push(low);
            assert(strings_view(out@) =~= before.push(mapped[j as int]));
        }
        j += 1;
    }
    assert(mapped.take(parts.len() as int) =~= mapped);
    Some(out)
}

} // verus!
