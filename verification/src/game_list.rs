//! The catalogue of games that can be installed (`data/game_list.json`) and
//! its search.
use vstd::prelude::*;

use crate::text::{
    chars_of, contains_chars, contains_seq, lowercase_of, str_eq, to_lowercase, trim, trim_spec,
};

verus! {

/// One game of the catalogue.
pub struct GameListEntry {
    pub id: String,
    pub name: String,
    pub repo: String,
    pub description: Option<String>,
    pub tags: Vec<String>,
}

/// A catalogue entry as plain text values.
pub struct GameListEntryView {
    pub id: Seq<char>,
    pub name: Seq<char>,
    pub repo: Seq<char>,
    pub description: Option<Seq<char>>,
    pub tags: Seq<Seq<char>>,
}

pub open spec fn opt_view(o: Option<String>) -> Option<Seq<char>> {
    match o {
        Some(s) => Some(s@),
        None => None,
    }
}

pub open spec fn strings_view(v: Seq<String>) -> Seq<Seq<char>> {
    v.map_values(|s: String| s@)
}

impl View for GameListEntry {
    type V = GameListEntryView;

    open spec fn view(&self) -> GameListEntryView {
        GameListEntryView {
            id: self.id@,
            name: self.name@,
            repo: self.repo@,
            description: opt_view(self.description),
            tags: strings_view(self.tags@),
        }
    }
}

/// A copy of `v`, string by string.
pub fn clone_strings(v: &Vec<String>) -> (res: Vec<String>)
    ensures
        res@ == v@,
{
    let mut r: Vec<String> = Vec::new();
    let mut i: usize = 0;
    while i < v.len()
        invariant
            i <= v.len(),
            r@ == v@.subrange(0, i as int),
        decreases v.len() - i,
    {
        r.push(v[i].clone());
        assert(v@.subrange(0, i + 1) == v@.subrange(0, i as int).push(v@[i as int]));
        i += 1;
    }
    assert(v@.subrange(0, v@.len() as int) == v@);
    r
}

impl Clone for GameListEntry {
    fn clone(&self) -> (res: Self)
        ensures
            res@ == self@,
    {
        let description = match &self.description {
            Some(d) => Some(d.clone()),
            None => None,
        };
        let tags = clone_strings(&self.tags);
        GameListEntry {
            id: self.id.clone(),
            name: self.name.clone(),
            repo: self.repo.clone(),
            description,
            tags,
        }
    }
}

/// The catalogue.
pub struct GameList {
    pub games: Vec<GameListEntry>,
}

pub open spec fn entries_view(v: Seq<GameListEntry>) -> Seq<GameListEntryView> {
    v.map_values(|e: GameListEntry| e@)
}

impl View for GameList {
    type V = Seq<GameListEntryView>;

    open spec fn view(&self) -> Seq<GameListEntryView> {
        entries_view(self.games@)
    }
}

impl Default for GameList {
    fn default() -> (res: Self)
        ensures
            res@.len() == 0,
    {
        GameList { games: Vec::new() }
    }
}

// ---------------------------------------------------------------------------
// Search model
// ---------------------------------------------------------------------------

/// The entry matches the (already trimmed and lowercased) query `q`: `q` is
/// empty, or occurs in the lowercased id or the lowercased name.
pub open spec fn query_matches(e: GameListEntryView, q: Seq<char>) -> bool {
    ||| q.len() == 0
    ||| contains_seq(lowercase_of(e.id), q)
    ||| contains_seq(lowercase_of(e.name), q)
}

/// The entry carries `tag`, both sides lowercased.
pub open spec fn has_tag_spec(e: GameListEntryView, tag: Seq<char>) -> bool {
    exists|j: int| 0 <= j < e.tags.len() && lowercase_of(#[trigger] e.tags[j]) == lowercase_of(tag)
}

/// Every tag of `tags` is among the entry's tags, both sides lowercased.
pub open spec fn has_all_tags(e: GameListEntryView, tags: Seq<Seq<char>>) -> bool {
    forall|i: int| 0 <= i < tags.len() ==> #[trigger] has_tag_spec(e, tags[i])
}

/// The entries that a search for `query` with the optional `tags` keeps.
pub open spec fn search_keeps(
    e: GameListEntryView,
    query: Seq<char>,
    tags: Option<Seq<Seq<char>>>,
) -> bool {
    &&& query_matches(e, lowercase_of(trim_spec(query)))
    &&& match tags {
        Some(ts) => has_all_tags(e, ts),
        None => true,
    }
}

/// The result of a search: the catalogue entries it keeps, in catalogue order.
pub open spec fn search_spec(
    games: Seq<GameListEntryView>,
    query: Seq<char>,
    tags: Option<Seq<Seq<char>>>,
) -> Seq<GameListEntryView> {
    games.filter(|e: GameListEntryView| search_keeps(e, query, tags))
}

pub open spec fn tags_arg_view(tags: Option<&[&str]>) -> Option<Seq<Seq<char>>> {
    match tags {
        Some(ts) => Some(ts@.map_values(|t: &str| t@)),
        None => None,
    }
}

/// Index of the first entry whose id is `id`, or -1 where there is none.
pub open spec fn first_entry_index(s: Seq<GameListEntryView>, id: Seq<char>) -> int
    decreases s.len(),
{
    if s.len() == 0 {
        -1
    } else if s[0].id == id {
        0
    } else {
        let r = first_entry_index(s.drop_first(), id);
        if r < 0 {
            -1
        } else {
            r + 1
        }
    }
}

/// The first catalogue entry with id `id`.
pub open spec fn find_entry_spec(s: Seq<GameListEntryView>, id: Seq<char>) -> Option<
    GameListEntryView,
> {
    let k = first_entry_index(s, id);
    if k < 0 {
        None
    } else {
        Some(s[k])
    }
}

pub proof fn lemma_first_entry_index(s: Seq<GameListEntryView>, id: Seq<char>)
    ensures
        first_entry_index(s, id) >= -1,
        first_entry_index(s, id) == -1 <==> (forall|j: int| 0 <= j < s.len() ==> s[j].id != id),
        first_entry_index(s, id) >= 0 ==> {
            let r = first_entry_index(s, id);
            &&& r < s.len()
            &&& s[r].id == id
            &&& forall|j: int| 0 <= j < r ==> s[j].id != id
        },
    decreases s.len(),
{
    if s.len() > 0 && s[0].id != id {
        let t = s.drop_first();
        lemma_first_entry_index(t, id);
        if first_entry_index(t, id) == -1 {
            assert forall|j: int| 0 <= j < s.len() implies s[j].id != id by {
                if j > 0 {
                    assert(s[j] == t[j - 1]);
                }
            }
        } else {
            let r = first_entry_index(t, id);
            assert(s[r + 1] == t[r]);
            assert forall|j: int| 0 <= j < r + 1 implies s[j].id != id by {
                if j > 0 {
                    assert(s[j] == t[j - 1]);
                }
            }
        }
    }
}

pub proof fn lemma_first_entry_index_is(s: Seq<GameListEntryView>, id: Seq<char>, k: int)
    requires
        -1 <= k < s.len(),
        k >= 0 ==> s[k].id == id,
        forall|j: int| 0 <= j < s.len() && (k < 0 || j < k) ==> s[j].id != id,
    ensures
        first_entry_index(s, id) == k,
{
    lemma_first_entry_index(s, id);
    let r = first_entry_index(s, id);
    if k >= 0 {
        assert(r != -1);
        if r < k {
            assert(s[r].id != id);
        }
        if r > k {
            assert(s[k].id != id);
        }
    } else {
        if r >= 0 {
            assert(s[r].id != id);
        }
    }
}

// ---------------------------------------------------------------------------
// Laws
// ---------------------------------------------------------------------------

/// Filtering keeps only elements of the filtered sequence.
pub proof fn lemma_filter_subset<A>(s: Seq<A>, f: spec_fn(A) -> bool)
    ensures
        forall|i: int| 0 <= i < s.filter(f).len() ==> s.contains(#[trigger] s.filter(f)[i]),
    decreases s.len(),
{
    reveal_with_fuel(Seq::<_>::filter, 1);
    if s.len() > 0 {
        let t = s.drop_last();
        lemma_filter_subset(t, f);
        assert forall|i: int| 0 <= i < s.filter(f).len() implies s.contains(
            #[trigger] s.filter(f)[i],
        ) by {
            if i < t.filter(f).len() {
                let x = t.filter(f)[i];
                assert(s.filter(f)[i] == x);
                let k = choose|k: int| 0 <= k < t.len() && t[k] == x;
                assert(s[k] == x);
            } else {
                assert(s.filter(f)[i] == s.last());
                assert(s[s.len() - 1] == s.last());
            }
        }
    }
}

/// Filtering with a predicate that holds everywhere keeps everything.
pub proof fn lemma_filter_all<A>(s: Seq<A>, f: spec_fn(A) -> bool)
    requires
        forall|i: int| 0 <= i < s.len() ==> f(#[trigger] s[i]),
    ensures
        s.filter(f) == s,
    decreases s.len(),
{
    reveal_with_fuel(Seq::<_>::filter, 1);
    if s.len() > 0 {
        let t = s.drop_last();
        assert forall|i: int| 0 <= i < t.len() implies f(#[trigger] t[i]) by {
            assert(t[i] == s[i]);
        }
        lemma_filter_all(t, f);
        assert(f(s[s.len() - 1]));
        assert(s == t.push(s.last()));
    }
}

/// `t` occurs in `s` at some position, written out.
pub open spec fn occurs_in(s: Seq<char>, t: Seq<char>) -> bool {
    exists|i: int| 0 <= i && i + t.len() <= s.len() && #[trigger] s.subrange(i, i + t.len()) == t
}

proof fn lemma_occurs_in_is_contains(s: Seq<char>, t: Seq<char>)
    ensures
        occurs_in(s, t) == contains_seq(s, t),
{
    if occurs_in(s, t) {
        let i = choose|i: int| 0 <= i && i + t.len() <= s.len() && #[trigger] s.subrange(i, i + t.len()) == t;
        assert(crate::text::occurs_at(s, t, i));
    }
    if contains_seq(s, t) {
        let i = choose|i: int| #[trigger] crate::text::occurs_at(s, t, i);
        assert(s.subrange(i, i + t.len()) == t);
    }
}

/// What a search without tags returns: an entry of the catalogue is among
/// the results exactly when the query, trimmed and lowercased, is empty or
/// occurs in the entry's lowercased id or in its lowercased name.
pub proof fn law_search_matches_id_or_name(
    games: Seq<GameListEntryView>,
    query: Seq<char>,
    e: GameListEntryView,
)
    requires
        games.contains(e),
    ensures
        search_spec(games, query, None).contains(e) <==> {
            let q = lowercase_of(trim_spec(query));
            ||| q.len() == 0
            ||| occurs_in(lowercase_of(e.id), q)
            ||| occurs_in(lowercase_of(e.name), q)
        },
{
    let q = lowercase_of(trim_spec(query));
    let f = |x: GameListEntryView| search_keeps(x, query, None);
    lemma_occurs_in_is_contains(lowercase_of(e.id), q);
    lemma_occurs_in_is_contains(lowercase_of(e.name), q);
    let k = choose|k: int| 0 <= k < games.len() && games[k] == e;
    if f(e) {
        games.lemma_filter_contains(f, k);
    }
    if games.filter(f).contains(e) {
        let j = choose|j: int| 0 <= j < games.filter(f).len() && games.filter(f)[j] == e;
        games.lemma_filter_pred(f, j);
    }
}

/// Filtering twice is filtering once by both predicates.
pub proof fn lemma_filter_filter<A>(s: Seq<A>, a: spec_fn(A) -> bool, b: spec_fn(A) -> bool)
    ensures
        s.filter(a).filter(b) == s.filter(|x: A| a(x) && b(x)),
    decreases s.len(),
{
    reveal_with_fuel(Seq::<_>::filter, 1);
    if s.len() > 0 {
        let t = s.drop_last();
        lemma_filter_filter(t, a, b);
        let ab = |x: A| a(x) && b(x);
        if a(s.last()) {
            assert(s.filter(a) == t.filter(a).push(s.last()));
            assert(s.filter(a).drop_last() =~= t.filter(a));
            assert(s.filter(a).last() == s.last());
        } else {
            assert(s.filter(a) == t.filter(a));
        }
    }
}

/// Requiring one more tag never adds a search result: the results with the
/// tags `ts` followed by `t` are exactly the results with `ts` that carry
/// `t`, and the results with `ts` are exactly the tagless results that carry
/// every tag of `ts`.
pub proof fn law_more_tags_narrow_search(
    games: Seq<GameListEntryView>,
    query: Seq<char>,
    ts: Seq<Seq<char>>,
    t: Seq<char>,
)
    ensures
        search_spec(games, query, Some(ts.push(t))) == search_spec(games, query, Some(ts)).filter(
            |e: GameListEntryView| has_tag_spec(e, t),
        ),
        search_spec(games, query, Some(ts)) == search_spec(games, query, None).filter(
            |e: GameListEntryView| has_all_tags(e, ts),
        ),
        search_spec(games, query, Some(ts.push(t))).len() <= search_spec(games, query, Some(ts)).len(),
        search_spec(games, query, Some(ts)).len() <= search_spec(games, query, None).len(),
{
    let p0 = |e: GameListEntryView| search_keeps(e, query, None);
    let p1 = |e: GameListEntryView| search_keeps(e, query, Some(ts));
    let p2 = |e: GameListEntryView| search_keeps(e, query, Some(ts.push(t)));
    let h = |e: GameListEntryView| has_tag_spec(e, t);
    let all = |e: GameListEntryView| has_all_tags(e, ts);
    assert forall|e: GameListEntryView| #[trigger] p2(e) == (p1(e) && h(e)) by {
        let tt = ts.push(t);
        if has_all_tags(e, tt) {
            assert(tt[ts.len() as int] == t);
            assert(has_tag_spec(e, tt[ts.len() as int]));
            assert forall|i: int| 0 <= i < ts.len() implies #[trigger] has_tag_spec(e, ts[i]) by {
                assert(tt[i] == ts[i]);
                assert(has_tag_spec(e, tt[i]));
            }
        }
        if has_all_tags(e, ts) && has_tag_spec(e, t) {
            assert forall|i: int| 0 <= i < tt.len() implies #[trigger] has_tag_spec(e, tt[i]) by {
                if i < ts.len() {
                    assert(tt[i] == ts[i]);
                    assert(has_tag_spec(e, ts[i]));
                }
            }
        }
    }
    assert(p2 =~= (|x: GameListEntryView| p1(x) && h(x)));
    assert forall|e: GameListEntryView| #[trigger] p1(e) == (p0(e) && all(e)) by {}
    assert(p1 =~= (|x: GameListEntryView| p0(x) && all(x)));
    lemma_filter_filter(games, p1, h);
    lemma_filter_filter(games, p0, all);
    games.filter(p1).lemma_filter_len(h);
    games.filter(p0).lemma_filter_len(all);
}

/// Every entry a search returns satisfies the search, and comes from the
/// catalogue; the search never returns more entries than the catalogue has.
pub proof fn law_search_results_match(
    games: Seq<GameListEntryView>,
    query: Seq<char>,
    tags: Option<Seq<Seq<char>>>,
)
    ensures
        forall|i: int|
            0 <= i < search_spec(games, query, tags).len() ==> {
                let e = #[trigger] search_spec(games, query, tags)[i];
                search_keeps(e, query, tags) && games.contains(e)
            },
        search_spec(games, query, tags).len() <= games.len(),
{
    let f = |e: GameListEntryView| search_keeps(e, query, tags);
    games.lemma_filter_len(f);
    lemma_filter_subset(games, f);
    assert forall|i: int| 0 <= i < games.filter(f).len() implies f(#[trigger] games.filter(f)[i]) by {
        games.lemma_filter_pred(f, i);
    }
}

/// A search whose query is empty once trimmed and lowercased, with no tags,
/// returns the whole catalogue (`GameList::search` states the same for a
/// query that is blank once trimmed).
pub proof fn law_blank_search_returns_all(games: Seq<GameListEntryView>, query: Seq<char>)
    requires
        lowercase_of(trim_spec(query)).len() == 0,
    ensures
        search_spec(games, query, None) == games,
{
    let f = |e: GameListEntryView| search_keeps(e, query, None);
    assert forall|i: int| 0 <= i < games.len() implies f(#[trigger] games[i]) by {}
    lemma_filter_all(games, f);
}

// ---------------------------------------------------------------------------
// Operations
// ---------------------------------------------------------------------------

/// Whether the lowercased tags of an entry hold `tag` lowercased.
fn has_tag(entry_tags: &Vec<String>, lowered: &Vec<String>, tag: &str) -> (res: bool)
    requires
        lowered@.len() == entry_tags@.len(),
        forall|j: int|
            0 <= j < lowered@.len() ==> #[trigger] lowered@[j]@ == lowercase_of(entry_tags@[j]@),
    ensures
        res == exists|j: int|
            0 <= j < entry_tags@.len() && lowercase_of(#[trigger] entry_tags@[j]@)
                == lowercase_of(tag@),
{
    let t = to_lowercase(tag);
    let mut j: usize = 0;
    while j < lowered.len()
        invariant
            j <= lowered.len() == entry_tags@.len(),
            t@ == lowercase_of(tag@),
            forall|k: int|
                0 <= k < lowered@.len() ==> #[trigger] lowered@[k]@ == lowercase_of(
                    entry_tags@[k]@,
                ),
            forall|k: int| 0 <= k < j ==> lowercase_of(#[trigger] entry_tags@[k]@) != t@,
        decreases lowered.len() - j,
    {
        if lowered[j] == t {
            assert(lowered@[j as int]@ == lowercase_of(entry_tags@[j as int]@));
            return true;
        }
        assert(lowered@[j as int]@ == lowercase_of(entry_tags@[j as int]@));
        j += 1;
    }
    false
}

/// Whether `entry` satisfies the tag filter.
fn entry_has_tags(entry: &GameListEntry, tags: &[&str]) -> (res: bool)
    ensures
        res == has_all_tags(entry@, tags@.map_values(|t: &str| t@)),
{
    let mut lowered: Vec<String> = Vec::new();
    let mut j: usize = 0;
    while j < entry.tags.len()
        invariant
            j <= entry.tags.len(),
            lowered@.len() == j,
            forall|k: int|
                0 <= k < j ==> #[trigger] lowered@[k]@ == lowercase_of(entry.tags@[k]@),
        decreases entry.tags.len() - j,
    {
        lowered.push(to_lowercase(entry.tags[j].as_str()));
        j += 1;
    }
    let ghost tv = tags@.map_values(|t: &str| t@);
    let ghost ev = entry@;
    assert(ev.tags == strings_view(entry.tags@));
    let mut i: usize = 0;
    while i < tags.len()
        invariant
            i <= tags@.len(),
            tv == tags@.map_values(|t: &str| t@),
            ev == entry@,
            ev.tags == strings_view(entry.tags@),
            lowered@.len() == entry.tags@.len(),
            forall|k: int|
                0 <= k < lowered@.len() ==> #[trigger] lowered@[k]@ == lowercase_of(
                    entry.tags@[k]@,
                ),
            forall|k: int| 0 <= k < i ==> #[trigger] has_tag_spec(ev, tv[k]),
        decreases tags@.len() - i,
    {
        let found = has_tag(&entry.tags, &lowered, tags[i]);
        if !found {
            assert(tv[i as int] == tags@[i as int]@);
            assert forall|j: int| 0 <= j < ev.tags.len() implies lowercase_of(ev.tags[j])
                != lowercase_of(tv[i as int]) by {
                assert(ev.tags[j] == entry.tags@[j]@);
            }
            assert(!has_tag_spec(ev, tv[i as int]));
            return false;
        }
        proof {
            let jw = choose|j: int|
                0 <= j < entry.tags@.len() && lowercase_of(#[trigger] entry.tags@[j]@)
                    == lowercase_of(tags@[i as int]@);
            assert(ev.tags[jw] == entry.tags@[jw]@);
            assert(tv[i as int] == tags@[i as int]@);
            assert(has_tag_spec(ev, tv[i as int]));
        }
        i += 1;
    }
    assert(tv.len() == tags@.len());
    assert(has_all_tags(ev, tv));
    true
}

impl GameList {
    /// Search games by query (partial match against id or name,
    /// case-insensitive) and optional tags (all provided tags must be present
    /// on an entry).
    pub fn search(&self, query: &str, tags: Option<&[&str]>) -> (res: Vec<GameListEntry>)
        ensures
            entries_view(res@) == search_spec(self@, query@, tags_arg_view(tags)),
            trim_spec(query@).len() == 0 && tags is None ==> entries_view(res@) == self@,
    {
        let trimmed = trim(query);
        let q = to_lowercase(trimmed.as_str());
        proof {
            if trim_spec(query@).len() == 0 {
                law_blank_search_returns_all(self@, query@);
            }
        }
        let qc = chars_of(q.as_str());
        let ghost pred = |e: GameListEntryView| search_keeps(e, query@, tags_arg_view(tags));
        let mut res: Vec<GameListEntry> = Vec::new();
        let mut i: usize = 0;
        while i < self.games.len()
            invariant
                i <= self.games.len(),
                qc@ == lowercase_of(trim_spec(query@)),
                pred == (|e: GameListEntryView| search_keeps(e, query@, tags_arg_view(tags))),
                entries_view(res@) == self@.take(i as int).filter(pred),
            decreases self.games.len() - i,
        {
            let g = &self.games[i];
            let mut matched = true;
            if qc.len() > 0 {
                let idl = to_lowercase(g.id.as_str());
                let namel = to_lowercase(g.name.as_str());
                let idc = chars_of(idl.as_str());
                let namec = chars_of(namel.as_str());
                matched = contains_chars(&idc, &qc) || contains_chars(&namec, &qc);
            }
            if matched {
                match tags {
                    Some(ts) => {
                        matched = entry_has_tags(g, ts);
                    },
                    None => {},
                }
            }
            proof {
                reveal_with_fuel(Seq::<_>::filter, 1);
                assert(self@[i as int] == g@);
                assert(self@.take(i + 1).drop_last() =~= self@.take(i as int));
                assert(matched == pred(g@));
            }
            if matched {
                let c = g.clone();
                let ghost before = res@;
                res.push(c);
                assert(entries_view(res@) =~= entries_view(before).push(c@));
            }
            i += 1;
        }
        assert(self@.take(self.games.len() as int) =~= self@);
        res
    }

    /// The first catalogue entry with id `id`.
    pub fn find_by_id(&self, id: &str) -> (res: Option<GameListEntry>)
        ensures
            match res {
                Some(e) => find_entry_spec(self@, id@) == Some(e@),
                None => find_entry_spec(self@, id@) is None,
            },
    {
        let mut i: usize = 0;
        while i < self.games.len()
            invariant
                i <= self.games.len(),
                forall|j: int| 0 <= j < i ==> self@[j].id != id@,
            decreases self.games.len() - i,
        {
            assert(self@[i as int] == self.games@[i as int]@);
            if str_eq(self.games[i].id.as_str(), id) {
                proof {
                    lemma_first_entry_index_is(self@, id@, i as int);
                }
                return Some(self.games[i].clone());
            }
            i += 1;
        }
        proof {
            lemma_first_entry_index_is(self@, id@, -1);
        }
        None
    }
}

} // verus!
