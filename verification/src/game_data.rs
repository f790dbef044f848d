//! The local record of installed games (`local/game_data.json`).
//!
//! The record is a list of `InstalledGame` entries.  Lookups go by game id
//! and always take the first entry with that id; `add_or_update` replaces
//! that entry or appends a new one, so a record built through it never holds
//! an id twice.
use vstd::prelude::*;

use crate::text::str_eq;

verus! {

/// One installed game.
pub struct InstalledGame {
    pub id: String,
    pub name: String,
    pub version: String,
    /// Directory where the game was installed
    pub install_path: String,
    /// Optional explicit executable path for launching the game
    pub exe_path: Option<String>,
    pub repo: String,
    pub installed: bool,
    pub last_checked: Option<String>,
}

pub(crate) fn clone_opt_string(o: &Option<String>) -> (res: Option<String>)
    ensures
        res == *o,
{
    match o {
        Some(s) => Some(s.clone()),
        None => None,
    }
}

impl Clone for InstalledGame {
    fn clone(&self) -> (res: Self)
        ensures
            res == *self,
    {
        InstalledGame {
            id: self.id.clone(),
            name: self.name.clone(),
            version: self.version.clone(),
            install_path: self.install_path.clone(),
            exe_path: clone_opt_string(&self.exe_path),
            repo: self.repo.clone(),
            installed: self.installed,
            last_checked: clone_opt_string(&self.last_checked),
        }
    }
}

/// The installed games known to the launcher.
pub struct LocalGameData {
    pub installed: Vec<InstalledGame>,
}

impl Default for LocalGameData {
    fn default() -> (res: Self)
        ensures
            res.installed@.len() == 0,
    {
        LocalGameData { installed: Vec::new() }
    }
}

impl Clone for LocalGameData {
    fn clone(&self) -> (res: Self)
        ensures
            res.installed@ == self.installed@,
    {
        let mut v: Vec<InstalledGame> = Vec::new();
        let mut i: usize = 0;
        while i < self.installed.len()
            invariant
                i <= self.installed.len(),
                v@ == self.installed@.subrange(0, i as int),
            decreases self.installed.len() - i,
        {
            v.push(self.installed[i].clone());
            assert(self.installed@.subrange(0, i + 1) == self.installed@.subrange(0, i as int).push(
                self.installed@[i as int],
            ));
            i += 1;
        }
        assert(self.installed@.subrange(0, self.installed@.len() as int) == self.installed@);
        LocalGameData { installed: v }
    }
}

// ---------------------------------------------------------------------------
// Model
// ---------------------------------------------------------------------------

/// Index of the first entry whose id is `id`, or -1 where there is none.
pub open spec fn first_index_of_id(s: Seq<InstalledGame>, id: Seq<char>) -> int
    decreases s.len(),
{
    if s.len() == 0 {
        -1
    } else if s[0].id@ == id {
        0
    } else {
        let r = first_index_of_id(s.drop_first(), id);
        if r < 0 {
            -1
        } else {
            r + 1
        }
    }
}

/// The entry that a lookup of `id` finds: the first one with that id.
pub open spec fn find_spec(s: Seq<InstalledGame>, id: Seq<char>) -> Option<InstalledGame> {
    let k = first_index_of_id(s, id);
    if k < 0 {
        None
    } else {
        Some(s[k])
    }
}

/// The record after `add_or_update(g)`: the first entry with `g`'s id is
/// replaced by `g`, or `g` is appended where no entry has that id.
pub open spec fn add_or_update_spec(s: Seq<InstalledGame>, g: InstalledGame) -> Seq<InstalledGame> {
    let k = first_index_of_id(s, g.id@);
    if k < 0 {
        s.push(g)
    } else {
        s.update(k, g)
    }
}

/// The record after the first entry with id `id` is taken out (unchanged
/// where there is none).
pub open spec fn remove_id_spec(s: Seq<InstalledGame>, id: Seq<char>) -> Seq<InstalledGame> {
    let k = first_index_of_id(s, id);
    if k < 0 {
        s
    } else {
        s.remove(k)
    }
}

/// No two entries share an id.
pub open spec fn ids_unique(s: Seq<InstalledGame>) -> bool {
    forall|i: int, j: int| 0 <= i < j < s.len() ==> s[i].id@ != s[j].id@
}

/// Whether installing the remote version `remote` of game `id` is called for:
/// the game is not recorded, or its recorded version differs.
pub open spec fn needs_update_spec(s: Seq<InstalledGame>, id: Seq<char>, remote: Seq<char>) -> bool {
    match find_spec(s, id) {
        Some(g) => g.version@ != remote,
        None => true,
    }
}

pub proof fn lemma_first_index_of_id(s: Seq<InstalledGame>, id: Seq<char>)
    ensures
        first_index_of_id(s, id) >= -1,
        first_index_of_id(s, id) == -1 <==> (forall|j: int| 0 <= j < s.len() ==> s[j].id@ != id),
        first_index_of_id(s, id) >= 0 ==> {
            let r = first_index_of_id(s, id);
            &&& r < s.len()
            &&& s[r].id@ == id
            &&& forall|j: int| 0 <= j < r ==> s[j].id@ != id
        },
    decreases s.len(),
{
    if s.len() > 0 && s[0].id@ != id {
        let t = s.drop_first();
        lemma_first_index_of_id(t, id);
        if first_index_of_id(t, id) == -1 {
            assert forall|j: int| 0 <= j < s.len() implies s[j].id@ != id by {
                if j > 0 {
                    assert(s[j] == t[j - 1]);
                }
            }
        } else {
            let r = first_index_of_id(t, id);
            assert(s[r + 1] == t[r]);
            assert forall|j: int| 0 <= j < r + 1 implies s[j].id@ != id by {
                if j > 0 {
                    assert(s[j] == t[j - 1]);
                }
            }
        }
    }
}

/// The first index is pinned down by where the matches are.
pub proof fn lemma_first_index_is(s: Seq<InstalledGame>, id: Seq<char>, k: int)
    requires
        -1 <= k < s.len(),
        k >= 0 ==> s[k].id@ == id,
        forall|j: int| 0 <= j < s.len() && (k < 0 || j < k) ==> s[j].id@ != id,
    ensures
        first_index_of_id(s, id) == k,
{
    lemma_first_index_of_id(s, id);
    let r = first_index_of_id(s, id);
    if k >= 0 {
        assert(r != -1);
        if r < k {
            assert(s[r].id@ != id);
        }
        if r > k {
            assert(s[k].id@ != id);
        }
    } else {
        if r >= 0 {
            assert(s[r].id@ != id);
        }
    }
}

// ---------------------------------------------------------------------------
// Laws
// ---------------------------------------------------------------------------

/// Read after write: once `g` is added or updated, looking up its id finds `g`.
pub proof fn law_find_after_add_or_update(s: Seq<InstalledGame>, g: InstalledGame)
    ensures
        find_spec(add_or_update_spec(s, g), g.id@) == Some(g),
{
    lemma_first_index_of_id(s, g.id@);
    let k = first_index_of_id(s, g.id@);
    let t = add_or_update_spec(s, g);
    if k < 0 {
        assert forall|j: int| 0 <= j < t.len() && j < s.len() implies t[j].id@ != g.id@ by {
            assert(t[j] == s[j]);
        }
        lemma_first_index_is(t, g.id@, s.len() as int);
    } else {
        assert forall|j: int| 0 <= j < t.len() && j < k implies t[j].id@ != g.id@ by {
            assert(t[j] == s[j]);
        }
        lemma_first_index_is(t, g.id@, k);
    }
}

/// Adding or updating `g` leaves the lookup of every other id as it was.
pub proof fn law_add_or_update_keeps_others(s: Seq<InstalledGame>, g: InstalledGame, id: Seq<char>)
    requires
        id != g.id@,
    ensures
        find_spec(add_or_update_spec(s, g), id) == find_spec(s, id),
{
    lemma_first_index_of_id(s, g.id@);
    lemma_first_index_of_id(s, id);
    let k = first_index_of_id(s, g.id@);
    let r = first_index_of_id(s, id);
    let t = add_or_update_spec(s, g);
    if r >= 0 {
        assert(r != k);
        assert(t[r] == s[r]);
        assert forall|j: int| 0 <= j < t.len() && j < r implies t[j].id@ != id by {
            if j == k {
                assert(t[j] == g);
            } else {
                assert(t[j] == s[j]);
            }
        }
        lemma_first_index_is(t, id, r);
    } else {
        assert forall|j: int| 0 <= j < t.len() implies t[j].id@ != id by {
            if j == k || j == s.len() {
                assert(t[j] == g);
            } else {
                assert(t[j] == s[j]);
            }
        }
        lemma_first_index_is(t, id, -1);
    }
}

/// Adding or updating keeps the ids of the record distinct.
pub proof fn law_add_or_update_keeps_ids_unique(s: Seq<InstalledGame>, g: InstalledGame)
    requires
        ids_unique(s),
    ensures
        ids_unique(add_or_update_spec(s, g)),
{
    lemma_first_index_of_id(s, g.id@);
    let k = first_index_of_id(s, g.id@);
    let t = add_or_update_spec(s, g);
    assert forall|i: int, j: int| 0 <= i < j < t.len() implies t[i].id@ != t[j].id@ by {
        if k < 0 {
            if j == s.len() {
                assert(t[i] == s[i]);
            } else {
                assert(t[i] == s[i] && t[j] == s[j]);
            }
        } else {
            if i == k {
                assert(t[j] == s[j]);
                assert(s[k].id@ == g.id@);
            } else if j == k {
                assert(t[i] == s[i]);
                assert(s[k].id@ == g.id@);
            } else {
                assert(t[i] == s[i] && t[j] == s[j]);
            }
        }
    }
}

/// Uninstall: in a record with distinct ids, taking out `id` leaves no entry
/// that a lookup of `id` can find.
pub proof fn law_removed_id_is_absent(s: Seq<InstalledGame>, id: Seq<char>)
    requires
        ids_unique(s),
    ensures
        find_spec(remove_id_spec(s, id), id) is None,
{
    lemma_first_index_of_id(s, id);
    let k = first_index_of_id(s, id);
    let t = remove_id_spec(s, id);
    if k >= 0 {
        assert forall|j: int| 0 <= j < t.len() implies t[j].id@ != id by {
            if j < k {
                assert(t[j] == s[j]);
            } else {
                assert(t[j] == s[j + 1]);
                assert(s[k].id@ != s[j + 1].id@);
            }
        }
    }
    lemma_first_index_is(t, id, -1);
}

/// Taking out `id` leaves the lookup of every other id as it was.
pub proof fn law_remove_keeps_others(s: Seq<InstalledGame>, id: Seq<char>, other: Seq<char>)
    requires
        other != id,
    ensures
        find_spec(remove_id_spec(s, id), other) == find_spec(s, other),
{
    lemma_first_index_of_id(s, id);
    lemma_first_index_of_id(s, other);
    let k = first_index_of_id(s, id);
    let r = first_index_of_id(s, other);
    let t = remove_id_spec(s, id);
    if k >= 0 {
        if r >= 0 {
            assert(r != k);
            let r2 = if r < k {
                r
            } else {
                r - 1
            };
            assert(t[r2] == s[r]);
            assert forall|j: int| 0 <= j < t.len() && j < r2 implies t[j].id@ != other by {
                if j < k {
                    assert(t[j] == s[j]);
                } else {
                    assert(t[j] == s[j + 1]);
                }
            }
            lemma_first_index_is(t, other, r2);
        } else {
            assert forall|j: int| 0 <= j < t.len() implies t[j].id@ != other by {
                if j < k {
                    assert(t[j] == s[j]);
                } else {
                    assert(t[j] == s[j + 1]);
                }
            }
            lemma_first_index_is(t, other, -1);
        }
    }
}

/// After installing version `g.version`, that same version is not an update.
pub proof fn law_no_update_after_install(s: Seq<InstalledGame>, g: InstalledGame)
    ensures
        !needs_update_spec(add_or_update_spec(s, g), g.id@, g.version@),
{
    law_find_after_add_or_update(s, g);
}

/// Install then uninstall: in a record with distinct ids, adding `g` and
/// then taking out its id leaves no entry with that id, and every other id
/// looks up as it did before the install.
pub proof fn law_install_then_uninstall(s: Seq<InstalledGame>, g: InstalledGame, other: Seq<char>)
    requires
        ids_unique(s),
    ensures
        find_spec(remove_id_spec(add_or_update_spec(s, g), g.id@), g.id@) is None,
        other != g.id@ ==> find_spec(remove_id_spec(add_or_update_spec(s, g), g.id@), other)
            == find_spec(s, other),
{
    law_add_or_update_keeps_ids_unique(s, g);
    law_removed_id_is_absent(add_or_update_spec(s, g), g.id@);
    if other != g.id@ {
        law_remove_keeps_others(add_or_update_spec(s, g), g.id@, other);
        law_add_or_update_keeps_others(s, g, other);
    }
}

/// Update decision: where the record (with distinct ids) holds game `id` at
/// position `k`, an update is called for exactly when the remote version
/// differs from the recorded version; where no entry has that id, an update
/// (an install) is always called for.
pub proof fn law_update_exactly_when_versions_differ(
    s: Seq<InstalledGame>,
    id: Seq<char>,
    remote: Seq<char>,
    k: int,
)
    requires
        ids_unique(s),
    ensures
        0 <= k < s.len() && s[k].id@ == id ==> (needs_update_spec(s, id, remote) <==> s[k].version@
            != remote),
        (forall|j: int| 0 <= j < s.len() ==> s[j].id@ != id) ==> needs_update_spec(s, id, remote),
{
    lemma_first_index_of_id(s, id);
    if 0 <= k < s.len() && s[k].id@ == id {
        let r = first_index_of_id(s, id);
        assert(r >= 0);
        if r != k {
            if r < k {
                assert(s[r].id@ != s[k].id@);
            } else {
                assert(s[k].id@ != id);
            }
        }
    }
}

/// Update decision on any record: where the first entry with id `id` stands
/// at position `k`, an update is called for exactly when the remote version
/// differs from that entry's version.
pub proof fn law_update_follows_first_entry(
    s: Seq<InstalledGame>,
    id: Seq<char>,
    remote: Seq<char>,
    k: int,
)
    requires
        0 <= k < s.len(),
        s[k].id@ == id,
        forall|j: int| 0 <= j < k ==> s[j].id@ != id,
    ensures
        needs_update_spec(s, id, remote) <==> s[k].version@ != remote,
{
    lemma_first_index_of_id(s, id);
    let r = first_index_of_id(s, id);
    assert(r >= 0);
    if r < k {
        assert(s[r].id@ != id);
    } else if r > k {
        assert(s[k].id@ != id);
    }
}

// ---------------------------------------------------------------------------
// Operations
// ---------------------------------------------------------------------------

/// Index of the first entry of `v` whose id is `id`.
pub fn index_of_id(v: &Vec<InstalledGame>, id: &str) -> (res: Option<usize>)
    ensures
        res matches Some(k) ==> first_index_of_id(v@, id@) == k && k < v@.len(),
        res is None ==> first_index_of_id(v@, id@) == -1,
{
    let mut i: usize = 0;
    while i < v.len()
        invariant
            i <= v.len(),
            forall|j: int| 0 <= j < i ==> v@[j].id@ != id@,
        decreases v.len() - i,
    {
        if str_eq(v[i].id.as_str(), id) {
            proof {
                lemma_first_index_is(v@, id@, i as int);
            }
            return Some(i);
        }
        i += 1;
    }
    proof {
        lemma_first_index_is(v@, id@, -1);
    }
    None
}

impl LocalGameData {
    /// The record as loaded: the stored record, or an empty one where none
    /// was stored yet (the file does not exist).
    pub fn load(stored: Option<LocalGameData>) -> (res: Self)
        ensures
            match stored {
                Some(d) => res == d,
                None => res.installed@.len() == 0,
            },
    {
        match stored {
            Some(d) => d,
            None => LocalGameData::default(),
        }
    }

    /// The first installed game whose id is `id`.
    pub fn find(&self, id: &str) -> (res: Option<&InstalledGame>)
        ensures
            match res {
                Some(g) => find_spec(self.installed@, id@) == Some(*g),
                None => find_spec(self.installed@, id@) is None,
            },
    {
        match index_of_id(&self.installed, id) {
            Some(k) => Some(&self.installed[k]),
            None => None,
        }
    }

    /// Replace the entry with `game`'s id by `game`, or append `game`.
    pub fn add_or_update(&mut self, game: InstalledGame)
        ensures
            final(self).installed@ == add_or_update_spec(old(self).installed@, game),
    {
        match index_of_id(&self.installed, game.id.as_str()) {
            Some(k) => {
                self.installed.set(k, game);
            },
            None => {
                self.installed.push(game);
            },
        }
    }

    /// Take out the first entry whose id is `id`, and return it.
    pub fn remove_by_id(&mut self, id: &str) -> (res: Option<InstalledGame>)
        ensures
            final(self).installed@ == remove_id_spec(old(self).installed@, id@),
            res == find_spec(old(self).installed@, id@),
    {
        match index_of_id(&self.installed, id) {
            Some(k) => Some(self.installed.remove(k)),
            None => None,
        }
    }

    /// Whether the remote version `remote_version` of game `id` should be
    /// installed: the game is not recorded, or its version differs.
    pub fn needs_update(&self, id: &str, remote_version: &str) -> (res: bool)
        ensures
            res == needs_update_spec(self.installed@, id@, remote_version@),
    {
        match self.find(id) {
            Some(g) => !str_eq(g.version.as_str(), remote_version),
            None => true,
        }
    }
}

} // verus!
