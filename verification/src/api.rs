//! The launcher's game operations: finding a game in the catalogue or in the
//! local record, and turning its repository URL into the owner and
//! repository names that the release provider is asked about.
use vstd::prelude::*;

use crate::game_data::{find_spec, needs_update_spec, InstalledGame, LocalGameData};
use crate::release::ReleaseList;
use crate::game_list::{
    entries_view, find_entry_spec, search_spec, tags_arg_view, GameList, GameListEntry,
};
use crate::text::{
    append_str, has_prefix, index_of_char, lemma_index_of_char, owned, push_char, split_once,
    split_once_spec, strip_prefix, strip_prefix_spec, trim_end_char, trim_end_matches,
};

verus! {

/// `std::path::PathBuf`, carried through unchanged.
#[verifier::external_type_specification]
#[verifier::external_body]
pub struct ExPathBuf(std::path::PathBuf);

// ---------------------------------------------------------------------------
// Repository URLs
// ---------------------------------------------------------------------------

pub open spec fn github_https_prefix() -> Seq<char> {
    "https://github.com/"@
}

pub open spec fn github_http_prefix() -> Seq<char> {
    "http://github.com/"@
}

/// `https://github.com/{owner}/{repo}`.
pub open spec fn github_repo_url_spec(owner: Seq<char>, repo: Seq<char>) -> Seq<char> {
    github_https_prefix() + owner + seq!['/'] + repo
}

/// The owner and repository named by a GitHub URL: the part after
/// `https://github.com/` (or `http://github.com/`), without trailing
/// slashes, split at its first slash.
pub open spec fn parse_owner_repo_spec(url: Seq<char>) -> Option<(Seq<char>, Seq<char>)> {
    let rest = match strip_prefix_spec(url, github_https_prefix()) {
        Some(r) => Some(r),
        None => strip_prefix_spec(url, github_http_prefix()),
    };
    match rest {
        Some(r) => split_once_spec(trim_end_char(r, '/'), '/'),
        None => None,
    }
}

/// The repository URL recorded for an installed game.
pub fn github_repo_url(owner: &str, repo: &str) -> (res: String)
    ensures
        res@ == github_repo_url_spec(owner@, repo@),
{
    let mut s = owned("https://github.com/");
    append_str(&mut s, owner);
    push_char(&mut s, '/');
    append_str(&mut s, repo);
    s
}

/// Split a GitHub repository URL into owner and repository.
pub fn parse_owner_repo(url: &str) -> (res: Option<(String, String)>)
    ensures
        match res {
            Some((o, r)) => parse_owner_repo_spec(url@) == Some((o@, r@)),
            None => parse_owner_repo_spec(url@) is None,
        },
{
    let rest = match strip_prefix(url, "https://github.com/") {
        Some(r) => Some(r),
        None => strip_prefix(url, "http://github.com/"),
    };
    match rest {
        Some(r) => {
            let t = trim_end_matches(r.as_str(), '/');
            split_once(t.as_str(), '/')
        },
        None => None,
    }
}

/// `k` slashes.
pub open spec fn slashes(k: nat) -> Seq<char> {
    Seq::new(k, |i: int| '/')
}

proof fn lemma_trailing_slashes_trimmed(x: Seq<char>, k: nat)
    ensures
        trim_end_char(x + slashes(k), '/') == trim_end_char(x, '/'),
    decreases k,
{
    if k > 0 {
        assert((x + slashes(k)).drop_last() =~= x + slashes((k - 1) as nat));
        assert((x + slashes(k)).last() == '/');
        lemma_trailing_slashes_trimmed(x, (k - 1) as nat);
    } else {
        assert(x + slashes(k) =~= x);
    }
}

/// Round trip: a GitHub repository URL, with the `https` or the `http`
/// prefix and any number of trailing slashes, parses back into its owner
/// and repository, where the owner holds no slash and the repository name
/// is not empty and does not end with a slash.
pub proof fn law_repo_url_round_trip(prefix: Seq<char>, owner: Seq<char>, repo: Seq<char>, k: nat)
    requires
        prefix == github_https_prefix() || prefix == github_http_prefix(),
        forall|i: int| 0 <= i < owner.len() ==> owner[i] != '/',
        repo.len() > 0,
        repo.last() != '/',
    ensures
        parse_owner_repo_spec(prefix + owner + seq!['/'] + repo + slashes(k)) == Some((owner, repo)),
{
    reveal_strlit("https://github.com/");
    reveal_strlit("http://github.com/");
    let hs = github_https_prefix();
    let rest = owner + seq!['/'] + repo;
    let url = prefix + owner + seq!['/'] + repo + slashes(k);
    assert(url =~= prefix + (rest + slashes(k)));
    assert(url.subrange(0, prefix.len() as int) =~= prefix);
    assert(url.subrange(prefix.len() as int, url.len() as int) =~= rest + slashes(k));
    if prefix == github_http_prefix() {
        assert(url[4] == ':');
        if has_prefix(url, hs) {
            assert(url.subrange(0, hs.len() as int)[4] == url[4]);
            assert(hs[4] == 's');
        }
        assert(!has_prefix(url, hs));
    }
    lemma_trailing_slashes_trimmed(rest, k);
    assert(rest.last() == repo.last());
    assert(trim_end_char(rest, '/') == rest);
    lemma_index_of_char(rest, '/');
    let n = owner.len() as int;
    assert(rest[n] == '/');
    assert forall|j: int| 0 <= j < n implies rest[j] != '/' by {
        assert(rest[j] == owner[j]);
    }
    let r = index_of_char(rest, '/');
    assert(r != -1);
    if r < n {
        assert(rest[r] != '/');
    }
    assert(r == n);
    assert(rest.subrange(0, n) =~= owner);
    assert(rest.subrange(n + 1, rest.len() as int) =~= repo);
}

/// The URL recorded for an installed game parses back into its owner and
/// repository.
pub proof fn law_recorded_repo_url_parses_back(owner: Seq<char>, repo: Seq<char>)
    requires
        forall|i: int| 0 <= i < owner.len() ==> owner[i] != '/',
        repo.len() > 0,
        repo.last() != '/',
    ensures
        parse_owner_repo_spec(github_repo_url_spec(owner, repo)) == Some((owner, repo)),
{
    law_repo_url_round_trip(github_https_prefix(), owner, repo, 0);
    assert(github_repo_url_spec(owner, repo) =~= github_https_prefix() + owner + seq!['/'] + repo
        + slashes(0));
}

/// A URL that starts with neither GitHub prefix names no repository.
pub proof fn law_non_github_url_is_rejected(url: Seq<char>)
    requires
        !has_prefix(url, github_https_prefix()),
        !has_prefix(url, github_http_prefix()),
    ensures
        parse_owner_repo_spec(url) is None,
{
}

// ---------------------------------------------------------------------------
// Errors
// ---------------------------------------------------------------------------

/// Why a launcher operation on a game id was refused.
pub enum LauncherError {
    /// The id is not in the catalogue (or, for local lookups, the record).
    GameNotFound(String),
    /// The game's repository URL is not a GitHub repository URL.
    InvalidRepoUrl(String),
    /// The id is not in the local record of installed games.
    NotInstalled(String),
}

impl LauncherError {
    /// The message shown for the error.
    pub fn message(&self) -> (res: String)
        ensures
            res@ == match self {
                LauncherError::GameNotFound(id) => "game id not found: "@ + id@,
                LauncherError::InvalidRepoUrl(id) => "invalid repo url for "@ + id@,
                LauncherError::NotInstalled(id) => "not installed: "@ + id@,
            },
    {
        match self {
            LauncherError::GameNotFound(id) => {
                let mut s = owned("game id not found: ");
                append_str(&mut s, id.as_str());
                s
            },
            LauncherError::InvalidRepoUrl(id) => {
                let mut s = owned("invalid repo url for ");
                append_str(&mut s, id.as_str());
                s
            },
            LauncherError::NotInstalled(id) => {
                let mut s = owned("not installed: ");
                append_str(&mut s, id.as_str());
                s
            },
        }
    }
}

// ---------------------------------------------------------------------------
// The launcher
// ---------------------------------------------------------------------------

/// The launcher's game operations over a release provider `P` and the
/// locations of the installed games, the local record and the catalogue.
pub struct LauncherApi<P> {
    pub provider: P,
    pub games_dir: std::path::PathBuf,
    pub game_data_path: std::path::PathBuf,
    pub game_list_path: std::path::PathBuf,
}

/// Where a game's releases are published: the owner and repository named
/// by the repository URL of the catalogue entry `id`, or an error where the
/// catalogue has no such entry or its URL is not a GitHub repository URL.
pub open spec fn repo_target_spec(list: Seq<crate::game_list::GameListEntryView>, id: Seq<char>) -> Result<
    (Seq<char>, Seq<char>),
    (),
> {
    match find_entry_spec(list, id) {
        Some(e) => match parse_owner_repo_spec(e.repo) {
            Some(t) => Ok(t),
            None => Err(()),
        },
        None => Err(()),
    }
}

impl<P> LauncherApi<P> {
    pub fn new(
        provider: P,
        games_dir: std::path::PathBuf,
        game_data_path: std::path::PathBuf,
        game_list_path: std::path::PathBuf,
    ) -> (res: Self)
        ensures
            res.provider == provider,
            res.games_dir == games_dir,
            res.game_data_path == game_data_path,
            res.game_list_path == game_list_path,
    {
        LauncherApi { provider, games_dir, game_data_path, game_list_path }
    }

    /// Search the catalogue `list` (as read from `game_list_path`) by query
    /// and optional tags.
    pub fn search_games(&self, list: &GameList, query: &str, tags: Option<&[&str]>) -> (res: Vec<
        GameListEntry,
    >)
        ensures
            entries_view(res@) == search_spec(list@, query@, tags_arg_view(tags)),
    {
        list.search(query, tags)
    }

    /// The catalogue entry for `id`.
    pub fn find_game_entry(&self, list: &GameList, id: &str) -> (res: Result<
        GameListEntry,
        LauncherError,
    >)
        ensures
            match res {
                Ok(e) => find_entry_spec(list@, id@) == Some(e@),
                Err(err) => find_entry_spec(list@, id@) is None && (err matches LauncherError::GameNotFound(
                    x,
                ) && x@ == id@),
            },
    {
        match list.find_by_id(id) {
            Some(e) => Ok(e),
            None => Err(LauncherError::GameNotFound(owned(id))),
        }
    }

    /// The repository URL recorded for the installed game `id`.
    pub fn find_repo_by_local_id(&self, local: &LocalGameData, id: &str) -> (res: Result<
        String,
        LauncherError,
    >)
        ensures
            match res {
                Ok(r) => find_spec(local.installed@, id@) matches Some(g) && g.repo@ == r@,
                Err(err) => find_spec(local.installed@, id@) is None
                    && (err matches LauncherError::GameNotFound(x) && x@ == id@),
            },
    {
        match local.find(id) {
            Some(g) => Ok(g.repo.clone()),
            None => Err(LauncherError::GameNotFound(owned(id))),
        }
    }

    /// Owner and repository of the catalogue game `id`: the game must be in
    /// the catalogue and its repository URL must be a GitHub URL.
    pub fn repo_target(&self, list: &GameList, id: &str) -> (res: Result<
        (String, String),
        LauncherError,
    >)
        ensures
            match res {
                Ok((o, r)) => repo_target_spec(list@, id@) == Ok::<(Seq<char>, Seq<char>), ()>(
                    (o@, r@),
                ),
                Err(LauncherError::GameNotFound(x)) => find_entry_spec(list@, id@) is None && x@
                    == id@,
                Err(LauncherError::InvalidRepoUrl(x)) => find_entry_spec(list@, id@) is Some
                    && repo_target_spec(list@, id@) is Err && x@ == id@,
                Err(LauncherError::NotInstalled(_)) => false,
            },
    {
        let entry = match self.find_game_entry(list, id) {
            Ok(e) => e,
            Err(e) => {
                return Err(e);
            },
        };
        match parse_owner_repo(entry.repo.as_str()) {
            Some(t) => Ok(t),
            None => Err(LauncherError::InvalidRepoUrl(owned(id))),
        }
    }

    /// Owner and repository of the installed game `id`, from its recorded
    /// repository URL.
    pub fn local_repo_target(&self, local: &LocalGameData, id: &str) -> (res: Result<
        (String, String),
        LauncherError,
    >)
        ensures
            match res {
                Ok((o, r)) => find_spec(local.installed@, id@) matches Some(g)
                    && parse_owner_repo_spec(g.repo@) == Some((o@, r@)),
                Err(LauncherError::GameNotFound(x)) => find_spec(local.installed@, id@) is None
                    && x@ == id@,
                Err(LauncherError::InvalidRepoUrl(x)) => find_spec(local.installed@, id@) matches Some(
                    g,
                ) && parse_owner_repo_spec(g.repo@) is None && x@ == id@,
                Err(LauncherError::NotInstalled(_)) => false,
            },
    {
        let url = match self.find_repo_by_local_id(local, id) {
            Ok(u) => u,
            Err(e) => {
                return Err(e);
            },
        };
        match parse_owner_repo(url.as_str()) {
            Some(t) => Ok(t),
            None => Err(LauncherError::InvalidRepoUrl(owned(id))),
        }
    }

    /// Whether updating the catalogue game whose releases are published in
    /// repository `repo` calls for installing `release`: an install records
    /// the game under its repository name, so the record of `repo` is
    /// compared with the release version.
    pub fn update_needed(&self, local: &LocalGameData, repo: &str, release: &ReleaseList) -> (res:
        bool)
        ensures
            res == needs_update_spec(local.installed@, repo@, release.latest.version@),
    {
        local.needs_update(repo, release.latest.version.as_str())
    }

    /// Take the installed game `id` out of the record, for uninstalling it.
    pub fn take_installed(&self, local: &mut LocalGameData, id: &str) -> (res: Result<
        InstalledGame,
        LauncherError,
    >)
        ensures
            final(local).installed@ == crate::game_data::remove_id_spec(old(local).installed@, id@),
            match res {
                Ok(g) => find_spec(old(local).installed@, id@) == Some(g),
                Err(err) => find_spec(old(local).installed@, id@) is None
                    && (err matches LauncherError::NotInstalled(x) && x@ == id@),
            },
    {
        match local.remove_by_id(id) {
            Some(g) => Ok(g),
            None => Err(LauncherError::NotInstalled(owned(id))),
        }
    }
}

} // verus!
