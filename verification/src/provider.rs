//! Fetching JSON files from a GitHub repository: the URLs asked, the retry
//! schedule, and the handling of the answers.  The requests themselves are
//! made by the caller; each answer is handed back here.
//!
//! A file is first fetched from `raw.githubusercontent.com`.  A transport
//! failure is retried with a doubling backoff; an HTTP error ends the fetch;
//! an empty (blank) body falls back to the GitHub contents API, whose JSON
//! answer carries the file base64-encoded in its `content` member.
use vstd::prelude::*;

use base64::Engine as _;

use crate::text::{
    append_str, chars_of, owned, push_char, string_of, trim, trim_spec, trim_start_char,
    trim_start_matches,
};

verus! {

/// `serde_json::Error`.
#[verifier::external_type_specification]
#[verifier::external_body]
pub struct ExJsonError(serde_json::Error);

/// `base64::DecodeError`.
#[verifier::external_type_specification]
#[verifier::external_body]
pub struct ExDecodeError(base64::DecodeError);

/// `std::string::FromUtf8Error`.
#[verifier::external_type_specification]
#[verifier::external_body]
pub struct ExFromUtf8Error(std::string::FromUtf8Error);

/// The repository file that lists the games.
pub const GAME_LIST_FILE: &'static str = "data/game_list.json";

/// The repository file that describes a game's releases.
pub const RELEASE_FILE: &'static str = "launcher/release.json";

/// Where and how often the raw files of a repository are fetched.
pub struct GitHubRawProvider {
    branch: String,
    retries: usize,
}

/// The next move after a request failed in transport.
#[derive(Clone, Copy, Debug, PartialEq, Eq, Structural)]
pub enum RetryStep {
    /// Wait `backoff_ms` milliseconds, then send again; `attempt` failures so far.
    Retry { attempt: u32, backoff_ms: u64 },
    /// Give up and report the transport error.
    GiveUp,
}

/// What the answer from the raw file host calls for.
pub enum RawAnswer {
    /// The body is the file: parse it.
    Body(String),
    /// The body is blank: ask the contents API instead.
    FallbackToApi,
    /// The host answered with an HTTP error.
    Failed(FetchError),
}

/// Why fetching a file failed.
pub enum FetchError {
    /// An HTTP error status; the message names status and URL.
    Status(String),
    /// The contents API answered without a `content` string; the message
    /// names the URL.
    MissingContent(String),
    /// The contents API answer is not JSON.
    InvalidJson(serde_json::Error),
    /// The `content` member is not valid base64.
    InvalidBase64(base64::DecodeError),
    /// The decoded content is not UTF-8 text.
    InvalidUtf8(std::string::FromUtf8Error),
}

pub open spec fn raw_url_spec(
    owner: Seq<char>,
    repo: Seq<char>,
    branch: Seq<char>,
    path: Seq<char>,
) -> Seq<char> {
    "https://raw.githubusercontent.com/"@ + owner + seq!['/'] + repo + seq!['/'] + branch + seq![
        '/',
    ] + trim_start_char(path, '/')
}

pub open spec fn api_url_spec(
    owner: Seq<char>,
    repo: Seq<char>,
    branch: Seq<char>,
    path: Seq<char>,
) -> Seq<char> {
    "https://api.github.com/repos/"@ + owner + seq!['/'] + repo + "/contents/"@ + trim_start_char(
        path,
        '/',
    ) + "?ref="@ + branch
}

/// The backoff before the `attempt`-th resend: 200 ms times 2 to the
/// `attempt`.
pub open spec fn backoff_ms_spec(attempt: nat) -> nat
    decreases attempt,
{
    if attempt == 0 {
        200
    } else {
        2 * backoff_ms_spec((attempt - 1) as nat)
    }
}

/// The step after the failure of attempt number `attempt` (counted from 0):
/// give up once `retries` attempts have failed, else wait and resend.
pub open spec fn after_send_error_spec(retries: nat, attempt: nat) -> RetryStep {
    if attempt + 1 >= retries {
        RetryStep::GiveUp
    } else {
        RetryStep::Retry {
            attempt: (attempt + 1) as u32,
            backoff_ms: backoff_ms_spec(attempt + 1) as u64,
        }
    }
}

/// `s` without its newline characters.
pub open spec fn without_newlines(s: Seq<char>) -> Seq<char> {
    s.filter(|c: char| c != '\n')
}

/// What a successful contents-API answer whose body is JSON gives: the
/// `content` member, without newlines, must be base64 of UTF-8 text, which
/// is the file.
pub open spec fn api_content_outcome(res: Result<String, FetchError>, body: Seq<char>, api_url: Seq<char>) -> bool {
    match json_string_member_of(body, "content"@) {
        None => res matches Err(FetchError::MissingContent(m)) && m@ == "API returned no content for "@
            + api_url,
        Some(c) => match base64_standard_decoded(vstd::utf8::encode_utf8(without_newlines(c))) {
            None => res matches Err(FetchError::InvalidBase64(_)),
            Some(b) => if vstd::utf8::valid_utf8(b) {
                res matches Ok(t) && t@ == vstd::utf8::decode_utf8(b)
            } else {
                res matches Err(FetchError::InvalidUtf8(_))
            },
        },
    }
}

// ---------------------------------------------------------------------------
// Outside calls
// ---------------------------------------------------------------------------

/// Whether `text` is a JSON document that `serde_json` accepts.
pub uninterp spec fn json_parses(text: Seq<char>) -> bool;

/// The string value of member `key` of the JSON document `text`: `None`
/// where the document is no object, has no such member, or the member is not
/// a JSON string.
pub uninterp spec fn json_string_member_of(text: Seq<char>, key: Seq<char>) -> Option<Seq<char>>;

/// Calls `serde_json::from_str::<serde_json::Value>` and reads member `key`
/// of the parsed document as `serde_json::Value::get` finds it, keeping it
/// only where it is a JSON string (the value is converted to plain text
/// here).  Claimed: parsing succeeds exactly on the texts `json_parses`
/// names, and the member read is `json_string_member_of(text, key)`.
#[verifier::external_body]
fn json_text_string_member(text: &str, key: &str) -> (res: Result<Option<String>, serde_json::Error>)
    ensures
        res is Ok <==> json_parses(text@),
        res matches Ok(o) ==> json_string_member_of(text@, key@) == match o {
            Some(m) => Some(m@),
            None => None::<Seq<char>>,
        },
{
    serde_json::from_str::<serde_json::Value>(text).map(|v| match v.get(key) {
        Some(serde_json::Value::String(m)) => Some(m.clone()),
        _ => None,
    })
}

/// The bytes that the standard base64 alphabet with padding decodes `input`
/// to, or `None` where `input` is not such base64.
pub uninterp spec fn base64_standard_decoded(input: Seq<u8>) -> Option<Seq<u8>>;

/// Calls `base64::engine::general_purpose::STANDARD.decode`.  Claimed: it
/// succeeds exactly where `base64_standard_decoded` is `Some`, with those
/// bytes.
#[verifier::external_body]
fn base64_decode(input: &[u8]) -> (res: Result<Vec<u8>, base64::DecodeError>)
    ensures
        res is Ok <==> base64_standard_decoded(input@) is Some,
        res matches Ok(v) ==> base64_standard_decoded(input@) == Some(v@),
{
    base64::engine::general_purpose::STANDARD.decode(input)
}

/// Calls `String::from_utf8`.  Claimed (std documents it): it succeeds
/// exactly on valid UTF-8, and the string holds the decoded characters.
#[verifier::external_body]
fn string_from_utf8(bytes: Vec<u8>) -> (res: Result<String, std::string::FromUtf8Error>)
    ensures
        res is Ok <==> vstd::utf8::valid_utf8(bytes@),
        res matches Ok(s) ==> s@ == vstd::utf8::decode_utf8(bytes@),
{
    String::from_utf8(bytes)
}

// ---------------------------------------------------------------------------
// Operations
// ---------------------------------------------------------------------------

/// `s` without its newline characters.
pub fn remove_newlines(s: &str) -> (res: String)
    ensures
        res@ == without_newlines(s@),
{
    let cs = chars_of(s);
    let mut out: Vec<char> = Vec::new();
    let ghost f = |c: char| c != '\n';
    let mut i: usize = 0;
    while i < cs.len()
        invariant
            i <= cs.len(),
            cs@ == s@,
            f == (|c: char| c != '\n'),
            out@ == cs@.take(i as int).filter(f),
        decreases cs.len() - i,
    {
        proof {
            reveal_with_fuel(Seq::<_>::filter, 1);
            assert(cs@.take(i + 1).drop_last() =~= cs@.take(i as int));
        }
        if cs[i] != '\n' {
            out.push(cs[i]);
        }
        i += 1;
    }
    assert(cs@.take(cs.len() as int) =~= cs@);
    string_of(&out)
}

impl GitHubRawProvider {
    #[verifier::type_invariant]
    spec fn retries_in_range(self) -> bool {
        1 <= self.retries <= 16
    }

    /// The branch that files are read from.
    pub closed spec fn branch_spec(&self) -> Seq<char> {
        self.branch@
    }

    /// How many transport failures end a fetch.
    pub closed spec fn retries_spec(&self) -> nat {
        self.retries as nat
    }

    /// A provider reading `branch` (default `main`), giving up after 3
    /// transport failures.
    pub fn new(branch: Option<&str>) -> (res: Self)
        ensures
            res.branch_spec() == match branch {
                Some(b) => b@,
                None => "main"@,
            },
            res.retries_spec() == 3,
    {
        let b = match branch {
            Some(b) => owned(b),
            None => owned("main"),
        };
        GitHubRawProvider { branch: b, retries: 3 }
    }

    /// The raw file URL of `path` in `owner`/`repo`.
    pub fn raw_url(&self, owner: &str, repo: &str, path: &str) -> (res: String)
        ensures
            res@ == raw_url_spec(owner@, repo@, self.branch_spec(), path@),
    {
        let p = trim_start_matches(path, '/');
        let mut s = owned("https://raw.githubusercontent.com/");
        append_str(&mut s, owner);
        push_char(&mut s, '/');
        append_str(&mut s, repo);
        push_char(&mut s, '/');
        append_str(&mut s, self.branch.as_str());
        push_char(&mut s, '/');
        append_str(&mut s, p.as_str());
        s
    }

    /// The contents API URL of `path` in `owner`/`repo`.
    pub fn api_url(&self, owner: &str, repo: &str, path: &str) -> (res: String)
        ensures
            res@ == api_url_spec(owner@, repo@, self.branch_spec(), path@),
    {
        let p = trim_start_matches(path, '/');
        let mut s = owned("https://api.github.com/repos/");
        append_str(&mut s, owner);
        push_char(&mut s, '/');
        append_str(&mut s, repo);
        append_str(&mut s, "/contents/");
        append_str(&mut s, p.as_str());
        append_str(&mut s, "?ref=");
        append_str(&mut s, self.branch.as_str());
        s
    }

    /// The step after attempt number `attempt` (counted from 0) failed in
    /// transport.
    pub fn after_send_error(&self, attempt: u32) -> (res: RetryStep)
        ensures
            res == after_send_error_spec(self.retries_spec(), attempt as nat),
    {
        proof {
            use_type_invariant(self);
        }
        if attempt as u64 + 1 >= self.retries as u64 {
            RetryStep::GiveUp
        } else {
            let next = attempt + 1;
            let mut ms: u64 = 200;
            let mut k: u32 = 0;
            while k < next
                invariant
                    k <= next <= 16,
                    ms == backoff_ms_spec(k as nat),
                    ms <= 200 * 65536,
                decreases next - k,
            {
                proof {
                    lemma_backoff_bound((k + 1) as nat);
                }
                ms = ms * 2;
                k += 1;
            }
            RetryStep::Retry { attempt: next, backoff_ms: ms }
        }
    }

    /// What the answer of the raw file host calls for: an HTTP error ends
    /// the fetch, a blank body falls back to the contents API, any other
    /// body is the file.
    pub fn classify_raw_answer(
        &self,
        success: bool,
        status: &str,
        raw_url: &str,
        body: String,
    ) -> (res: RawAnswer)
        ensures
            !success ==> (res matches RawAnswer::Failed(FetchError::Status(m)) && m@ == "HTTP error "@
                + status@ + " fetching "@ + raw_url@),
            success && trim_spec(body@).len() == 0 ==> res is FallbackToApi,
            success && trim_spec(body@).len() != 0 ==> res == RawAnswer::Body(body),
    {
        if !success {
            let mut m = owned("HTTP error ");
            append_str(&mut m, status);
            append_str(&mut m, " fetching ");
            append_str(&mut m, raw_url);
            return RawAnswer::Failed(FetchError::Status(m));
        }
        let t = trim(body.as_str());
        if t.as_str().is_empty() {
            RawAnswer::FallbackToApi
        } else {
            RawAnswer::Body(body)
        }
    }

    /// The file text carried by an answer of the contents API: the answer
    /// must be a success, its body JSON with a string member `content`, which
    /// without newlines is base64 of UTF-8 text.
    pub fn decode_api_answer(
        &self,
        success: bool,
        status: &str,
        api_url: &str,
        body: &str,
    ) -> (res: Result<String, FetchError>)
        ensures
            !success ==> (res matches Err(FetchError::Status(m)) && m@ == "API HTTP error "@
                + status@ + " fetching "@ + api_url@),
            success && !json_parses(body@) ==> res matches Err(FetchError::InvalidJson(_)),
            success && json_parses(body@) ==> api_content_outcome(res, body@, api_url@),
    {
        if !success {
            let mut m = owned("API HTTP error ");
            append_str(&mut m, status);
            append_str(&mut m, " fetching ");
            append_str(&mut m, api_url);
            return Err(FetchError::Status(m));
        }
        let member = match json_text_string_member(body, "content") {
            Ok(m) => m,
            Err(e) => {
                return Err(FetchError::InvalidJson(e));
            },
        };
        let content = match member {
            Some(c) => c,
            None => {
                let mut m = owned("API returned no content for ");
                append_str(&mut m, api_url);
                return Err(FetchError::MissingContent(m));
            },
        };
        let cleaned = remove_newlines(content.as_str());
        let bytes = match base64_decode(cleaned.as_str().as_bytes()) {
            Ok(b) => b,
            Err(e) => {
                return Err(FetchError::InvalidBase64(e));
            },
        };
        match string_from_utf8(bytes) {
            Ok(text) => Ok(text),
            Err(e) => Err(FetchError::InvalidUtf8(e)),
        }
    }
}

proof fn lemma_backoff_monotone(a: nat, b: nat)
    requires
        a <= b,
    ensures
        backoff_ms_spec(a) <= backoff_ms_spec(b),
    decreases b - a,
{
    if a < b {
        lemma_backoff_monotone(a, (b - 1) as nat);
    }
}

proof fn lemma_backoff_bound(k: nat)
    requires
        k <= 16,
    ensures
        backoff_ms_spec(k) <= 200 * 65536,
{
    reveal_with_fuel(backoff_ms_spec, 17);
    assert(backoff_ms_spec(16) == 200 * 65536);
    lemma_backoff_monotone(k, 16);
}

/// A fetch sends at most `retries` times: the step after the last allowed
/// attempt is to give up, and every retry step counts one more failure.
pub proof fn law_retries_are_bounded(retries: nat, attempt: nat)
    requires
        attempt < retries <= 16,
    ensures
        attempt + 1 == retries ==> after_send_error_spec(retries, attempt) == RetryStep::GiveUp,
        after_send_error_spec(retries, attempt) matches RetryStep::Retry { attempt: a, .. } ==> a
            == attempt + 1 && a < retries,
{
}

/// The backoff doubles from one retry to the next.
pub proof fn law_backoff_doubles(attempt: nat)
    ensures
        backoff_ms_spec(attempt + 1) == 2 * backoff_ms_spec(attempt),
{
}

} // verus!
