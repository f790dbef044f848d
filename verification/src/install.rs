//! The decisions of installing a release: which asset is taken, whether its
//! checksum holds, how it is unpacked, how progress is reported, and the
//! record that the installed game gets.
use vstd::prelude::*;

use sha2::{Digest, Sha256};

use crate::api::{github_repo_url, github_repo_url_spec};
use crate::game_data::InstalledGame;
use crate::release::{ReleaseAsset, ReleaseList};
use crate::text::{
    append_str, ascii_lower, chars_of, ends_with, eq_ignore_ascii_case, eq_ignore_ascii_case_spec, has_suffix,
    hex_digit, is_hex_digit, lowercase_of, owned, push_decimal, decimal, str_eq, to_lowercase, trim,
    trim_spec,
};

verus! {

/// The stage an installation has reached.
#[derive(Clone, Copy, Debug, PartialEq, Eq, Structural)]
pub enum InstallStage {
    Downloading,
    Verifying,
    Extracting,
    Installing,
    UpdatingLocalData,
    Done,
}

/// A progress report: the stage, and for downloads the bytes received so far
/// and the announced total.
#[derive(Clone, Copy, Debug, PartialEq, Eq, Structural)]
pub struct Progress {
    pub stage: InstallStage,
    pub downloaded: u64,
    pub total: Option<u64>,
}

/// Why an installation stopped.
pub enum InstallError {
    Cancelled,
    Other(String),
}

impl InstallError {
    /// The message an installation error converts to.
    pub fn message(&self) -> (res: String)
        ensures
            res@ == match self {
                InstallError::Cancelled => "install cancelled"@,
                InstallError::Other(s) => s@,
            },
    {
        match self {
            InstallError::Cancelled => owned("install cancelled"),
            InstallError::Other(s) => s.clone(),
        }
    }

    /// The message an installation from a repository reports for the error.
    pub fn failure_text(&self) -> (res: String)
        ensures
            res@ == match self {
                InstallError::Cancelled => "cancelled"@,
                InstallError::Other(s) => s@,
            },
    {
        match self {
            InstallError::Cancelled => owned("cancelled"),
            InstallError::Other(s) => s.clone(),
        }
    }
}

impl Progress {
    /// A report of reaching `stage`, with no byte counts.
    pub fn at_stage(stage: InstallStage) -> (res: Progress)
        ensures
            res == (Progress { stage, downloaded: 0, total: None }),
    {
        Progress { stage, downloaded: 0, total: None }
    }
}

/// One step of the download loop: a chunk of `chunk_len` bytes arrived after
/// `downloaded` bytes.  Where cancellation was requested the download stops;
/// otherwise the count grows by the chunk and a download report carries it.
pub fn download_step(downloaded: u64, chunk_len: usize, total: Option<u64>, cancel_requested: bool) -> (res: Result<
    (u64, Progress),
    InstallError,
>)
    requires
        downloaded + chunk_len <= u64::MAX,
    ensures
        cancel_requested ==> res matches Err(InstallError::Cancelled),
        !cancel_requested ==> (res matches Ok((n, p)) && n == downloaded + chunk_len && p == (
        Progress { stage: InstallStage::Downloading, downloaded: n, total })),
{
    if cancel_requested {
        return Err(InstallError::Cancelled);
    }
    let n = downloaded + chunk_len as u64;
    Ok((n, Progress { stage: InstallStage::Downloading, downloaded: n, total }))
}

/// The answer to the asset download request: an HTTP error status ends the
/// install with a message naming status and URL; a success lets the
/// download go on.
pub fn check_download_status(success: bool, status: &str, url: &str) -> (res: Result<
    (),
    InstallError,
>)
    ensures
        success ==> res is Ok,
        !success ==> (res matches Err(InstallError::Other(m)) && m@ == "HTTP error "@ + status@
            + " fetching "@ + url@),
{
    if success {
        Ok(())
    } else {
        let mut m = owned("HTTP error ");
        append_str(&mut m, status);
        append_str(&mut m, " fetching ");
        append_str(&mut m, url);
        Err(InstallError::Other(m))
    }
}

/// Download reports count up: the count after a chunk is the count before
/// plus the chunk, never less.
pub proof fn law_download_count_grows(downloaded: u64, chunk_len: usize)
    requires
        downloaded + chunk_len <= u64::MAX,
    ensures
        downloaded <= downloaded + chunk_len,
{
}

// ---------------------------------------------------------------------------
// Choosing the asset
// ---------------------------------------------------------------------------

/// The asset that is installed: the first of the latest release.
pub fn select_asset(release: &ReleaseList) -> (res: Result<ReleaseAsset, InstallError>)
    ensures
        release.latest.assets@.len() > 0 ==> res == Ok::<ReleaseAsset, InstallError>(
            release.latest.assets@[0],
        ),
        release.latest.assets@.len() == 0 ==> (res matches Err(InstallError::Other(m)) && m@
            == "no assets in release"@),
{
    if release.latest.assets.len() > 0 {
        Ok(release.latest.assets[0].clone())
    } else {
        Err(InstallError::Other(owned("no assets in release")))
    }
}

/// Whether the asset is unpacked as a zip archive: its type is `zip` or its
/// URL ends with `.zip`, both compared lowercased.
pub open spec fn is_zip_asset_spec(a: ReleaseAsset) -> bool {
    lowercase_of(a.asset_type@) == "zip"@ || has_suffix(lowercase_of(a.url@), ".zip"@)
}

pub fn is_zip_asset(asset: &ReleaseAsset) -> (res: bool)
    ensures
        res == is_zip_asset_spec(*asset),
{
    let t = to_lowercase(asset.asset_type.as_str());
    if str_eq(t.as_str(), "zip") {
        return true;
    }
    let u = to_lowercase(asset.url.as_str());
    ends_with(u.as_str(), ".zip")
}

/// The file name a non-archive asset is written under: its entry point, or
/// else its name.
pub fn entry_file_name(asset: &ReleaseAsset) -> (res: String)
    ensures
        res@ == match asset.entry_point {
            Some(e) => e@,
            None => asset.name@,
        },
{
    match &asset.entry_point {
        Some(e) => e.clone(),
        None => asset.name.clone(),
    }
}

// ---------------------------------------------------------------------------
// Checksums
// ---------------------------------------------------------------------------

/// The SHA-256 digest of `data`.
pub uninterp spec fn sha256_of(data: Seq<u8>) -> Seq<u8>;

/// Calls `sha2::Sha256::digest`.  Claimed: the result is `sha256_of` of the
/// input bytes, and is 32 bytes long (the digest size of SHA-256).
#[verifier::external_body]
fn sha256_digest(data: &[u8]) -> (res: Vec<u8>)
    ensures
        res@ == sha256_of(data@),
        res@.len() == 32,
{
    Sha256::digest(data).to_vec()
}

/// The lowercase hexadecimal digit for `n` (0..=15).
pub open spec fn hex_char(n: int) -> char {
    if n < 10 {
        if n == 0 { '0' } else if n == 1 { '1' } else if n == 2 { '2' } else if n == 3 { '3' }
        else if n == 4 { '4' } else if n == 5 { '5' } else if n == 6 { '6' } else if n == 7 { '7' }
        else if n == 8 { '8' } else { '9' }
    } else {
        if n == 10 { 'a' } else if n == 11 { 'b' } else if n == 12 { 'c' } else if n == 13 { 'd' }
        else if n == 14 { 'e' } else { 'f' }
    }
}

/// Lowercase hexadecimal rendering of `bytes`: two digits per byte, high
/// nibble first.
pub open spec fn hex_lower(bytes: Seq<u8>) -> Seq<char>
    decreases bytes.len(),
{
    if bytes.len() == 0 {
        Seq::empty()
    } else {
        seq![hex_char((bytes[0] / 16) as int), hex_char((bytes[0] % 16) as int)] + hex_lower(bytes.drop_first())
    }
}

/// Calls `hex::encode`.  Claimed: the result is the lowercase hexadecimal
/// rendering of the bytes, two digits per byte, high nibble first (the
/// crate's `HEX_CHARS_LOWER` table).
#[verifier::external_body]
fn hex_encode(bytes: &[u8]) -> (res: String)
    ensures
        res@ == hex_lower(bytes@),
{
    hex::encode(bytes)
}

/// A SHA-256 value as published: 64 characters, all hexadecimal digits.
pub open spec fn is_sha256_hex(t: Seq<char>) -> bool {
    t.len() == 64 && forall|i: int| 0 <= i < t.len() ==> is_hex_digit(#[trigger] t[i])
}

fn sha256_hex_exec(t: &str) -> (res: bool)
    ensures
        res == is_sha256_hex(t@),
{
    let cs = chars_of(t);
    if cs.len() != 64 {
        return false;
    }
    let mut i: usize = 0;
    while i < cs.len()
        invariant
            i <= cs.len() == 64,
            cs@ == t@,
            forall|j: int| 0 <= j < i ==> is_hex_digit(#[trigger] cs@[j]),
        decreases cs.len() - i,
    {
        if !hex_digit(cs[i]) {
            return false;
        }
        i += 1;
    }
    true
}

/// How the checksum of a downloaded asset turned out.
#[derive(Clone, Copy, Debug, PartialEq, Eq, Structural)]
pub enum ChecksumCheck {
    /// The asset names no checksum.
    NotRequested,
    /// The named checksum is not a SHA-256 value (a placeholder), so the
    /// check is skipped.
    SkippedInvalid,
    /// The digest of the bytes equals the named checksum.
    Verified,
}

/// The message of a checksum mismatch.
pub open spec fn mismatch_message(expected: Seq<char>, actual: Seq<char>) -> Seq<char> {
    "sha256 mismatch: expected "@ + expected + " got "@ + actual
}

/// Whether the downloaded `bytes` pass the checksum `expected`: there is
/// none, it is not a SHA-256 value (a placeholder, skipped), or the
/// lowercase hex digest equals it, trimmed and lowercased.
pub open spec fn checksum_passes(expected: Option<Seq<char>>, bytes: Seq<u8>) -> bool {
    match expected {
        None => true,
        Some(e) => !is_sha256_hex(trim_spec(e)) || hex_lower(sha256_of(bytes)) == lowercase_of(
            trim_spec(e),
        ),
    }
}

/// A placeholder checksum (one that is not 64 hex digits once trimmed)
/// behaves as no checksum: the install goes on whatever the bytes are.
pub proof fn law_placeholder_checksum_is_skipped(h: Seq<char>, bytes: Seq<u8>)
    requires
        !is_sha256_hex(trim_spec(h)),
    ensures
        checksum_passes(Some(h), bytes) == checksum_passes(None, bytes),
        checksum_passes(Some(h), bytes),
{
}

/// A checksum of 64 hexadecimal digits (`0`-`9`, `a`-`f` or `A`-`F`, after
/// trimming) is always checked: the bytes pass exactly when their lowercase
/// hex SHA-256 digest equals the checksum lowercased; a checksum of any other
/// form is skipped.
pub proof fn law_hex_checksum_is_checked(e: Seq<char>, bytes: Seq<u8>)
    ensures
        ({
            let t = trim_spec(e);
            t.len() == 64 && (forall|i: int|
                0 <= i < t.len() ==> ('0' <= #[trigger] t[i] <= '9') || ('a' <= t[i] <= 'f') || (
                'A' <= t[i] <= 'F'))
        }) ==> (checksum_passes(Some(e), bytes) <==> hex_lower(sha256_of(bytes)) == lowercase_of(
            trim_spec(e),
        )),
        !({
            let t = trim_spec(e);
            t.len() == 64 && (forall|i: int|
                0 <= i < t.len() ==> ('0' <= #[trigger] t[i] <= '9') || ('a' <= t[i] <= 'f') || (
                'A' <= t[i] <= 'F'))
        }) ==> checksum_passes(Some(e), bytes),
{
    let t = trim_spec(e);
    if !is_sha256_hex(t) && t.len() == 64 {
        let i = choose|i: int| 0 <= i < t.len() && !is_hex_digit(#[trigger] t[i]);
        assert(!(('0' <= t[i] <= '9') || ('a' <= t[i] <= 'f') || ('A' <= t[i] <= 'F')));
    }
}

/// A text is taken for a SHA-256 value exactly when it is 64 characters
/// long and each of them is a digit `0`-`9` or a letter `a`-`f` or `A`-`F`.
pub proof fn law_sha256_hex_form(t: Seq<char>)
    ensures
        is_sha256_hex(t) <==> (t.len() == 64 && (forall|i: int|
            0 <= i < t.len() ==> ('0' <= #[trigger] t[i] <= '9') || ('a' <= t[i] <= 'f') || (
            'A' <= t[i] <= 'F'))),
{
    if !is_sha256_hex(t) && t.len() == 64 {
        let i = choose|i: int| 0 <= i < t.len() && !is_hex_digit(#[trigger] t[i]);
        assert(!(('0' <= t[i] <= '9') || ('a' <= t[i] <= 'f') || ('A' <= t[i] <= 'F')));
    }
}

/// Check the downloaded `bytes` against the asset's SHA-256 value `expected`.
/// The value is trimmed; a value that is not 64 hex digits is skipped; else
/// the lowercase hex digest of the bytes must equal the value lowercased.
pub fn check_sha256(expected: &Option<String>, bytes: &[u8]) -> (res: Result<
    ChecksumCheck,
    InstallError,
>)
    ensures
        res is Ok <==> checksum_passes(
            match *expected {
                Some(e) => Some(e@),
                None => None,
            },
            bytes@,
        ),
        match *expected {
            None => res == Ok::<ChecksumCheck, InstallError>(ChecksumCheck::NotRequested),
            Some(e) => {
                let t = trim_spec(e@);
                let actual = hex_lower(sha256_of(bytes@));
                if !is_sha256_hex(t) {
                    res == Ok::<ChecksumCheck, InstallError>(ChecksumCheck::SkippedInvalid)
                } else if actual == lowercase_of(t) {
                    res == Ok::<ChecksumCheck, InstallError>(ChecksumCheck::Verified)
                } else {
                    res matches Err(InstallError::Other(m)) && m@ == mismatch_message(t, actual)
                }
            },
        },
{
    match expected {
        None => Ok(ChecksumCheck::NotRequested),
        Some(e) => {
            let t = trim(e.as_str());
            if !sha256_hex_exec(t.as_str()) {
                return Ok(ChecksumCheck::SkippedInvalid);
            }
            let digest = sha256_digest(bytes);
            let actual = hex_encode(digest.as_slice());
            let want = to_lowercase(t.as_str());
            if actual == want {
                Ok(ChecksumCheck::Verified)
            } else {
                let mut m = owned("sha256 mismatch: expected ");
                append_str(&mut m, t.as_str());
                append_str(&mut m, " got ");
                append_str(&mut m, actual.as_str());
                Err(InstallError::Other(m))
            }
        },
    }
}

// ---------------------------------------------------------------------------
// Unpacking
// ---------------------------------------------------------------------------

/// An archive member whose name ends with `/` is a directory.
pub fn is_directory_entry(name: &str) -> (res: bool)
    ensures
        res == has_suffix(name@, "/"@),
{
    ends_with(name, "/")
}

/// How the unpacked archive becomes the install directory.
#[derive(Clone, Copy, Debug, PartialEq, Eq, Structural)]
pub enum ExtractedLayout {
    /// A single top-level directory: it is renamed to the install directory.
    RenameSingleDir,
    /// A single top-level file: it is moved into the install directory.
    MoveSingleFile,
    /// Several top-level entries: each is moved into the install directory.
    MoveEach,
}

pub fn plan_extracted_layout(top_level_entries: usize, single_is_dir: bool) -> (res:
    ExtractedLayout)
    ensures
        top_level_entries == 1 && single_is_dir ==> res == ExtractedLayout::RenameSingleDir,
        top_level_entries == 1 && !single_is_dir ==> res == ExtractedLayout::MoveSingleFile,
        top_level_entries != 1 ==> res == ExtractedLayout::MoveEach,
{
    if top_level_entries == 1 {
        if single_is_dir {
            ExtractedLayout::RenameSingleDir
        } else {
            ExtractedLayout::MoveSingleFile
        }
    } else {
        ExtractedLayout::MoveEach
    }
}

/// The extension an old install directory is renamed with when it cannot be
/// removed: `old-{seconds}`.
pub fn backup_extension(seconds: u64) -> (res: String)
    ensures
        res@ == "old-"@ + decimal(seconds as nat),
{
    let mut s = owned("old-");
    push_decimal(&mut s, seconds);
    s
}

/// A file found under an install directory is taken as the game's executable
/// when its extension is `exe` (any ASCII case), or, having no (UTF-8)
/// extension, when its Unix permission bits make it executable by anyone.
pub open spec fn is_launchable_spec(ext: Option<Seq<char>>, unix_mode: Option<u32>) -> bool {
    match ext {
        Some(e) => eq_ignore_ascii_case_spec(e, "exe"@),
        None => match unix_mode {
            Some(m) => m & 0o111 != 0,
            None => false,
        },
    }
}

pub fn is_launchable(ext: Option<&str>, unix_mode: Option<u32>) -> (res: bool)
    ensures
        res == is_launchable_spec(
            match ext {
                Some(e) => Some(e@),
                None => None,
            },
            unix_mode,
        ),
{
    match ext {
        Some(e) => eq_ignore_ascii_case(e, "exe"),
        None => match unix_mode {
            Some(m) => m & 0o111 != 0,
            None => false,
        },
    }
}

/// A file without an extension is launchable exactly when at least one of
/// its execute bits (owner, group, others) is set, the owner's alone being
/// enough, and never when its mode is unknown; a file with an extension is
/// launchable exactly when that extension spells `exe` in any ASCII case,
/// whatever its mode.
pub proof fn law_launchable_files(ext: Seq<char>, m: u32)
    ensures
        is_launchable_spec(None, Some(m)) <==> ((m & 0o100 != 0) || (m & 0o010 != 0) || (m & 0o001
            != 0)),
        m & 0o100 != 0 ==> is_launchable_spec(None, Some(m)),
        m & 0o111 == 0 ==> !is_launchable_spec(None, Some(m)),
        !is_launchable_spec(None, None),
        is_launchable_spec(Some(ext), Some(m)) <==> is_launchable_spec(Some(ext), None),
        is_launchable_spec(Some(ext), None) <==> (ext.len() == 3 && ascii_lower(ext[0]) == 'e'
            && ascii_lower(ext[1]) == 'x' && ascii_lower(ext[2]) == 'e'),
{
    assert((m & 0o111 != 0) <==> ((m & 0o100 != 0) || (m & 0o010 != 0) || (m & 0o001 != 0)))
        by (bit_vector);
    reveal_strlit("exe");
    assert("exe"@.len() == 3);
    assert(ascii_lower("exe"@[0]) == 'e');
    assert(ascii_lower("exe"@[1]) == 'x');
    assert(ascii_lower("exe"@[2]) == 'e');
}

// ---------------------------------------------------------------------------
// The installed record
// ---------------------------------------------------------------------------

/// The record of a game installed from release `release` of `owner`/`repo`
/// with asset `asset`: its id is the repository name, its name the asset
/// name, its version the release version, its repository the GitHub URL.
pub fn installed_record(
    release: &ReleaseList,
    asset: &ReleaseAsset,
    owner: &str,
    repo: &str,
    install_path: String,
    exe_path: Option<String>,
) -> (res: InstalledGame)
    ensures
        res.id@ == repo@,
        res.name@ == asset.name@,
        res.version@ == release.latest.version@,
        res.install_path == install_path,
        res.exe_path == exe_path,
        res.repo@ == github_repo_url_spec(owner@, repo@),
        res.installed,
        res.last_checked is None,
{
    InstalledGame {
        id: owned(repo),
        name: asset.name.clone(),
        version: release.latest.version.clone(),
        install_path,
        exe_path,
        repo: github_repo_url(owner, repo),
        installed: true,
        last_checked: None,
    }
}

/// Install then update: once the record of a release of `owner`/`repo` is
/// added (its id is the repository name and its version the release
/// version), updating from that same release installs nothing.
pub proof fn law_no_update_after_installing_release(
    s: Seq<InstalledGame>,
    g: InstalledGame,
    repo: Seq<char>,
    version: Seq<char>,
)
    requires
        g.id@ == repo,
        g.version@ == version,
    ensures
        !crate::game_data::needs_update_spec(crate::game_data::add_or_update_spec(s, g), repo, version),
{
    crate::game_data::law_no_update_after_install(s, g);
}


} // verus!
