//! Release descriptions published by a game repository (`launcher/release.json`).
use vstd::prelude::*;

use crate::game_data::clone_opt_string;

verus! {

/// One downloadable file of a release.
pub struct ReleaseAsset {
    pub name: String,
    pub url: String,
    /// The asset kind (`zip`, `exe`, ...), the `type` member of the JSON.
    pub asset_type: String,
    pub sha256: Option<String>,
    pub entry_point: Option<String>,
}

impl Clone for ReleaseAsset {
    fn clone(&self) -> (res: Self)
        ensures
            res == *self,
    {
        ReleaseAsset {
            name: self.name.clone(),
            url: self.url.clone(),
            asset_type: self.asset_type.clone(),
            sha256: clone_opt_string(&self.sha256),
            entry_point: clone_opt_string(&self.entry_point),
        }
    }
}

/// One release: its version and its assets.
pub struct ReleaseInfo {
    pub version: String,
    pub assets: Vec<ReleaseAsset>,
    pub channel: Option<String>,
}

/// The releases a repository publishes; the launcher reads the latest.
pub struct ReleaseList {
    pub latest: ReleaseInfo,
}

} // verus!
