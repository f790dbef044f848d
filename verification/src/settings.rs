//! Launcher settings (`launcher/settings.json`).
use vstd::prelude::*;

use crate::text::{lowercase_of, owned, str_eq, to_lowercase};

verus! {

/// Where games are installed and which colour theme the launcher uses.
pub struct Settings {
    pub install_dir: String,
    pub theme: String,
}

impl Default for Settings {
    /// Install into `games`, with the dark theme.
    fn default() -> (res: Self)
        ensures
            res.install_dir@ == "games"@,
            res.theme@ == "dark"@,
    {
        Settings { install_dir: owned("games"), theme: owned("dark") }
    }
}

impl Clone for Settings {
    fn clone(&self) -> (res: Self)
        ensures
            res == *self,
    {
        Settings { install_dir: self.install_dir.clone(), theme: self.theme.clone() }
    }
}

impl Settings {
    /// The settings as loaded: the stored settings, or the defaults where
    /// none were stored yet (the file does not exist).
    pub fn load(stored: Option<Settings>) -> (res: Self)
        ensures
            match stored {
                Some(s) => res == s,
                None => res.install_dir@ == "games"@ && res.theme@ == "dark"@,
            },
    {
        match stored {
            Some(s) => s,
            None => Settings::default(),
        }
    }

    /// Whether the dark theme is selected (the theme name, lowercased, is `dark`).
    pub fn is_dark_theme(&self) -> (res: bool)
        ensures
            res == (lowercase_of(self.theme@) == "dark"@),
    {
        let t = to_lowercase(self.theme.as_str());
        str_eq(t.as_str(), "dark")
    }
}

} // verus!
