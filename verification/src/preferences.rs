//! The user's persistent preferences.
use vstd::prelude::*;

use crate::i18n::LanguagePreference;

verus! {

/// Preferences kept between runs; today only the interface language.
#[derive(Debug, Clone, Copy, PartialEq, Eq, Structural)]
pub struct Preferences {
    pub language: LanguagePreference,
}

impl Default for Preferences {
    fn default() -> (preferences: Preferences)
        ensures
            preferences.language == LanguagePreference::Auto,
    {
        Preferences { language: LanguagePreference::Auto }
    }
}

} // verus!
