//! The loaded content of a game.

use vstd::prelude::*;
use crate::audio::Audio;
use crate::info::InfoPages;
use crate::prompt::Prompts;
use crate::scripts::Scripts;
use crate::table::StringMap;

verus! {

/// The translations of one language: key to text.
pub type TranslationFile = StringMap<String>;

/// All translations: language code to translation file.
pub type Translations = StringMap<TranslationFile>;

/// Everything a game loads besides its manifest.
#[derive(Debug)]
pub struct Resources {
    pub prompts: Prompts,
    pub translations: Translations,
    pub info_pages: InfoPages,
    pub scripts: Scripts,
    pub audio: Option<Audio>,
}

impl Resources {
    /// The translation file of `lang`, if one is loaded.
    pub fn lang_file(&self, lang: &str) -> (file: Option<&TranslationFile>)
        ensures
            match file {
                Some(f) => self.translations@.contains_key(lang@) && *f == self.translations@[lang@],
                None => !self.translations@.contains_key(lang@),
            },
    {
        self.translations.get(lang)
    }
}

} // verus!
