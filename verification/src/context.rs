//! What resolution reads: the game's fixed content, and a snapshot of the
//! player's state.

use vstd::prelude::*;
use crate::spans::undefined_text;
use crate::strings::{join, joined, lowercase_text, str_eq, strip_prefix, texts, to_lowercase};
use crate::scripts::script_file;
use crate::variables::lookup;
use crate::audio::ChannelStatus;
use crate::manifest::Manifest;
use crate::notes::Notes;
use crate::resources::{Resources, TranslationFile};
use crate::variables::Variables;

verus! {

/// What stays the same from the moment a game is loaded: its manifest and
/// its resources.
pub struct StaticContext<'a> {
    pub config: &'a Manifest,
    pub resources: &'a Resources,
}

impl<'a> StaticContext<'a> {
    /// A static context over `config` and `resources`.
    pub fn new(config: &'a Manifest, resources: &'a Resources) -> (stc: StaticContext<'a>)
        ensures
            stc.config == config,
            stc.resources == resources,
    {
        StaticContext { config, resources }
    }

    /// Another handle on the same manifest and resources.
    pub fn duplicate(&self) -> (stc: StaticContext<'a>)
        ensures
            stc == *self,
    {
        StaticContext { config: self.config, resources: self.resources }
    }
}

/// Everything that filling a template reads: the static context, the
/// display language and snapshots of the player's notes and variables.
pub struct TextContext<'a> {
    pub stc: StaticContext<'a>,
    pub lang: String,
    pub notes: Notes,
    pub variables: Variables,
    /// What the sound channels are doing, for scripts to read.
    pub channels: Vec<ChannelStatus>,
}

impl<'a> TextContext<'a> {
    /// A text context over `stc` that owns the given snapshots.
    pub fn new(stc: &StaticContext<'a>, lang: String, notes: Notes, variables: Variables) -> (ctx:
        TextContext<'a>)
        ensures
            ctx.stc == *stc,
            ctx.lang == lang,
            ctx.notes == notes,
            ctx.variables == variables,
            ctx.channels@.len() == 0,
    {
        TextContext { stc: stc.duplicate(), lang, notes, variables, channels: Vec::new() }
    }

    /// This context with `channels` as what the sound channels are doing.
    pub fn with_channels(self, channels: Vec<ChannelStatus>) -> (ctx: TextContext<'a>)
        ensures
            ctx.stc == self.stc,
            ctx.lang == self.lang,
            ctx.notes == self.notes,
            ctx.variables == self.variables,
            ctx.channels == channels,
    {
        TextContext {
            stc: self.stc,
            lang: self.lang,
            notes: self.notes,
            variables: self.variables,
            channels,
        }
    }

    /// Whether this context is a snapshot of `player` over `stc`: it
    /// reads the same manifest and resources, and holds the language,
    /// notes and variables that the player has.
    pub open spec fn snapshot_of(&self, player: &crate::player::Player, stc: &StaticContext) -> bool {
        &&& self.stc == *stc
        &&& self.lang@ == player.lang@
        &&& self.notes@ == player.notes@
        &&& self.variables@ == player.variables@
    }

    /// The game's manifest.
    pub fn config(&self) -> (config: &Manifest)
        ensures
            config == self.stc.config,
    {
        self.stc.config
    }

    /// The game's resources.
    pub fn resources(&self) -> (resources: &Resources)
        ensures
            resources == self.stc.resources,
    {
        self.stc.resources
    }

    /// The translations of the display language, if any are loaded.
    pub open spec fn translations(&self) -> Option<TranslationFile> {
        if self.stc.resources.translations@.contains_key(self.lang@) {
            Some(self.stc.resources.translations@[self.lang@])
        } else {
            None
        }
    }

    /// The translation file of the display language, if one is loaded.
    pub fn lang_file(&self) -> (file: Option<&TranslationFile>)
        ensures
            match file {
                Some(f) => self.translations() == Some(*f),
                None => self.translations() is None,
            },
    {
        self.stc.resources.lang_file(self.lang.as_str())
    }

    /// The value of the reserved name `var`, if it is one. Reserved names
    /// start with `nage:`, in any case of letters.
    pub open spec fn global_value(&self, var: Seq<char>) -> Option<Seq<char>> {
        self.global_named(lowercase_text(var))
    }

    /// The value of the reserved name whose lower-case form is `lower`, if
    /// it is one: `nage:game_name`, `nage:game_authors`,
    /// `nage:game_version` or `nage:lang`.
    pub open spec fn global_named(&self, lower: Seq<char>) -> Option<Seq<char>> {
        if "nage:"@.is_prefix_of(lower) {
            let name = lower.skip("nage:"@.len() as int);
            if name == "game_name"@ {
                Some(self.stc.config.metadata.name@)
            } else if name == "game_authors"@ {
                Some(joined(texts(self.stc.config.metadata.authors@), ", "@))
            } else if name == "game_version"@ {
                Some(self.stc.config.metadata.version@)
            } else if name == "lang"@ {
                Some(self.lang@)
            } else {
                None
            }
        } else {
            None
        }
    }

    /// The text that stands for the interpolation `<var>`: the value of a
    /// reserved name, else the player's variable of that name, else
    /// `UNDEFINED`.
    pub open spec fn value_text(&self, var: Seq<char>) -> Seq<char> {
        match self.global_value(var) {
            Some(text) => text,
            None => match lookup(self.variables@, var) {
                Some(text) => text,
                None => undefined_text(),
            },
        }
    }

    /// Whether a script is loaded for the script call `name`.
    pub open spec fn script_known(&self, name: Seq<char>) -> bool {
        self.stc.resources.scripts.files@.contains_key(script_file(name))
    }

    /// The value of the reserved name `var`, if it is one: the game's name,
    /// its authors separated by commas, its version, or the display
    /// language.
    pub fn global_variable(&self, var: &str) -> (value: Option<String>)
        ensures
            match value {
                Some(v) => self.global_value(var@) == Some(v@),
                None => self.global_value(var@) is None,
            },
    {
        let lower = to_lowercase(var);
        self.global_of(lower.as_str())
    }

    /// The value of the reserved name whose lower-case form is `lower`, if
    /// it is one: the game's name for `nage:game_name`, its authors
    /// separated by commas for `nage:game_authors`, its version for
    /// `nage:game_version`, the display language for `nage:lang`.
    pub fn global_of(&self, lower: &str) -> (value: Option<String>)
        ensures
            match value {
                Some(v) => self.global_named(lower@) == Some(v@),
                None => self.global_named(lower@) is None,
            },
    {
        match strip_prefix(lower, "nage:") {
            Some(name) => {
                if str_eq(name.as_str(), "game_name") {
                    Some(self.stc.config.metadata.name.clone())
                } else if str_eq(name.as_str(), "game_authors") {
                    Some(join(&self.stc.config.metadata.authors, ", "))
                } else if str_eq(name.as_str(), "game_version") {
                    Some(self.stc.config.metadata.version.clone())
                } else if str_eq(name.as_str(), "lang") {
                    Some(self.lang.clone())
                } else {
                    None
                }
            },
            None => None,
        }
    }

    /// The text that stands for a name whose reserved value, if any, is
    /// `global`: that value, else the player's variable `var`, else
    /// `UNDEFINED`.
    pub fn variable_or_undefined(&self, global: Option<String>, var: &str) -> (value: String)
        ensures
            value@ == match global {
                Some(text) => text@,
                None => match lookup(self.variables@, var@) {
                    Some(text) => text,
                    None => undefined_text(),
                },
            },
    {
        match global {
            Some(text) => text,
            None => match self.variables.get(var) {
                Some(text) => text.clone(),
                None => "UNDEFINED".to_owned(),
            },
        }
    }

    /// The text that stands for the interpolation `<var>`.
    pub fn fill_variable(&self, var: &str) -> (value: String)
        ensures
            value@ == self.value_text(var@),
    {
        let global = self.global_variable(var);
        self.variable_or_undefined(global, var)
    }
}

} // verus!
