//! Scripts: named Lua sources that templates call for text.

use vstd::prelude::*;
use rand::Rng;
use rlua::{Function, Lua, Table};
use crate::audio::ChannelStatus;
use crate::context::TextContext;
use crate::error::ResolutionError;
use crate::spans::next_delimiter;
use crate::strings::{chars_of, string_of_range};
use crate::table::StringMap;
use crate::variables::variable_pairs;

verus! {

/// The Lua interpreter state of rlua. Nothing is known of what is inside.
#[verifier::external_type_specification]
#[verifier::external_body]
pub struct ExLua(Lua);

/// The error of rlua. Nothing is known of what is inside.
#[verifier::external_type_specification]
#[verifier::external_body]
pub struct ExLuaError(rlua::Error);

/// Script sources by file name.
pub type RawContents = StringMap<String>;

/// The loaded scripts and the interpreter that runs them.
#[derive(Debug)]
pub struct Scripts {
    pub files: RawContents,
    pub lua: Lua,
}

/// `Lua::new` of rlua: a fresh interpreter with the standard libraries
/// but `debug`.
#[verifier::external_body]
pub(crate) fn lua_new() -> (lua: Lua) {
    Lua::new()
}

/// A random number from rand's thread-local generator. It differs from
/// call to call.
#[verifier::external_body]
pub(crate) fn random_seed_value() -> (seed: u32) {
    rand::thread_rng().gen()
}

/// Runs `math.randomseed(seed)` in the interpreter, through rlua's `load`
/// and `exec`. The outcome is the interpreter's.
#[verifier::external_body]
pub(crate) fn lua_random_seed(lua: &Lua, seed: u32) -> (r: Result<(), rlua::Error>) {
    lua.context(|context| context.load(&format!("math.randomseed({seed})")).exec())
}

/// Sets the global `notes` of the interpreter to a sequence of the given
/// names, through rlua's `create_sequence_from` and `set`.
#[verifier::external_body]
pub(crate) fn lua_set_notes(lua: &Lua, notes: Vec<String>) -> (r: Result<(), rlua::Error>) {
    lua.context(|context| context.globals().set("notes", context.create_sequence_from(notes)?))
}

/// Sets the global `variables` of the interpreter to a table of the given
/// pairs, through rlua's `create_table_from` and `set`.
#[verifier::external_body]
pub(crate) fn lua_set_variables(lua: &Lua, variables: Vec<(String, String)>) -> (r: Result<
    (),
    rlua::Error,
>) {
    lua.context(|context| context.globals().set("variables", context.create_table_from(variables)?))
}

/// Sets the global `nage` of the interpreter to a table of the game's name,
/// authors and version and the display language, through rlua's
/// `create_table` and `set`.
#[verifier::external_body]
pub(crate) fn lua_set_globals(
    lua: &Lua,
    name: String,
    authors: Vec<String>,
    version: String,
    lang: String,
) -> (r: Result<(), rlua::Error>) {
    lua.context(|context| {
        let table = context.create_table()?;
        table.set("game_name", name)?;
        table.set("game_authors", context.create_sequence_from(authors)?)?;
        table.set("game_version", version)?;
        table.set("lang", lang)?;
        context.globals().set("nage", table)
    })
}

/// Sets the global `audio` of the interpreter to an empty table, through
/// rlua's `create_table` and `set`.
#[verifier::external_body]
pub(crate) fn lua_clear_audio(lua: &Lua) -> (r: Result<(), rlua::Error>) {
    lua.context(|context| context.globals().set("audio", context.create_table()?))
}

/// Stores in the global `audio` of the interpreter, under the name of the
/// channel, a table of what the channel is doing, through rlua's
/// `create_table`, `get` and `set`.
#[verifier::external_body]
pub(crate) fn lua_set_channel(lua: &Lua, channel: ChannelStatus) -> (r: Result<(), rlua::Error>) {
    lua.context(|context| {
        let status = context.create_table()?;
        status.set("is_playing", channel.is_playing)?;
        status.set("has_sound", channel.has_sound)?;
        status.set("has_sound_queued", channel.has_sound_queued)?;
        status.set("position", channel.position.map(|p| p.0))?;
        status.set("sound_duration", channel.position.map(|p| p.1))?;
        let audio: Table = context.globals().get("audio")?;
        audio.set(channel.name, status)
    })
}

/// Evaluates `source` in the interpreter and reads the result as a string,
/// through rlua's `load` and `eval`. The outcome is the script's.
#[verifier::external_body]
pub(crate) fn lua_eval(lua: &Lua, source: &str) -> (r: Result<String, rlua::Error>) {
    lua.context(|context| context.load(source).eval())
}

/// Evaluates `source` to a table, calls the function stored in it under
/// `function` without arguments and reads the result as a string, through
/// rlua's `eval`, `get` and `call`. The outcome is the script's.
#[verifier::external_body]
pub(crate) fn lua_eval_function(lua: &Lua, source: &str, function: &str) -> (r: Result<
    String,
    rlua::Error,
>) {
    lua.context(|context| {
        let table: Table = context.load(source).eval()?;
        let value: Function = table.get(function)?;
        value.call(())
    })
}

/// The message of an rlua error, as its `to_string` writes it.
#[verifier::external_body]
pub(crate) fn lua_error_text(error: &rlua::Error) -> (message: String) {
    error.to_string()
}

/// The file part of a script call: what stands before the first `:`, or
/// the whole name where it holds none.
pub open spec fn script_file(name: Seq<char>) -> Seq<char> {
    name.take(next_delimiter(name, ':', ':', 0))
}

/// The function part of a script call: what stands behind the first `:`,
/// if the name holds one.
pub open spec fn script_function(name: Seq<char>) -> Option<Seq<char>> {
    let colon = next_delimiter(name, ':', ':', 0);
    if colon < name.len() {
        Some(name.skip(colon + 1))
    } else {
        None
    }
}

impl Scripts {
    /// The scripts `files`, with a fresh interpreter to run them.
    pub fn new(files: RawContents) -> (scripts: Scripts)
        ensures
            scripts.files == files,
    {
        Scripts { files, lua: lua_new() }
    }

    /// Splits a script call at its first `:` into the file and the function
    /// to call in it.
    pub fn file_components(file: &str) -> (parts: (String, Option<String>))
        ensures
            parts.0@ == script_file(file@),
            match parts.1 {
                Some(f) => script_function(file@) == Some(f@),
                None => script_function(file@) is None,
            },
    {
        let v = chars_of(file);
        let mut i: usize = 0;
        while i < v.len() && v[i] != ':'
            invariant
                i <= v.len(),
                next_delimiter(v@, ':', ':', 0) == next_delimiter(v@, ':', ':', i as int),
            decreases v.len() - i,
        {
            i = i + 1;
        }
        let name = string_of_range(&v, 0, i);
        assert(name@ =~= script_file(file@));
        if i < v.len() {
            let function = string_of_range(&v, i + 1, v.len());
            assert(function@ =~= file@.skip(i + 1));
            (name, Some(function))
        } else {
            (name, None)
        }
    }

    /// Runs `source` with the snapshots of `text_context` as its globals.
    /// Whatever the interpreter answers is handed back.
    fn run(&self, source: &str, function: Option<String>, text_context: &TextContext) -> (r: Result<
        String,
        rlua::Error,
    >) {
        match lua_random_seed(&self.lua, random_seed_value()) {
            Err(e) => {
                return Err(e);
            },
            Ok(_) => {},
        }
        match lua_set_notes(&self.lua, text_context.notes.to_vec()) {
            Err(e) => {
                return Err(e);
            },
            Ok(_) => {},
        }
        match lua_set_variables(&self.lua, variable_pairs(&text_context.variables)) {
            Err(e) => {
                return Err(e);
            },
            Ok(_) => {},
        }
        let config = text_context.config();
        match lua_set_globals(
            &self.lua,
            config.metadata.name.clone(),
            config.metadata.authors.clone(),
            config.metadata.version.clone(),
            text_context.lang.clone(),
        ) {
            Err(e) => {
                return Err(e);
            },
            Ok(_) => {},
        }
        if text_context.stc.resources.audio.is_some() {
            match lua_clear_audio(&self.lua) {
                Err(e) => {
                    return Err(e);
                },
                Ok(_) => {},
            }
            let mut i: usize = 0;
            while i < text_context.channels.len()
                invariant
                    i <= text_context.channels.len(),
                decreases text_context.channels.len() - i,
            {
                match lua_set_channel(&self.lua, text_context.channels[i].clone()) {
                    Err(e) => {
                        return Err(e);
                    },
                    Ok(_) => {},
                }
                i = i + 1;
            }
        }
        match function {
            Some(f) => lua_eval_function(&self.lua, source, f.as_str()),
            None => lua_eval(&self.lua, source),
        }
    }

    /// Evaluates the script call `file` and returns the text it gives.
    ///
    /// The call fails with `UnknownScript` exactly when no script is loaded
    /// under its file part. Otherwise the interpreter decides: the text it
    /// returns, or `ScriptFailed` with its message.
    pub fn get(&self, file: &str, text_context: &TextContext) -> (r: Result<String, ResolutionError>)
        ensures
            !self.files@.contains_key(script_file(file@)) ==> (r matches Err(
                ResolutionError::UnknownScript { name },
            ) && name@ == file@),
            self.files@.contains_key(script_file(file@)) ==> (r is Ok || (r matches Err(
                ResolutionError::ScriptFailed { name, .. },
            ) && name@ == file@)),
    {
        let (name, function) = Self::file_components(file);
        match self.files.get(name.as_str()) {
            None => Err(ResolutionError::UnknownScript { name: file.to_owned() }),
            Some(source) => match self.run(source.as_str(), function, text_context) {
                Ok(text) => Ok(text),
                Err(e) => Err(
                    ResolutionError::ScriptFailed {
                        name: file.to_owned(),
                        message: lua_error_text(&e),
                    },
                ),
            },
        }
    }
}

} // verus!
