//! The ways in which resolution, validation and reversal fail.

use vstd::prelude::*;

verus! {

/// A failure while a template is resolved.
#[derive(Debug)]
pub enum ResolutionError {
    /// A script span names a script that was not loaded.
    UnknownScript { name: String },
    /// The script host failed while it evaluated a script span.
    ScriptFailed { name: String, message: String },
    /// The resolved text of a templated value is no value of its type.
    Parse { template: String, resolved: String },
}

/// A history without any entry.
#[derive(Debug, PartialEq, Eq, Clone, Copy, Structural)]
pub struct HistoryEmpty;

/// Why a choice could not be taken.
#[derive(Debug)]
pub enum ChooseError {
    /// The history holds no entry to jump from.
    HistoryEmpty,
    /// Resolving the choice failed.
    Resolution(ResolutionError),
}

/// Why a player cannot go back.
#[derive(Debug, PartialEq, Eq, Clone, Copy, Structural)]
pub enum BackError {
    /// Only one entry is left in the history.
    Exhausted,
    /// The latest entry is locked.
    Locked,
}

/// What is wrong with a sound action.
#[derive(Debug, PartialEq, Eq, Clone, Copy, Structural)]
pub enum SoundError {
    /// The sound file it names is not loaded.
    InvalidSound,
    /// The channel it names does not exist.
    InvalidChannel,
    /// Its mode needs a sound file, and it names none.
    MissingName,
    /// Its mode uses no sound file, and it names one.
    UnusedName,
}

/// A sound action that failed validation: its number in its list, counted
/// from one, and what is wrong with it.
#[derive(Debug, PartialEq, Eq, Clone, Copy, Structural)]
pub struct SoundActionError {
    pub index: usize,
    pub cause: SoundError,
}

/// An info page that is named and not loaded.
#[derive(Debug, PartialEq, Eq, Clone, Copy, Structural)]
pub struct InvalidInfoPage;

/// An info application that failed validation: its number in its list,
/// counted from one.
#[derive(Debug, PartialEq, Eq, Clone, Copy, Structural)]
pub struct InfoApplicationError {
    pub index: usize,
}

/// What is wrong with a choice.
#[derive(Debug, PartialEq, Eq, Clone, Copy, Structural)]
pub enum ChoiceError {
    /// It has neither a jump nor an ending.
    MissingJumpOrEnding,
    /// It has both a jump and an ending.
    JumpAndEnding,
    /// Its jump names a prompt file that is not loaded.
    InvalidPromptFile,
    /// Its jump names a prompt that its file does not hold.
    InvalidPrompt,
    /// It has no response, though its prompt has other choices.
    MissingResponse,
    /// It has both an input and a response.
    InputWithResponse,
    /// Its sound action number `index`, counted from one, is invalid.
    Sound { index: usize, cause: SoundError },
    /// Its info application number `index`, counted from one, names a page
    /// that is not loaded.
    InfoPage { index: usize },
}

/// What is wrong with a prompt.
#[derive(Debug, PartialEq, Eq, Clone, Copy, Structural)]
pub enum PromptError {
    /// Its choice number `index`, counted from one, is invalid.
    Choice { index: usize, cause: ChoiceError },
    /// The sound action number `sound` of its text line number `line`,
    /// both counted from one, is invalid.
    Text { line: usize, sound: usize, fault: SoundError },
}

/// A prompt that failed validation: the `prompt`-th prompt of the `file`-th
/// prompt file, both counted from zero in loading order, and what is wrong
/// with it.
#[derive(Debug, PartialEq, Eq, Clone, Copy, Structural)]
pub struct ValidationError {
    pub file: usize,
    pub prompt: usize,
    pub cause: PromptError,
}

/// A prompt that was looked up and not found.
#[derive(Debug, PartialEq, Eq, Clone, Copy, Structural)]
pub enum LookupError {
    /// No prompt file of that name is loaded.
    InvalidPromptFile,
    /// The file holds no prompt of that name.
    InvalidPrompt,
}

/// What is wrong with a manifest.
#[derive(Debug, PartialEq, Eq, Clone, Copy, Structural)]
pub enum ManifestError {
    /// The history is set to keep no entry at all.
    ZeroHistorySize,
    /// The engine's own version is no semantic version.
    InvalidEngineVersion,
    /// The requirement on the engine is no version requirement.
    InvalidRequirement,
    /// The engine's version does not meet the game's requirement.
    UnmetDependency,
}

/// Why a sound action could not be turned into a command.
#[derive(Debug)]
pub enum SoundFailure {
    /// Resolving the action failed.
    Resolution(ResolutionError),
    /// The resolved action names a channel or a sound that is not there.
    Sound(SoundError),
}

/// Why the game cannot go on at the prompt that the player is at.
#[derive(Debug)]
pub enum GameError {
    /// The history holds no entry.
    HistoryEmpty,
    /// The latest entry names a prompt that is not loaded.
    Lookup(LookupError),
    /// Resolving the prompt failed.
    Resolution(ResolutionError),
    /// The player can use none of the choices.
    NoUsableChoices,
}

} // verus!
