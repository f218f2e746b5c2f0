//! Choices: what a player can select at a prompt, and what follows.

use vstd::prelude::*;
use vstd::string::StringExecFns;
use crate::parse::{digits_of, number_text};
use crate::strings::{join, joined, texts};
use crate::audio::{first_sound_error, SoundAction, SoundActions};
use crate::context::{StaticContext, TextContext};
use crate::display::{Text, TextLines};
use crate::error::{ChoiceError, ResolutionError};
use crate::info::{
    first_invalid_page, pages_view, unlock_as, unlocks, InfoApplication, InfoApplications, UnlockedInfoPage,
    UnlockedPage,
};
use crate::notes::{NoteActions, NoteChange, NoteState, Notes};
use crate::path::{Path, PathData};
use crate::player::{variables_view, HistoryEntry, HistoryRecord};
use crate::prompt::{PromptFile, PromptKind, PromptModel};
use crate::table::StringMap;
use crate::templating::{TemplatableString, TemplatableValue};
use crate::variables::{
    application_changes, applications_fail, applications_script_free, records_of,
    variable_changes, NamedVariableEntry,
    VariableApplications, VariableChange, VariableEntries, VariableEntry, VariableInput,
    Variables,
};

verus! {

/// The `display` of a choice that says nothing of it.
pub fn default_true() -> (v: TemplatableValue<bool>)
    ensures
        v.source == crate::templating::ValueSource::Value(true),
{
    TemplatableValue::value(true)
}

/// A unit of consequence that a player can select.
///
/// A choice either jumps to another prompt or ends the game. It can ask for
/// notes, change notes and variables, and trigger ancillary effects.
#[derive(Debug)]
pub struct Choice {
    /// The text under which the choice is listed. Needed where the prompt
    /// has more than one choice.
    pub response: Option<Text>,
    /// A tag shown in front of the response.
    pub tag: Option<TemplatableString>,
    /// Asks the player for a text and stores it in a variable.
    pub input: Option<VariableInput>,
    /// The prompt to jump to.
    pub jump: Option<Path>,
    /// Whether the text of the prompt jumped to is shown.
    pub display: TemplatableValue<bool>,
    /// Whether the jump cannot be reversed. Where missing, the game's
    /// setting decides.
    pub lock: Option<TemplatableValue<bool>>,
    /// Notes to ask for and to change.
    pub notes: Option<NoteActions>,
    /// Variables to set without asking the player.
    pub variables: Option<VariableApplications>,
    /// A line to add to the player's log.
    pub log: Option<TemplatableString>,
    /// Info pages to unlock.
    pub info_pages: Option<InfoApplications>,
    /// Sound actions to submit.
    pub sounds: Option<SoundActions>,
    /// The lines that end the game.
    pub ending: Option<TextLines>,
    /// The detail to report as rich presence.
    pub drp: Option<TemplatableString>,
}

/// Choices in the order in which they are listed.
pub type Choices = Vec<Choice>;

/// A named variable record as plain values.
pub open spec fn input_view(input: Option<NamedVariableEntry>) -> Option<
    (Seq<char>, VariableChange),
> {
    match input {
        Some(named) => Some((named.name@, named.entry@)),
        None => None,
    }
}

/// The variable changes of a choice: those it applies by itself together
/// with the one from the player's input, which counts where both change
/// the same variable. `None` where there is neither.
pub open spec fn merged_changes(
    applied: Option<Map<Seq<char>, VariableChange>>,
    input: Option<(Seq<char>, VariableChange)>,
) -> Option<Map<Seq<char>, VariableChange>> {
    match input {
        Some((name, change)) => Some(
            match applied {
                Some(changes) => changes,
                None => Map::empty(),
            }.insert(name, change),
        ),
        None => applied,
    }
}

/// Merges the variable records that a choice applies by itself with the
/// record of the player's input. The input counts where both change the
/// same variable.
pub fn merge_variable_entries(applied: Option<VariableEntries>, input: Option<NamedVariableEntry>) -> (r:
    Option<VariableEntries>)
    ensures
        variables_view(r) == merged_changes(variables_view(applied), input_view(input)),
{
    match input {
        None => applied,
        Some(named) => {
            let mut entries = match applied {
                Some(entries) => entries,
                None => StringMap::new(),
            };
            let ghost before = entries@;
            let ghost key = named.name@;
            let ghost entry = named.entry;
            entries.insert(named.name, named.entry);
            assert(variable_changes(entries@) =~= variable_changes(before).insert(key, entry@));
            assert(variable_changes(Map::<Seq<char>, VariableEntry>::empty()) =~= Map::<
                Seq<char>,
                VariableChange,
            >::empty());
            Some(entries)
        },
    }
}

/// Whether the requirements `require`, from `from` on, hold of `notes`,
/// where resolving them calls no script. The first requirement that does
/// not hold decides; `None` where a state read before that is no boolean.
pub open spec fn requirements_outcome(
    require: Seq<NoteState>,
    notes: Set<Seq<char>>,
    ctx: &TextContext,
    from: int,
) -> Option<bool>
    decreases require.len() - from,
{
    if from < 0 || from >= require.len() {
        Some(true)
    } else {
        match require[from].state.state_value(ctx) {
            None => None,
            Some(expected) => if expected != notes.contains(require[from].state.name.plain(ctx)) {
                Some(false)
            } else {
                requirements_outcome(require, notes, ctx, from + 1)
            },
        }
    }
}

/// Where every state is a boolean, the requirements hold exactly if each
/// required note is held as its state expects.
pub proof fn lemma_requirements_outcome(
    require: Seq<NoteState>,
    notes: Set<Seq<char>>,
    ctx: &TextContext,
    from: int,
)
    requires
        0 <= from <= require.len(),
        forall|i: int| from <= i < require.len() ==> (#[trigger] require[i]).state.state_value(ctx) is Some,
    ensures
        requirements_outcome(require, notes, ctx, from) == Some(
            forall|i: int|
                from <= i < require.len() ==> (#[trigger] require[i]).state.state_value(ctx)
                    == Some(notes.contains(require[i].state.name.plain(ctx))),
        ),
    decreases require.len() - from,
{
    if from < require.len() {
        lemma_requirements_outcome(require, notes, ctx, from + 1);
        let expected = require[from].state.state_value(ctx)->0;
        if expected != notes.contains(require[from].state.name.plain(ctx)) {
            assert(require[from].state.state_value(ctx) != Some(
                notes.contains(require[from].state.name.plain(ctx)),
            ));
        }
    }
}

/// Whether each of the first `n` requirements holds of a player who holds
/// `notes`, for some state and name that it can be read as.
pub open spec fn requirements_hold_upto(
    require: Seq<NoteState>,
    notes: Set<Seq<char>>,
    ctx: &TextContext,
    n: int,
) -> bool {
    forall|i: int| 0 <= i < n ==> (#[trigger] require[i]).state.holds_as(notes, ctx, true)
}

/// Whether the requirement at `i` is the first that does not hold.
pub open spec fn refused_at(require: Seq<NoteState>, notes: Set<Seq<char>>, ctx: &TextContext, i: int) -> bool {
    &&& 0 <= i < require.len()
    &&& requirements_hold_upto(require, notes, ctx, i)
    &&& require[i].state.holds_as(notes, ctx, false)
}

/// Whether `held` says if the player holds the `once` note, for some name
/// that it fills to.
pub open spec fn once_held_as(
    once: TemplatableString,
    notes: Set<Seq<char>>,
    ctx: &TextContext,
    held: bool,
) -> bool {
    exists|name: Seq<char>| #[trigger] once.fills_to(ctx, name) && held == notes.contains(name)
}

/// A requirement whose name and state call no script holds exactly if the
/// player holds the note it names as the state it writes expects,
/// whatever other requirements of the choice call.
pub proof fn lemma_requirement_exact(
    requirement: &NoteState,
    notes: Set<Seq<char>>,
    ctx: &TextContext,
    holds: bool,
)
    requires
        requirement.state.script_free(ctx),
        requirement.state.holds_as(notes, ctx, holds),
    ensures
        requirement.state.state_value(ctx) is Some,
        holds == (requirement.state.state_value(ctx) == Some(
            notes.contains(requirement.state.name.plain(ctx)),
        )),
{
}

/// The answer of deciding on a choice says what the player holds, also
/// where scripts are called. Usable: each requirement that calls no script
/// matches what the player holds, and a `once` note that calls none is
/// not held. Not usable, with requirements and `once` note that call no
/// script at all: some requirement does not match, or the `once` note is
/// held.
pub proof fn lemma_usable_as(choice: &Choice, notes: Set<Seq<char>>, ctx: &TextContext, usable: bool)
    requires
        choice.usable_as(notes, ctx, usable),
    ensures
        usable ==> forall|i: int|
            0 <= i < choice.requirements().len() && (#[trigger] choice.requirements()[i]).state.script_free(
                ctx,
            ) ==> choice.requirements()[i].state.state_value(ctx) == Some(
                notes.contains(choice.requirements()[i].state.name.plain(ctx)),
            ),
        (usable && choice.once_note() is Some && choice.once_note()->0.script_free(ctx))
            ==> !notes.contains(choice.once_note()->0.plain(ctx)),
        (!usable && choice.usability_script_free(ctx)) ==> {
            ||| exists|i: int|
                0 <= i < choice.requirements().len() && (#[trigger] choice.requirements()[i]).state.state_value(
                    ctx,
                ) != Some(notes.contains(choice.requirements()[i].state.name.plain(ctx)))
            ||| choice.once_note() is Some && notes.contains(choice.once_note()->0.plain(ctx))
        },
{
    let require = choice.requirements();
    if usable {
        assert forall|i: int|
            0 <= i < require.len() && (#[trigger] require[i]).state.script_free(
                ctx,
            ) implies require[i].state.state_value(ctx) == Some(
            notes.contains(require[i].state.name.plain(ctx)),
        ) by {
            lemma_requirement_exact(&require[i], notes, ctx, true);
        }
    } else if choice.usability_script_free(ctx) {
        if exists|i: int| #[trigger] refused_at(require, notes, ctx, i) {
            let i = choose|i: int| #[trigger] refused_at(require, notes, ctx, i);
            lemma_requirement_exact(&require[i], notes, ctx, false);
        }
    }
}

/// Whether resolving what is read of the requirements from `from` on calls
/// no script: each requirement up to the first that does not hold or does
/// not resolve.
pub open spec fn requirements_read_free(
    require: Seq<NoteState>,
    notes: Set<Seq<char>>,
    ctx: &TextContext,
    from: int,
) -> bool
    decreases require.len() - from,
{
    if from < 0 || from >= require.len() {
        true
    } else {
        &&& require[from].state.script_free(ctx)
        &&& match require[from].state.state_value(ctx) {
            None => true,
            Some(expected) => expected != notes.contains(require[from].state.name.plain(ctx))
                || requirements_read_free(require, notes, ctx, from + 1),
        }
    }
}

/// Whether every state among the requirements `require` is a boolean.
pub open spec fn states_resolve(require: Seq<NoteState>, ctx: &TextContext) -> bool {
    forall|i: int| 0 <= i < require.len() ==> (#[trigger] require[i]).state.state_value(ctx) is Some
}

/// Whether a player who holds `notes` holds each required note exactly if
/// its state says so.
pub open spec fn requirements_match(
    require: Seq<NoteState>,
    notes: Set<Seq<char>>,
    ctx: &TextContext,
) -> bool {
    forall|i: int|
        0 <= i < require.len() ==> (#[trigger] require[i]).state.state_value(ctx) == Some(
            notes.contains(require[i].state.name.plain(ctx)),
        )
}

/// A choice cannot be used exactly when the possession of a required note
/// differs from what its state expects, or when its `once` note is held
/// already. It can be used otherwise, and always where it has no note
/// actions. (Stated where every state among the requirements is a
/// boolean.)
pub proof fn lemma_usable_by(choice: &Choice, notes: Set<Seq<char>>, ctx: &TextContext)
    requires
        choice.notes matches Some(actions) ==> (actions.require matches Some(require)
            ==> states_resolve(require@, ctx)),
    ensures
        choice.usable_by(notes, ctx) == Some(
            match choice.notes {
                Some(actions) => (match actions.require {
                    Some(require) => requirements_match(require@, notes, ctx),
                    None => true,
                }) && (match actions.once {
                    Some(once) => !notes.contains(once.plain(ctx)),
                    None => true,
                }),
                None => true,
            },
        ),
{
    if let Some(actions) = choice.notes {
        if let Some(require) = actions.require {
            lemma_requirements_outcome(require@, notes, ctx, 0);
        }
    }
}

impl Choice {
    /// What is wrong with the jump, as far as it is known without
    /// resolving anything: it names a file that is not loaded, or a prompt
    /// that its file does not hold.
    pub open spec fn jump_error(&self, local_file: Seq<char>, prompts: Map<Seq<char>, PromptFile>) -> Option<
        ChoiceError,
    > {
        match self.jump {
            Some(jump) => match jump.static_file_text(local_file) {
                Some(file) => if !prompts.contains_key(file) {
                    Some(ChoiceError::InvalidPromptFile)
                } else if !prompts[file]@.contains_key(jump.contents.prompt.content@) {
                    Some(ChoiceError::InvalidPrompt)
                } else {
                    None
                },
                None => None,
            },
            None => None,
        }
    }

    /// The first invalid sound action, if sound is loaded at all.
    pub open spec fn sound_error(&self, stc: &StaticContext) -> Option<ChoiceError> {
        match (stc.resources.audio, self.sounds) {
            (Some(audio), Some(sounds)) => match first_sound_error(sounds@, &audio, 0) {
                Some(e) => Some(ChoiceError::Sound { index: e.index, cause: e.cause }),
                None => None,
            },
            _ => None,
        }
    }

    /// The first info application that names a page which is not loaded.
    pub open spec fn info_error(&self, stc: &StaticContext) -> Option<ChoiceError> {
        match self.info_pages {
            Some(apps) => match first_invalid_page(apps@, stc.resources.info_pages@, 0) {
                Some(e) => Some(ChoiceError::InfoPage { index: e.index }),
                None => None,
            },
            None => None,
        }
    }

    /// What is wrong with the choice, if anything. The rules are taken in
    /// this order: exactly one of jump and ending; a jump that is known
    /// points to a loaded prompt; a response where the prompt has other
    /// choices; never both input and response; sounds; info pages.
    pub open spec fn first_error(&self, local_file: Seq<char>, has_company: bool, stc: &StaticContext) -> Option<
        ChoiceError,
    > {
        if self.jump is None && self.ending is None {
            Some(ChoiceError::MissingJumpOrEnding)
        } else if self.jump is Some && self.ending is Some {
            Some(ChoiceError::JumpAndEnding)
        } else if self.jump_error(local_file, stc.resources.prompts@) is Some {
            self.jump_error(local_file, stc.resources.prompts@)
        } else if has_company && self.response is None {
            Some(ChoiceError::MissingResponse)
        } else if self.input is Some && self.response is Some {
            Some(ChoiceError::InputWithResponse)
        } else if self.sound_error(stc) is Some {
            self.sound_error(stc)
        } else {
            self.info_error(stc)
        }
    }

    /// Checks the jump against the loaded prompts.
    fn validate_jump(&self, local_file: &str, stc: &StaticContext) -> (r: Result<(), ChoiceError>)
        ensures
            match r {
                Ok(_) => self.jump_error(local_file@, stc.resources.prompts@) is None,
                Err(e) => self.jump_error(local_file@, stc.resources.prompts@) == Some(e),
            },
    {
        if let Some(jump) = &self.jump {
            if let Some(file) = jump.static_file(local_file) {
                match stc.resources.prompts.get(file.as_str()) {
                    None => {
                        return Err(ChoiceError::InvalidPromptFile);
                    },
                    Some(prompt_file) => {
                        if !prompt_file.contains_key(jump.prompt().content.as_str()) {
                            return Err(ChoiceError::InvalidPrompt);
                        }
                    },
                }
            }
        }
        Ok(())
    }

    /// Checks the choice against the game's content, without resolving
    /// anything. `local_file` is the file of the prompt that owns the
    /// choice; `has_company` says whether that prompt has other choices.
    pub fn validate(&self, local_file: &str, has_company: bool, stc: &StaticContext) -> (r: Result<
        (),
        ChoiceError,
    >)
        ensures
            match r {
                Ok(_) => self.first_error(local_file@, has_company, stc) is None,
                Err(e) => self.first_error(local_file@, has_company, stc) == Some(e),
            },
    {
        if self.jump.is_none() && self.ending.is_none() {
            return Err(ChoiceError::MissingJumpOrEnding);
        }
        if self.jump.is_some() && self.ending.is_some() {
            return Err(ChoiceError::JumpAndEnding);
        }
        match self.validate_jump(local_file, stc) {
            Err(e) => {
                return Err(e);
            },
            Ok(_) => {},
        }
        if has_company && self.response.is_none() {
            return Err(ChoiceError::MissingResponse);
        }
        if self.input.is_some() && self.response.is_some() {
            return Err(ChoiceError::InputWithResponse);
        }
        if let Some(audio) = &stc.resources.audio {
            if let Some(sounds) = &self.sounds {
                match SoundAction::validate_all(sounds, audio) {
                    Err(e) => {
                        return Err(ChoiceError::Sound { index: e.index, cause: e.cause });
                    },
                    Ok(_) => {},
                }
            }
        }
        if let Some(apps) = &self.info_pages {
            match InfoApplication::validate_all(apps, &stc.resources.info_pages) {
                Err(e) => {
                    return Err(ChoiceError::InfoPage { index: e.index });
                },
                Ok(_) => {},
            }
        }
        Ok(())
    }

    /// Whether making the variable records calls no script.
    pub open spec fn variables_script_free(&self, ctx: &TextContext) -> bool {
        match self.variables {
            Some(apps) => applications_script_free(apps.applications@, ctx),
            None => true,
        }
    }

    /// The variable changes that the choice applies by itself to
    /// `variables`, where resolving them calls no script.
    pub open spec fn applied_changes(&self, variables: Map<Seq<char>, String>, ctx: &TextContext) -> Option<
        Map<Seq<char>, VariableChange>,
    > {
        match self.variables {
            Some(apps) => Some(application_changes(apps.applications@, variables, ctx)),
            None => None,
        }
    }

    /// Whether `records` are variable records that taking the choice can
    /// make: the records that its own applications can make against
    /// `variables`, merged with the record of the player's input.
    pub open spec fn variable_records(
        &self,
        variables: Map<Seq<char>, String>,
        input: Option<(Seq<char>, VariableChange)>,
        ctx: &TextContext,
        records: Option<Map<Seq<char>, VariableChange>>,
    ) -> bool {
        match self.variables {
            Some(apps) => exists|changes: Map<Seq<char>, VariableChange>| #[trigger]
                records_of(apps.applications@, variables, ctx, changes) && records
                    == merged_changes(Some(changes), input),
            None => records == merged_changes(None, input),
        }
    }

    /// The variable records of taking the choice: those it applies by
    /// itself, resolved against `variables`, together with the record of
    /// the player's input, which counts where both change the same
    /// variable. `None` where there is neither.
    pub fn create_variable_entries(
        &self,
        input: Option<NamedVariableEntry>,
        variables: &Variables,
        text_context: &TextContext,
    ) -> (r: Result<Option<VariableEntries>, ResolutionError>)
        ensures
            self.variables_script_free(text_context) ==> (r matches Ok(entries) && variables_view(
                entries,
            ) == merged_changes(
                self.applied_changes(variables@, text_context),
                input_view(input),
            )),
            r matches Ok(entries) ==> (entries is Some <==> (input is Some
                || self.variables is Some)),
            r matches Ok(entries) ==> self.variable_records(
                variables@,
                input_view(input),
                text_context,
                variables_view(entries),
            ),
            r matches Err(e) ==> self.variables is Some && applications_fail(
                self.variables->0.applications@,
                text_context,
                e,
            ),
    {
        let applied = match &self.variables {
            Some(vars) => match VariableEntry::from_map(vars, variables, text_context) {
                Ok(entries) => Some(entries),
                Err(e) => {
                    return Err(e);
                },
            },
            None => None,
        };
        Ok(merge_variable_entries(applied, input))
    }

    /// Whether making the history entry calls no script.
    pub open spec fn entry_script_free(&self, ctx: &TextContext) -> bool {
        &&& match self.jump {
            Some(jump) => jump.script_free(ctx),
            None => true,
        }
        &&& self.display.script_free(ctx)
        &&& match self.lock {
            Some(lock) => lock.script_free(ctx),
            None => true,
        }
        &&& match self.notes {
            Some(notes) => notes.entries_script_free(ctx),
            None => true,
        }
        &&& self.variables_script_free(ctx)
    }

    /// Whether `e` is a failure that making the history entry can end in:
    /// a failure of resolving the jump, of getting `display` or `lock`, of
    /// making the note records, or of resolving the variable applications.
    pub open spec fn entry_fails_as(&self, ctx: &TextContext, e: ResolutionError) -> bool {
        ||| self.jump is Some && self.jump->0.fails_as(ctx, e)
        ||| self.display.fails_as(ctx, e)
        ||| self.lock is Some && self.lock->0.fails_as(ctx, e)
        ||| self.notes is Some && self.notes->0.fails_as(ctx, e)
        ||| self.variables is Some && applications_fail(self.variables->0.applications@, ctx, e)
    }

    /// Whether `e` is a failure that resolving the info pages of the
    /// choice can end in: a failure of unlocking one of them.
    pub open spec fn pages_fail_as(&self, ctx: &TextContext, e: ResolutionError) -> bool {
        self.info_pages is Some && exists|i: int|
            0 <= i < self.info_pages->0.len() && (#[trigger] self.info_pages->0[i]).fails_as(ctx, e)
    }

    /// Whether `e` is a failure that what follows the choice can end in: a
    /// failure of filling the log line or the presence detail.
    pub open spec fn after_fails_as(&self, ctx: &TextContext, e: ResolutionError) -> bool {
        ||| self.log is Some && self.log->0.fails_as(ctx, e)
        ||| self.drp is Some && self.drp->0.fails_as(ctx, e)
    }

    /// Whether the jump is locked, where resolving it calls no script: the
    /// choice's own `lock`, or `default_lock` where it has none.
    pub open spec fn locked(&self, default_lock: bool, ctx: &TextContext) -> Option<bool> {
        match self.lock {
            Some(lock) => lock.resolved(ctx),
            None => Some(default_lock),
        }
    }

    /// The note changes of the choice, where resolving them calls no
    /// script. The outer `None` stands for a state that is no boolean.
    pub open spec fn note_changes(&self, ctx: &TextContext) -> Option<Option<Seq<NoteChange>>> {
        match self.notes {
            Some(notes) => match notes.changes(ctx) {
                Some(changes) => Some(Some(changes)),
                None => None,
            },
            None => Some(None),
        }
    }

    /// Whether every templated boolean of the history entry resolves to a
    /// boolean, where resolving calls no script: `display`, `lock` and the
    /// states of the notes to apply.
    pub open spec fn resolves(&self, default_lock: bool, ctx: &TextContext) -> bool {
        &&& self.display.resolved(ctx) is Some
        &&& self.locked(default_lock, ctx) is Some
        &&& self.note_changes(ctx) is Some
    }

    /// The history entry of taking the choice, where it has a jump and
    /// resolving it calls no script. `None` where a templated boolean
    /// resolves to a text that is none.
    pub open spec fn record(
        &self,
        latest_file: Seq<char>,
        input: Option<(Seq<char>, VariableChange)>,
        variables: Map<Seq<char>, String>,
        redirect: bool,
        default_lock: bool,
        ctx: &TextContext,
    ) -> Option<HistoryRecord> {
        match (self.display.resolved(ctx), self.locked(default_lock, ctx), self.note_changes(ctx)) {
            (Some(display), Some(locked), Some(notes)) => Some(
                HistoryRecord {
                    path: self.jump->0.filled(latest_file, ctx),
                    display,
                    locked,
                    redirect,
                    notes,
                    variables: merged_changes(self.applied_changes(variables, ctx), input),
                    log: self.log is Some,
                },
            ),
            _ => None,
        }
    }

    /// Whether `record` is a history entry that taking the choice can
    /// make: the path is one that the jump resolves to from the file
    /// `latest_file`; `display` and `lock` are values that they get, the
    /// lock falling back to `default_lock`; the note and variable records
    /// are ones that the choice can make; redirect and log flag are as
    /// given.
    pub open spec fn records_as(
        &self,
        latest_file: Seq<char>,
        input: Option<(Seq<char>, VariableChange)>,
        variables: Map<Seq<char>, String>,
        redirect: bool,
        default_lock: bool,
        ctx: &TextContext,
        record: HistoryRecord,
    ) -> bool {
        &&& self.jump matches Some(jump) && jump.fills_as(latest_file, ctx, record.path)
        &&& self.display.gets(ctx, record.display)
        &&& match self.lock {
            Some(lock) => lock.gets(ctx, record.locked),
            None => record.locked == default_lock,
        }
        &&& record.redirect == redirect
        &&& match self.notes {
            Some(notes) => record.notes matches Some(changes) && notes.records(ctx, changes),
            None => record.notes is None,
        }
        &&& self.variable_records(variables, input, ctx, record.variables)
        &&& record.log == (self.log is Some)
    }

    /// The history entry of taking the choice, or `None` if the choice has
    /// no jump and so ends the game.
    ///
    /// The jump is resolved against the path of `latest`; `lock` falls
    /// back to the game's history setting; the entry is a redirect where
    /// `model` is; the player's `input` is merged into the variable
    /// records. A log line is recorded only as a flag.
    pub fn to_history_entry(
        &self,
        latest: &HistoryEntry,
        input: Option<NamedVariableEntry>,
        variables: &Variables,
        model: &PromptModel,
        stc: &StaticContext,
        text_context: &TextContext,
    ) -> (r: Option<Result<HistoryEntry, ResolutionError>>)
        ensures
            r is None <==> self.jump is None,
            (self.jump is Some && self.entry_script_free(text_context)) ==> match self.record(
                latest.path.file@,
                input_view(input),
                variables@,
                model.kind_of() == PromptKind::Redirect,
                stc.config.settings.history.locked,
                text_context,
            ) {
                Some(record) => r matches Some(Ok(entry)) && entry@ == record,
                None => r matches Some(Err(e)) && e is Parse,
            },
            r matches Some(Ok(entry)) ==> self.records_as(
                latest.path.file@,
                input_view(input),
                variables@,
                model.kind_of() == PromptKind::Redirect,
                stc.config.settings.history.locked,
                text_context,
                entry@,
            ),
            r matches Some(Err(e)) ==> self.entry_fails_as(text_context, e),
    {
        let jump = match &self.jump {
            Some(jump) => jump,
            None => {
                return None;
            },
        };
        let path = match jump.fill(&latest.path, text_context) {
            Ok(p) => p,
            Err(e) => {
                return Some(Err(e));
            },
        };
        let display = match self.display.get_value(text_context) {
            Ok(d) => d,
            Err(e) => {
                return Some(Err(e));
            },
        };
        let locked = match &self.lock {
            Some(lock) => match lock.get_value(text_context) {
                Ok(l) => l,
                Err(e) => {
                    return Some(Err(e));
                },
            },
            None => stc.config.settings.history.locked,
        };
        let redirect = match model {
            PromptModel::Redirect(_) => true,
            _ => false,
        };
        let notes = match &self.notes {
            Some(n) => match n.to_note_entries(text_context) {
                Ok(entries) => Some(entries),
                Err(e) => {
                    return Some(Err(e));
                },
            },
            None => None,
        };
        let variables = match self.create_variable_entries(input, variables, text_context) {
            Ok(v) => v,
            Err(e) => {
                return Some(Err(e));
            },
        };
        Some(
            Ok(
                HistoryEntry {
                    path,
                    display,
                    locked,
                    redirect,
                    notes,
                    variables,
                    log: self.log.is_some(),
                },
            ),
        )
    }

    /// Whether deciding if the choice can be used calls no script.
    pub open spec fn usability_script_free(&self, ctx: &TextContext) -> bool {
        match self.notes {
            Some(actions) => {
                &&& match actions.require {
                    Some(require) => forall|i: int|
                        0 <= i < require.len() ==> (#[trigger] require[i]).state.script_free(ctx),
                    None => true,
                }
                &&& match actions.once {
                    Some(once) => once.script_free(ctx),
                    None => true,
                }
            },
            None => true,
        }
    }

    /// Whether a player who holds `notes` can use the choice, where
    /// deciding it calls no script: every requirement must hold, and the
    /// `once` note must not be held. `None` where a state read on the way
    /// is no boolean.
    pub open spec fn usable_by(&self, notes: Set<Seq<char>>, ctx: &TextContext) -> Option<bool> {
        match self.notes {
            Some(actions) => {
                let required = match actions.require {
                    Some(require) => requirements_outcome(require@, notes, ctx, 0),
                    None => Some(true),
                };
                match required {
                    Some(true) => match actions.once {
                        Some(once) => Some(!notes.contains(once.plain(ctx))),
                        None => Some(true),
                    },
                    other => other,
                }
            },
            None => Some(true),
        }
    }

    /// The requirements of the choice, in order.
    pub open spec fn requirements(&self) -> Seq<NoteState> {
        match self.notes {
            Some(actions) => match actions.require {
                Some(require) => require@,
                None => Seq::empty(),
            },
            None => Seq::empty(),
        }
    }

    /// The `once` note of the choice, if it has one.
    pub open spec fn once_note(&self) -> Option<TemplatableString> {
        match self.notes {
            Some(actions) => actions.once,
            None => None,
        }
    }

    /// Whether deciding if a player who holds `notes` can use the choice
    /// calls no script in what it reads: the requirements up to the first
    /// that does not hold, and the `once` note where all of them hold.
    pub open spec fn decides_script_free(&self, notes: Set<Seq<char>>, ctx: &TextContext) -> bool {
        &&& requirements_read_free(self.requirements(), notes, ctx, 0)
        &&& (self.once_note() is Some && requirements_outcome(self.requirements(), notes, ctx, 0)
            == Some(true)) ==> self.once_note()->0.script_free(ctx)
    }

    /// Whether `usable` is an answer that deciding on the choice can give
    /// for a player who holds `notes`. Usable: every requirement holds, for
    /// some state and name that it can be read as, and the `once` note is
    /// not held. Not usable: some requirement is the first that does not
    /// hold, or all hold and the `once` note is held.
    pub open spec fn usable_as(&self, notes: Set<Seq<char>>, ctx: &TextContext, usable: bool) -> bool {
        let require = self.requirements();
        if usable {
            &&& requirements_hold_upto(require, notes, ctx, require.len() as int)
            &&& self.once_note() is Some ==> once_held_as(self.once_note()->0, notes, ctx, false)
        } else {
            ||| exists|i: int| #[trigger] refused_at(require, notes, ctx, i)
            ||| (requirements_hold_upto(require, notes, ctx, require.len() as int)
                && self.once_note() is Some && once_held_as(self.once_note()->0, notes, ctx, true))
        }
    }

    /// Whether `e` is a failure that deciding on the choice can end in: the
    /// failure of reading a requirement before which every requirement
    /// holds, or of filling the `once` note where every requirement holds.
    pub open spec fn undecided_as(&self, notes: Set<Seq<char>>, ctx: &TextContext, e: ResolutionError) -> bool {
        let require = self.requirements();
        ||| exists|i: int|
            0 <= i < require.len() && requirements_hold_upto(require, notes, ctx, i) && (
            #[trigger] require[i]).state.fails_as(ctx, e)
        ||| (requirements_hold_upto(require, notes, ctx, require.len() as int) && self.once_note() is Some
            && self.once_note()->0.fails_as(ctx, e))
    }

    /// Whether a player who holds `notes` can use the choice.
    ///
    /// The requirements are read in order: for each, the player must hold
    /// the resolved note exactly if the resolved state says so, and the
    /// first that fails makes the choice unusable. A `once` note that the
    /// player holds makes it unusable too. A choice without note actions
    /// can always be used.
    pub fn can_player_use(&self, notes: &Notes, text_context: &TextContext) -> (r: Result<
        bool,
        ResolutionError,
    >)
        ensures
            self.usability_script_free(text_context) ==> match self.usable_by(notes@, text_context) {
                Some(b) => r == Ok::<bool, ResolutionError>(b),
                None => r matches Err(e) && e is Parse,
            },
            self.notes is None ==> r == Ok::<bool, ResolutionError>(true),
            self.decides_script_free(notes@, text_context) ==> match self.usable_by(
                notes@,
                text_context,
            ) {
                Some(b) => r == Ok::<bool, ResolutionError>(b),
                None => r matches Err(e) && e is Parse,
            },
            r matches Ok(b) ==> self.usable_as(notes@, text_context, b),
            r matches Err(e) ==> self.undecided_as(notes@, text_context, e),
    {
        if let Some(actions) = &self.notes {
            if let Some(require) = &actions.require {
                let mut i: usize = 0;
                while i < require.len()
                    invariant
                        i <= require.len(),
                        self.notes == Some(*actions),
                        actions.require == Some(*require),
                        self.requirements() == require@,
                        self.usability_script_free(text_context) ==> requirements_outcome(
                            require@,
                            notes@,
                            text_context,
                            0,
                        ) == requirements_outcome(require@, notes@, text_context, i as int),
                        self.decides_script_free(notes@, text_context) ==> (requirements_outcome(
                            require@,
                            notes@,
                            text_context,
                            0,
                        ) == requirements_outcome(require@, notes@, text_context, i as int)
                            && requirements_read_free(require@, notes@, text_context, i as int)),
                        requirements_hold_upto(require@, notes@, text_context, i as int),
                    decreases require.len() - i,
                {
                    let requirement = &require[i];
                    let state = match requirement.state.get_state(text_context) {
                        Ok(s) => s,
                        Err(e) => {
                            assert(require@[i as int].state.fails_as(text_context, e));
                            return Err(e);
                        },
                    };
                    let name = match requirement.state.name.fill(text_context) {
                        Ok(n) => n,
                        Err(e) => {
                            assert(require@[i as int].state.fails_as(text_context, e));
                            return Err(e);
                        },
                    };
                    let held = notes.contains(name.as_str());
                    proof {
                        assert(requirement.state.state_gets(text_context, state)
                            && requirement.state.name.fills_to(text_context, name@));
                        assert(requirement.state.holds_as(notes@, text_context, state == held));
                    }
                    if state != held {
                        assert(refused_at(require@, notes@, text_context, i as int));
                        return Ok(false);
                    }
                    i = i + 1;
                }
            }
            if let Some(once) = &actions.once {
                let name = match once.fill(text_context) {
                    Ok(n) => n,
                    Err(e) => {
                        return Err(e);
                    },
                };
                let held = notes.contains(name.as_str());
                assert(once_held_as(*once, notes@, text_context, held)) by {
                    assert(once.fills_to(text_context, name@));
                }
                if held {
                    return Ok(false);
                }
            }
        }
        Ok(true)
    }

    /// Whether the choice jumps to the prompt `other`, as far as its jump
    /// is known without resolving anything.
    pub open spec fn jumps_to(&self, current_file: Seq<char>, other: PathData) -> bool {
        match self.jump {
            Some(jump) => jump.static_file_text(current_file) == Some(other.file@)
                && jump.contents.prompt.content@ == other.prompt@,
            None => false,
        }
    }

    /// Whether the choice jumps to the prompt `other`, as far as its jump
    /// is known without resolving anything.
    pub fn has_jump_to(&self, current_file: &str, other: &PathData) -> (r: bool)
        ensures
            r == self.jumps_to(current_file@, *other),
    {
        match &self.jump {
            None => false,
            Some(jump) => jump.matches(current_file, other),
        }
    }

    /// Whether resolving the tag calls no script.
    pub open spec fn tag_script_free(&self, ctx: &TextContext) -> bool {
        match self.tag {
            Some(tag) => tag.script_free(ctx),
            None => true,
        }
    }

    /// The tag in front of a response, where resolving it calls no script:
    /// the resolved tag in square brackets with a space behind, or nothing
    /// where the choice has no tag.
    pub open spec fn tag_text(&self, ctx: &TextContext) -> Seq<char> {
        match self.tag {
            Some(tag) => seq!['['] + tag.plain(ctx) + "] "@,
            None => Seq::empty(),
        }
    }

    /// Whether `text` is a tag that the choice can get: something that the
    /// tag fills to, in square brackets with a space behind, or nothing
    /// where the choice has no tag.
    pub open spec fn tag_as(&self, ctx: &TextContext, text: Seq<char>) -> bool {
        match self.tag {
            Some(tag) => exists|filled: Seq<char>| #[trigger]
                tag.fills_to(ctx, filled) && text == seq!['['] + filled + "] "@,
            None => text.len() == 0,
        }
    }

    /// Whether resolving the response line calls no script.
    pub open spec fn line_script_free(&self, ctx: &TextContext) -> bool {
        &&& self.tag_script_free(ctx)
        &&& match self.response {
            Some(text) => text.script_free(ctx),
            None => true,
        }
    }

    /// Whether the mode of the response is a mode, where resolving it calls
    /// no script.
    pub open spec fn response_resolves(&self, ctx: &TextContext) -> bool {
        match self.response {
            Some(text) => text.mode.resolved(ctx) is Some,
            None => true,
        }
    }

    /// Whether `e` is a failure that writing the response line can end in:
    /// a failure of filling the tag or of showing the response.
    pub open spec fn line_fails_as(&self, ctx: &TextContext, e: ResolutionError) -> bool {
        ||| self.tag is Some && self.tag->0.fails_as(ctx, e)
        ||| self.response is Some && self.response->0.fails_as(ctx, e)
    }

    /// Whether `line` is a response line of this choice under the number
    /// `index`: the number, a bracket and a space, a tag and a response.
    /// The tag is one that the choice can get; the response is empty where
    /// the choice has none, and else whatever the terminal rendering makes
    /// of the response.
    pub open spec fn is_response_line(&self, index: nat, line: Seq<char>, ctx: &TextContext) -> bool {
        exists|tag: Seq<char>, response: Seq<char>|
            {
                &&& line == #[trigger] response_line_text(index, tag, response)
                &&& self.tag_as(ctx, tag)
                &&& self.tag_script_free(ctx) ==> tag == self.tag_text(ctx)
                &&& self.response is None ==> response == Seq::<char>::empty()
            }
    }

    /// The tag in front of a response: the resolved tag in square brackets
    /// with a space behind, or nothing where the choice has no tag.
    pub fn tag(&self, text_context: &TextContext) -> (r: Result<String, ResolutionError>)
        ensures
            self.tag_script_free(text_context) ==> (r matches Ok(text) && text@ == self.tag_text(
                text_context,
            )),
            r matches Ok(text) ==> self.tag_as(text_context, text@),
            r matches Err(e) ==> self.tag is Some && self.tag->0.fails_as(text_context, e),
    {
        proof {
            reveal_strlit("[");
        }
        match &self.tag {
            Some(tag) => match tag.fill(text_context) {
                Ok(filled) => {
                    let mut out = String::from_str("[");
                    out.append(filled.as_str());
                    out.append("] ");
                    assert(out@ =~= seq!['['] + filled@ + "] "@);
                    Ok(out)
                },
                Err(e) => Err(e),
            },
            None => Ok(String::new()),
        }
    }

    /// A response line: the number, a bracket and a space, the tag and
    /// the response.
    pub fn response_line_of(index: usize, tag: &str, response: &str) -> (line: String)
        ensures
            line@ == response_line_text(index as nat, tag@, response@),
    {
        let mut line = number_text(index);
        line.append(") ");
        line.append(tag);
        line.append(response);
        line
    }

    /// The response line of this choice under the number `index`, such as
    /// `1) [ROGUE] "Ain't no thief."`. A choice without a response has an
    /// empty response.
    ///
    /// Where resolving calls no script, the line is given exactly if the
    /// mode of the response is a mode, and a `Parse` error otherwise.
    pub fn response_line(&self, index: usize, text_context: &TextContext) -> (r: Result<
        String,
        ResolutionError,
    >)
        ensures
            r matches Ok(line) ==> self.is_response_line(index as nat, line@, text_context),
            r matches Err(e) ==> self.line_fails_as(text_context, e),
            self.line_script_free(text_context) ==> (if self.response_resolves(text_context) {
                r is Ok
            } else {
                r matches Err(e) && e is Parse
            }),
    {
        let tag = match self.tag(text_context) {
            Ok(t) => t,
            Err(e) => {
                return Err(e);
            },
        };
        let response = match &self.response {
            Some(text) => match text.get(text_context) {
                Ok(r) => r,
                Err(e) => {
                    return Err(e);
                },
            },
            None => String::new(),
        };
        let line = Self::response_line_of(index, tag.as_str(), response.as_str());
        assert(line@ == response_line_text(index as nat, tag@, response@));
        Ok(line)
    }

    /// The response lines of `choices`, one below the other. Each choice
    /// is numbered by its place in `choices`, counted from one; a choice
    /// without a response gets no line.
    ///
    /// Where resolving the lines calls no script, the text is given exactly
    /// if the mode of every response is a mode, and a `Parse` error
    /// otherwise.
    pub fn display(choices: &Vec<&Choice>, text_context: &TextContext) -> (r: Result<
        String,
        ResolutionError,
    >)
        ensures
            r matches Ok(text) ==> exists|lines: Seq<Seq<char>>|
                text@ == #[trigger] joined(lines, "\n"@) && lines.len() == responding(
                    choices@,
                    choices.len() as int,
                ) && response_lines(choices@, choices.len() as int, lines, text_context),
            lines_script_free(choices@, text_context) ==> (if lines_resolve(choices@, text_context) {
                r is Ok
            } else {
                r matches Err(e) && e is Parse
            }),
            r matches Err(e) ==> exists|i: int|
                0 <= i < choices.len() && (#[trigger] choices[i]).response is Some
                    && choices[i].line_fails_as(text_context, e),
    {
        let mut lines: Vec<String> = Vec::new();
        let mut i: usize = 0;
        assert(texts(lines@) =~= Seq::<Seq<char>>::empty());
        while i < choices.len()
            invariant
                i <= choices.len(),
                lines.len() == responding(choices@, i as int),
                response_lines(choices@, i as int, texts(lines@), text_context),
                lines_script_free(choices@, text_context) ==> forall|k: int|
                    0 <= k < i ==> (#[trigger] choices[k]).response_resolves(text_context),
            decreases choices.len() - i,
        {
            if choices[i].response.is_some() {
                let ghost before = texts(lines@);
                match choices[i].response_line(i + 1, text_context) {
                    Ok(line) => {
                        lines.push(line);
                        proof {
                            assert(texts(lines@) =~= before.push(line@));
                            assert(texts(lines@).drop_last() =~= before);
                        }
                    },
                    Err(e) => {
                        assert(choices@[i as int].response is Some && choices@[i as int].line_fails_as(
                            text_context,
                            e,
                        ));
                        return Err(e);
                    },
                }
            }
            i = i + 1;
        }
        let out = join(&lines, "\n");
        assert(texts(lines@).len() == lines.len());
        Ok(out)
    }
}

/// Whether resolving what follows a choice calls a script depends on the
/// game's content and the display language alone.
pub proof fn lemma_after_script_free_by_language(choice: &Choice, a: &TextContext, b: &TextContext)
    requires
        a.stc == b.stc,
        a.lang@ == b.lang@,
    ensures
        choice.after_script_free(a) == choice.after_script_free(b),
{
    if let Some(log) = choice.log {
        log.lemma_script_free_by_language(a, b);
    }
    if let Some(detail) = choice.drp {
        detail.lemma_script_free_by_language(a, b);
    }
}

impl Choice {
    /// Whether taking the choice and doing what follows it is owed to
    /// succeed for a player at the file `latest_file`: resolving calls no
    /// script, and every templated boolean resolves to a boolean.
    pub open spec fn takes(&self, default_lock: bool, ctx: &TextContext) -> bool {
        &&& self.jump is Some ==> self.entry_script_free(ctx) && self.pages_script_free(ctx)
            && self.resolves(default_lock, ctx)
        &&& self.after_script_free(ctx)
    }

    /// Whether resolving the info pages that the choice unlocks calls no
    /// script.
    pub open spec fn pages_script_free(&self, ctx: &TextContext) -> bool {
        match self.info_pages {
            Some(apps) => forall|i: int| 0 <= i < apps.len() ==> (#[trigger] apps[i]).script_free(ctx),
            None => true,
        }
    }

    /// The info pages that the choice unlocks, where resolving them calls
    /// no script.
    pub open spec fn unlocked_pages(&self, ctx: &TextContext) -> Seq<UnlockedPage> {
        match self.info_pages {
            Some(apps) => unlocks(apps@, ctx),
            None => Seq::empty(),
        }
    }

    /// Whether `pages` are info pages that the choice can unlock: one for
    /// each of its info applications, in order.
    pub open spec fn unlocks_as(&self, ctx: &TextContext, pages: Seq<UnlockedPage>) -> bool {
        match self.info_pages {
            Some(apps) => unlock_as(apps@, ctx, pages),
            None => pages.len() == 0,
        }
    }

    /// Whether resolving what follows the choice, its log line and its
    /// presence detail, calls no script.
    pub open spec fn after_script_free(&self, ctx: &TextContext) -> bool {
        &&& match self.log {
            Some(log) => log.script_free(ctx),
            None => true,
        }
        &&& match self.drp {
            Some(detail) => detail.script_free(ctx),
            None => true,
        }
    }

    /// Resolves the info pages that the choice unlocks, in order.
    pub fn resolve_pages(&self, text_context: &TextContext) -> (r: Result<
        Vec<UnlockedInfoPage>,
        ResolutionError,
    >)
        ensures
            self.pages_script_free(text_context) ==> (r matches Ok(pages) && pages_view(pages@)
                == self.unlocked_pages(text_context)),
            self.info_pages is None ==> r is Ok,
            r matches Ok(pages) ==> self.unlocks_as(text_context, pages_view(pages@)),
            r matches Err(e) ==> self.pages_fail_as(text_context, e),
    {
        let mut pages: Vec<UnlockedInfoPage> = Vec::new();
        assert(pages_view(pages@) =~= Seq::<UnlockedPage>::empty());
        if let Some(apps) = &self.info_pages {
            let mut i: usize = 0;
            assert(unlocks(apps@.take(0), text_context) =~= Seq::<UnlockedPage>::empty());
            while i < apps.len()
                invariant
                    i <= apps.len(),
                    self.info_pages == Some(*apps),
                    self.pages_script_free(text_context) ==> pages_view(pages@) == unlocks(
                        apps@.take(i as int),
                        text_context,
                    ),
                    pages.len() == i,
                    forall|k: int|
                        0 <= k < i ==> (#[trigger] apps[k]).unlocks_as(text_context, pages_view(pages@)[k]),
                decreases apps.len() - i,
            {
                let ghost before = pages_view(pages@);
                match apps[i].to_unlocked(text_context) {
                    Ok(page) => {
                        pages.push(page);
                        proof {
                            assert(pages_view(pages@) =~= before.push(page@));
                            assert(unlocks(apps@.take(i + 1), text_context) =~= unlocks(
                                apps@.take(i as int),
                                text_context,
                            ).push(apps[i as int].unlocked(text_context)));
                        }
                    },
                    Err(e) => {
                        assert(self.info_pages->0[i as int].fails_as(text_context, e));
                        return Err(e);
                    },
                }
                i = i + 1;
            }
            assert(apps@.take(apps.len() as int) =~= apps@);
        }
        Ok(pages)
    }
}

/// How many of the first `n` of `choices` have a response.
pub open spec fn responding(choices: Seq<&Choice>, n: int) -> nat
    decreases n,
{
    if n <= 0 {
        0
    } else if choices[n - 1].response is Some {
        responding(choices, n - 1) + 1
    } else {
        responding(choices, n - 1)
    }
}

/// Whether `lines` are the response lines of the first `n` of `choices`:
/// one line for each choice that has a response, in order, under the
/// number of the choice's place in `choices`, counted from one.
pub open spec fn response_lines(
    choices: Seq<&Choice>,
    n: int,
    lines: Seq<Seq<char>>,
    ctx: &TextContext,
) -> bool
    decreases n,
{
    if n <= 0 {
        lines.len() == 0
    } else if choices[n - 1].response is Some {
        &&& lines.len() > 0
        &&& choices[n - 1].is_response_line(n as nat, lines.last(), ctx)
        &&& response_lines(choices, n - 1, lines.drop_last(), ctx)
    } else {
        response_lines(choices, n - 1, lines, ctx)
    }
}

/// Whether resolving the response line of each of `choices` that has a
/// response calls no script.
pub open spec fn lines_script_free(choices: Seq<&Choice>, ctx: &TextContext) -> bool {
    forall|i: int|
        0 <= i < choices.len() && (#[trigger] choices[i]).response is Some ==> choices[i].line_script_free(
            ctx,
        )
}

/// Whether the mode of every response among `choices` is a mode, where
/// resolving it calls no script.
pub open spec fn lines_resolve(choices: Seq<&Choice>, ctx: &TextContext) -> bool {
    forall|i: int| 0 <= i < choices.len() ==> (#[trigger] choices[i]).response_resolves(ctx)
}

/// A response line: the number, a bracket and a space, the tag and the
/// response.
pub open spec fn response_line_text(index: nat, tag: Seq<char>, response: Seq<char>) -> Seq<char> {
    digits_of(index) + ") "@ + tag + response
}

} // verus!
