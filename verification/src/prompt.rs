//! Prompts: the nodes of the narrative.

use vstd::prelude::*;
use vstd::string::StringExecFns;
use crate::parse::{digits_of, number_text};
use crate::strings::{join, joined, texts};
use crate::choice::{Choice, Choices};
use crate::context::{StaticContext, TextContext};
use crate::display::{first_text_error, Text, TextLines};
use crate::error::{LookupError, PromptError, ResolutionError, ValidationError};
use crate::notes::Notes;
use crate::path::PathData;
use crate::table::StringMap;
use crate::templating::TemplatableString;

verus! {

/// A node of the narrative: an optional introduction and the choices that
/// lead on from it.
#[derive(Debug)]
pub struct Prompt {
    pub text: Option<TextLines>,
    pub choices: Choices,
}

/// The interaction mode of a prompt.
#[derive(Debug, PartialEq, Eq, Clone, Copy, Structural)]
pub enum PromptKind {
    /// One choice, which takes a text from the player.
    Input,
    /// The player picks one of the choices.
    Response,
    /// One choice, which jumps on without asking the player.
    Redirect,
    /// One choice, which ends the game.
    Ending,
}

/// The interaction mode of a prompt, with what the mode works on.
#[derive(Debug)]
pub enum PromptModel<'a> {
    /// One choice with an `input`: the resolved name of the variable, and
    /// the custom prompt, if any.
    Input(String, Option<&'a TemplatableString>),
    /// The standard model: the player picks one of the choices.
    Response,
    /// One choice without response or input: it jumps on at once.
    Redirect(&'a Choice),
    /// One choice that ends the game with the given lines.
    Ending(&'a TextLines),
}

impl<'a> PromptModel<'a> {
    /// The mode without what it works on.
    pub open spec fn kind_of(&self) -> PromptKind {
        match self {
            PromptModel::Input(_, _) => PromptKind::Input,
            PromptModel::Response => PromptKind::Response,
            PromptModel::Redirect(_) => PromptKind::Redirect,
            PromptModel::Ending(_) => PromptKind::Ending,
        }
    }

    /// A readable description of the model: its name, then what it does.
    pub fn description(&self) -> (text: String)
        ensures
            text@ == match self {
                PromptModel::Input(name, _) => "Input; takes user input for the variable '"@
                    + name@ + "'"@,
                PromptModel::Response => "Response; standard prompt-choice model"@,
                PromptModel::Redirect(_) => "Redirect; jumps to another prompt without input"@,
                PromptModel::Ending(_) => "Ending; the game is forced to end"@,
            },
    {
        match self {
            PromptModel::Input(name, _) => {
                let mut out = String::from_str("Input; takes user input for the variable '");
                out.append(name.as_str());
                out.append("'");
                out
            },
            PromptModel::Response => String::from_str("Response; standard prompt-choice model"),
            PromptModel::Redirect(_) => String::from_str(
                "Redirect; jumps to another prompt without input",
            ),
            PromptModel::Ending(_) => String::from_str("Ending; the game is forced to end"),
        }
    }

    /// The model with `Model: ` in front of its description.
    pub fn to_string(&self) -> (text: String)
        ensures
            text@ == "Model: "@ + self.description_text(),
    {
        let mut out = String::from_str("Model: ");
        out.append(self.description().as_str());
        out
    }

    /// The description of the model.
    pub open spec fn description_text(&self) -> Seq<char> {
        match self {
            PromptModel::Input(name, _) => "Input; takes user input for the variable '"@ + name@
                + "'"@,
            PromptModel::Response => "Response; standard prompt-choice model"@,
            PromptModel::Redirect(_) => "Redirect; jumps to another prompt without input"@,
            PromptModel::Ending(_) => "Ending; the game is forced to end"@,
        }
    }

    /// The mode without what it works on.
    pub fn kind(&self) -> (kind: PromptKind)
        ensures
            kind == self.kind_of(),
    {
        match self {
            PromptModel::Input(_, _) => PromptKind::Input,
            PromptModel::Response => PromptKind::Response,
            PromptModel::Redirect(_) => PromptKind::Redirect,
            PromptModel::Ending(_) => PromptKind::Ending,
        }
    }
}

/// The prompts of one file, by name.
pub type PromptFile = StringMap<Prompt>;

/// All prompts: file name to the prompts of that file.
pub type Prompts = StringMap<PromptFile>;

/// The first of `choices`, from `from` on, that is invalid, as the error of
/// its prompt.
pub open spec fn first_choice_error(
    choices: Seq<Choice>,
    file: Seq<char>,
    stc: &StaticContext,
    from: int,
) -> Option<PromptError>
    decreases choices.len() - from,
{
    if from < 0 || from >= choices.len() {
        None
    } else {
        match choices[from].first_error(file, choices.len() > 1, stc) {
            Some(cause) => Some(PromptError::Choice { index: (from + 1) as usize, cause }),
            None => first_choice_error(choices, file, stc, from + 1),
        }
    }
}

/// Where the choice at `i` is invalid, the search from `from` finds an
/// invalid choice at `i` or before it.
pub proof fn lemma_first_choice_error(
    choices: Seq<Choice>,
    file: Seq<char>,
    stc: &StaticContext,
    from: int,
    i: int,
)
    requires
        0 <= from <= i < choices.len(),
        choices[i].first_error(file, choices.len() > 1, stc) is Some,
    ensures
        first_choice_error(choices, file, stc, from) is Some,
        first_choice_error(choices, file, stc, from)->0 is Choice,
        (forall|k: int|
            from <= k < i ==> (#[trigger] choices[k]).first_error(file, choices.len() > 1, stc)
                is None) ==> first_choice_error(choices, file, stc, from) == Some(
            PromptError::Choice {
                index: (i + 1) as usize,
                cause: choices[i].first_error(file, choices.len() > 1, stc)->0,
            },
        ),
    decreases i - from,
{
    if from < i && choices[from].first_error(file, choices.len() > 1, stc) is None {
        lemma_first_choice_error(choices, file, stc, from + 1, i);
    }
}

/// A prompt whose single choice has both an input and a response is
/// invalid.
pub proof fn lemma_input_with_response_is_invalid(prompt: &Prompt, file: Seq<char>, stc: &StaticContext)
    requires
        prompt.choices.len() == 1,
        prompt.choices[0].input is Some,
        prompt.choices[0].response is Some,
    ensures
        prompt.first_error(file, stc) is Some,
        prompt.first_error(file, stc) matches Some(PromptError::Choice { index, cause })
            && index == 1 && (prompt.choices[0].jump is Some && prompt.choices[0].ending is None
            && prompt.choices[0].jump_error(file, stc.resources.prompts@) is None ==> cause
            == crate::error::ChoiceError::InputWithResponse),
{
    lemma_first_choice_error(prompt.choices@, file, stc, 0, 0);
}

/// A prompt with several choices of which one has no response is invalid.
/// Where that choice is the first invalid one and has exactly one of jump
/// and ending, and a jump that points to a loaded prompt, the error names
/// the missing response.
pub proof fn lemma_missing_response_is_invalid(
    prompt: &Prompt,
    file: Seq<char>,
    stc: &StaticContext,
    i: int,
)
    requires
        prompt.choices.len() > 1,
        0 <= i < prompt.choices.len(),
        prompt.choices[i].response is None,
    ensures
        prompt.first_error(file, stc) is Some,
        prompt.first_error(file, stc)->0 is Choice,
        ((forall|k: int|
            0 <= k < i ==> (#[trigger] prompt.choices[k]).first_error(file, true, stc) is None) && (
        prompt.choices[i].jump is Some != prompt.choices[i].ending is Some)
            && prompt.choices[i].jump_error(file, stc.resources.prompts@) is None)
            ==> prompt.first_error(file, stc) == Some(
            PromptError::Choice {
                index: (i + 1) as usize,
                cause: crate::error::ChoiceError::MissingResponse,
            },
        ),
{
    lemma_first_choice_error(prompt.choices@, file, stc, 0, i);
}

/// The first of the prompts `prompts` of the file `file`, from `from` on,
/// that is invalid: its position and what is wrong with it.
pub open spec fn first_prompt_error(
    prompts: Seq<(String, Prompt)>,
    file: Seq<char>,
    stc: &StaticContext,
    from: int,
) -> Option<(int, PromptError)>
    decreases prompts.len() - from,
{
    if from < 0 || from >= prompts.len() {
        None
    } else {
        match prompts[from].1.first_error(file, stc) {
            Some(cause) => Some((from, cause)),
            None => first_prompt_error(prompts, file, stc, from + 1),
        }
    }
}

/// The first invalid prompt of the prompt files `files`, from the file
/// `from` on.
pub open spec fn first_validation_error(
    files: Seq<(String, PromptFile)>,
    stc: &StaticContext,
    from: int,
) -> Option<ValidationError>
    decreases files.len() - from,
{
    if from < 0 || from >= files.len() {
        None
    } else {
        match first_prompt_error(files[from].1.entries(), files[from].0@, stc, 0) {
            Some((prompt, cause)) => Some(
                ValidationError { file: from as usize, prompt: prompt as usize, cause },
            ),
            None => first_validation_error(files, stc, from + 1),
        }
    }
}

/// The positions, counted from zero, of those of the first `n` choices that
/// a player who holds `notes` can use, where deciding it calls no script.
/// `None` where a state read on the way is no boolean.
pub open spec fn usable_positions(
    choices: Seq<Choice>,
    notes: Set<Seq<char>>,
    ctx: &TextContext,
    n: int,
) -> Option<Seq<int>>
    decreases n,
{
    if n <= 0 {
        Some(Seq::empty())
    } else {
        match (usable_positions(choices, notes, ctx, n - 1), choices[n - 1].usable_by(notes, ctx)) {
            (Some(before), Some(usable)) => Some(
                if usable {
                    before.push(n - 1)
                } else {
                    before
                },
            ),
            _ => None,
        }
    }
}

/// Whether one of `usable` carries the number `n`.
pub open spec fn numbered(usable: Seq<(usize, &Choice)>, n: int) -> bool {
    exists|k: int| 0 <= k < usable.len() && (#[trigger] usable[k]).0 == n
}

/// Whether `usable` holds, of the first `n` of `choices`, exactly those
/// that deciding found usable for a player who holds `notes`: a choice is
/// in, under its number counted from one, where the answer for it was
/// usable, and left out where it was not.
pub open spec fn sorted_out(
    choices: Seq<Choice>,
    notes: Set<Seq<char>>,
    ctx: &TextContext,
    usable: Seq<(usize, &Choice)>,
    n: int,
) -> bool {
    forall|i: int|
        0 <= i < n ==> (#[trigger] choices[i]).usable_as(notes, ctx, numbered(usable, i + 1))
}

/// Where the usable positions among the first `n` choices cannot be told,
/// those among more choices cannot be told either.
pub proof fn lemma_usable_positions_fail(
    choices: Seq<Choice>,
    notes: Set<Seq<char>>,
    ctx: &TextContext,
    n: int,
    m: int,
)
    requires
        0 <= n <= m,
        usable_positions(choices, notes, ctx, n) is None,
    ensures
        usable_positions(choices, notes, ctx, m) is None,
    decreases m - n,
{
    if n < m {
        lemma_usable_positions_fail(choices, notes, ctx, n, m - 1);
    }
}

/// The positions, counted from zero, of those of the first `n` choices that
/// jump to the prompt `other`, as far as is known without resolving
/// anything.
pub open spec fn jump_positions(choices: Seq<Choice>, current_file: Seq<char>, other: PathData, n: int) -> Seq<
    usize,
>
    decreases n,
{
    if n <= 0 {
        Seq::empty()
    } else if choices[n - 1].jumps_to(current_file, other) {
        jump_positions(choices, current_file, other, n - 1).push((n - 1) as usize)
    } else {
        jump_positions(choices, current_file, other, n - 1)
    }
}

impl Prompt {
    /// The prompt file `file`, or `InvalidPromptFile`.
    pub fn get_file<'a>(prompts: &'a Prompts, file: &str) -> (r: Result<&'a PromptFile, LookupError>)
        ensures
            match r {
                Ok(f) => prompts@.contains_key(file@) && *f == prompts@[file@],
                Err(e) => !prompts@.contains_key(file@) && e == LookupError::InvalidPromptFile,
            },
    {
        match prompts.get(file) {
            Some(f) => Ok(f),
            None => Err(LookupError::InvalidPromptFile),
        }
    }

    /// The prompt that `path` names, or the reason why there is none: its
    /// file is not loaded, or the file does not hold the prompt.
    pub fn get<'a>(prompts: &'a Prompts, path: &PathData) -> (r: Result<&'a Prompt, LookupError>)
        ensures
            match r {
                Ok(p) => prompts@.contains_key(path.file@) && prompts@[path.file@]@.contains_key(
                    path.prompt@,
                ) && *p == prompts@[path.file@]@[path.prompt@],
                Err(LookupError::InvalidPromptFile) => !prompts@.contains_key(path.file@),
                Err(LookupError::InvalidPrompt) => prompts@.contains_key(path.file@)
                    && !prompts@[path.file@]@.contains_key(path.prompt@),
            },
    {
        match Self::get_file(prompts, path.file.as_str()) {
            Ok(prompt_file) => match prompt_file.get(path.prompt.as_str()) {
                Some(p) => Ok(p),
                None => Err(LookupError::InvalidPrompt),
            },
            Err(e) => Err(e),
        }
    }

    /// What is wrong with the prompt, if anything: its first invalid
    /// choice, else, where sound is loaded, the first invalid sound action
    /// of its text.
    pub open spec fn first_error(&self, file: Seq<char>, stc: &StaticContext) -> Option<PromptError> {
        match first_choice_error(self.choices@, file, stc, 0) {
            Some(e) => Some(e),
            None => match (stc.resources.audio, self.text) {
                (Some(audio), Some(lines)) => first_text_error(lines@, &audio, 0),
                _ => None,
            },
        }
    }

    /// Checks the prompt of the file `file`: its choices in order, then the
    /// sound actions of its text.
    pub fn validate(&self, file: &str, stc: &StaticContext) -> (r: Result<(), PromptError>)
        ensures
            match r {
                Ok(_) => self.first_error(file@, stc) is None,
                Err(e) => self.first_error(file@, stc) == Some(e),
            },
    {
        let has_company = self.choices.len() > 1;
        let mut i: usize = 0;
        while i < self.choices.len()
            invariant
                i <= self.choices.len(),
                has_company == (self.choices.len() > 1),
                first_choice_error(self.choices@, file@, stc, 0) == first_choice_error(
                    self.choices@,
                    file@,
                    stc,
                    i as int,
                ),
            decreases self.choices.len() - i,
        {
            match self.choices[i].validate(file, has_company, stc) {
                Ok(_) => {},
                Err(cause) => {
                    return Err(PromptError::Choice { index: i + 1, cause });
                },
            }
            i = i + 1;
        }
        if let Some(audio) = &stc.resources.audio {
            if let Some(lines) = &self.text {
                return Text::validate_all(lines, audio);
            }
        }
        Ok(())
    }

    /// Checks the prompts of one file in order.
    fn validate_file(file_name: &str, prompt_file: &PromptFile, stc: &StaticContext) -> (r: Result<
        (),
        (usize, PromptError),
    >)
        ensures
            match r {
                Ok(_) => first_prompt_error(prompt_file.entries(), file_name@, stc, 0) is None,
                Err((i, cause)) => first_prompt_error(prompt_file.entries(), file_name@, stc, 0)
                    == Some((i as int, cause)),
            },
    {
        let n = prompt_file.len();
        let mut i: usize = 0;
        while i < n
            invariant
                i <= n,
                n == prompt_file.entries().len(),
                first_prompt_error(prompt_file.entries(), file_name@, stc, 0) == first_prompt_error(
                    prompt_file.entries(),
                    file_name@,
                    stc,
                    i as int,
                ),
            decreases n - i,
        {
            match prompt_file.value_at(i).validate(file_name, stc) {
                Ok(_) => {},
                Err(cause) => {
                    return Err((i, cause));
                },
            }
            i = i + 1;
        }
        Ok(())
    }

    /// Checks every loaded prompt, file by file in loading order, and
    /// reports the first that is invalid.
    pub fn validate_all(stc: &StaticContext) -> (r: Result<(), ValidationError>)
        ensures
            match r {
                Ok(_) => first_validation_error(stc.resources.prompts.entries(), stc, 0) is None,
                Err(e) => first_validation_error(stc.resources.prompts.entries(), stc, 0) == Some(e),
            },
    {
        let prompts = &stc.resources.prompts;
        let n = prompts.len();
        let mut i: usize = 0;
        while i < n
            invariant
                i <= n,
                n == prompts.entries().len(),
                prompts == &stc.resources.prompts,
                first_validation_error(prompts.entries(), stc, 0) == first_validation_error(
                    prompts.entries(),
                    stc,
                    i as int,
                ),
            decreases n - i,
        {
            match Self::validate_file(prompts.key_at(i).as_str(), prompts.value_at(i), stc) {
                Ok(_) => {},
                Err((prompt, cause)) => {
                    return Err(ValidationError { file: i, prompt, cause });
                },
            }
            i = i + 1;
        }
        Ok(())
    }

    /// The interaction mode of the prompt. It depends on the shape of the
    /// choices alone.
    pub open spec fn kind_of(&self) -> PromptKind {
        if self.choices.len() == 1 {
            let choice = self.choices[0];
            if choice.input is Some {
                PromptKind::Input
            } else if choice.response is None {
                if choice.ending is Some {
                    PromptKind::Ending
                } else {
                    PromptKind::Redirect
                }
            } else {
                PromptKind::Response
            }
        } else {
            PromptKind::Response
        }
    }

    /// The interaction mode of the prompt: `Input` for a single choice
    /// with an input; `Ending` for a single choice without input and
    /// response that has an ending; `Redirect` for a single choice without
    /// input, response and ending; `Response` in every other case.
    pub fn kind(&self) -> (kind: PromptKind)
        ensures
            kind == self.kind_of(),
    {
        if self.choices.len() == 1 {
            let choice = &self.choices[0];
            if choice.input.is_some() {
                return PromptKind::Input;
            } else if choice.response.is_none() {
                if choice.ending.is_some() {
                    return PromptKind::Ending;
                }
                return PromptKind::Redirect;
            }
        }
        PromptKind::Response
    }

    /// Whether `model` is a model of this prompt: it is of the prompt's
    /// kind; an input holds a name that the input's name fills to, and
    /// the custom prompt of the input; a redirect holds the one choice;
    /// an ending the lines of the ending.
    pub open spec fn models_as(&self, ctx: &TextContext, model: PromptModel) -> bool {
        &&& model.kind_of() == self.kind_of()
        &&& match model {
            PromptModel::Input(name, text) => {
                &&& match text {
                    Some(t) => self.choices[0].input->0.text == Some(*t),
                    None => self.choices[0].input->0.text is None,
                }
                &&& self.choices[0].input->0.name.fills_to(ctx, name@)
            },
            PromptModel::Response => true,
            PromptModel::Redirect(choice) => *choice == self.choices[0],
            PromptModel::Ending(lines) => self.choices[0].ending == Some(*lines),
        }
    }

    /// The interaction mode of the prompt with what it works on: the
    /// resolved variable name and the custom prompt of an input, the
    /// choice of a redirect, the lines of an ending.
    ///
    /// Only the name of an input is resolved, so every other model is
    /// always given.
    pub fn model<'a>(&'a self, text_context: &TextContext) -> (r: Result<
        PromptModel<'a>,
        ResolutionError,
    >)
        ensures
            r matches Ok(model) ==> self.models_as(text_context, model),
            r matches Err(e) ==> self.kind_of() == PromptKind::Input && self.choices[0].input->0.name.fails_as(
                text_context,
                e,
            ),
            self.kind_of() != PromptKind::Input ==> r is Ok,
            (self.kind_of() == PromptKind::Input && self.choices[0].input->0.name.script_free(
                text_context,
            )) ==> r is Ok,
    {
        if self.choices.len() == 1 {
            let choice = &self.choices[0];
            if let Some(input) = &choice.input {
                return match input.name.fill(text_context) {
                    Ok(name) => Ok(PromptModel::Input(name, input.text.as_ref())),
                    Err(e) => Err(e),
                };
            } else if choice.response.is_none() {
                if let Some(ending) = &choice.ending {
                    return Ok(PromptModel::Ending(ending));
                }
                return Ok(PromptModel::Redirect(choice));
            }
        }
        Ok(PromptModel::Response)
    }

    /// Whether opening a turn at this prompt calls no script: neither the
    /// name of an input nor deciding which choices can be used.
    pub open spec fn turn_script_free(&self, ctx: &TextContext) -> bool {
        &&& self.usability_script_free(ctx)
        &&& self.kind_of() == PromptKind::Input ==> self.choices[0].input->0.name.script_free(ctx)
    }

    /// Whether deciding which choices can be used calls no script.
    pub open spec fn usability_script_free(&self, ctx: &TextContext) -> bool {
        forall|i: int| 0 <= i < self.choices.len() ==> (#[trigger] self.choices[i]).usability_script_free(ctx)
    }

    /// The choices that a player who holds `notes` can use, in their
    /// order, each with its number among all choices, counted from one.
    pub fn usable_choices<'a>(&'a self, notes: &Notes, text_context: &TextContext) -> (r: Result<
        Vec<(usize, &'a Choice)>,
        ResolutionError,
    >)
        ensures
            self.usability_script_free(text_context) ==> match usable_positions(
                self.choices@,
                notes@,
                text_context,
                self.choices.len() as int,
            ) {
                Some(positions) => r matches Ok(usable) && usable.len() == positions.len()
                    && forall|k: int|
                    0 <= k < usable.len() ==> (#[trigger] usable[k]).0 == positions[k] + 1,
                None => r matches Err(e) && e is Parse,
            },
            r matches Err(e) ==> exists|i: int|
                0 <= i < self.choices.len() && (#[trigger] self.choices[i]).undecided_as(
                    notes@,
                    text_context,
                    e,
                ),
            r matches Ok(usable) ==> {
                &&& forall|k: int|
                    0 <= k < usable.len() ==> 1 <= (#[trigger] usable[k]).0 <= self.choices.len()
                        && *usable[k].1 == self.choices[usable[k].0 - 1]
                &&& forall|j: int, k: int|
                    0 <= j < k < usable.len() ==> (#[trigger] usable[j]).0 < (#[trigger] usable[k]).0
                &&& sorted_out(
                    self.choices@,
                    notes@,
                    text_context,
                    usable@,
                    self.choices.len() as int,
                )
            },
    {
        let mut result: Vec<(usize, &'a Choice)> = Vec::new();
        let mut i: usize = 0;
        while i < self.choices.len()
            invariant
                i <= self.choices.len(),
                sorted_out(self.choices@, notes@, text_context, result@, i as int),
                forall|k: int|
                    0 <= k < result.len() ==> 1 <= (#[trigger] result[k]).0 <= i && *result[k].1
                        == self.choices[result[k].0 - 1],
                forall|j: int, k: int|
                    0 <= j < k < result.len() ==> (#[trigger] result[j]).0 < (#[trigger] result[k]).0,
                self.usability_script_free(text_context) ==> (usable_positions(
                    self.choices@,
                    notes@,
                    text_context,
                    i as int,
                ) matches Some(positions) && result.len() == positions.len() && forall|k: int|
                    0 <= k < result.len() ==> (#[trigger] result[k]).0 == positions[k] + 1),
            decreases self.choices.len() - i,
        {
            let choice = &self.choices[i];
            match choice.can_player_use(notes, text_context) {
                Ok(usable) => {
                    let ghost before = result@;
                    if usable {
                        result.push((i + 1, choice));
                    }
                    proof {
                        assert forall|j: int| 0 <= j < i implies (#[trigger] self.choices@[j]).usable_as(
                            notes@,
                            text_context,
                            numbered(result@, j + 1),
                        ) by {
                            assert(self.choices@[j].usable_as(
                                notes@,
                                text_context,
                                numbered(before, j + 1),
                            ));
                            if numbered(before, j + 1) {
                                let k = choose|k: int|
                                    0 <= k < before.len() && (#[trigger] before[k]).0 == j + 1;
                                assert(result@[k].0 == j + 1);
                            }
                            if numbered(result@, j + 1) {
                                let k = choose|k: int|
                                    0 <= k < result@.len() && (#[trigger] result@[k]).0 == j + 1;
                                assert(k < before.len());
                                assert(before[k].0 == j + 1);
                            }
                        }
                        if usable {
                            assert(result@[result@.len() - 1].0 == i + 1);
                            assert(numbered(result@, i + 1));
                        } else {
                            assert(!numbered(result@, i + 1)) by {
                                if numbered(result@, i + 1) {
                                    let k = choose|k: int|
                                        0 <= k < result@.len() && (#[trigger] result@[k]).0 == i + 1;
                                    assert(result@[k].0 <= i);
                                }
                            }
                        }
                    }
                },
                Err(e) => {
                    proof {
                        if self.usability_script_free(text_context) {
                            lemma_usable_positions_fail(
                                self.choices@,
                                notes@,
                                text_context,
                                i + 1,
                                self.choices.len() as int,
                            );
                        }
                    }
                    return Err(e);
                },
            }
            i = i + 1;
        }
        Ok(result)
    }

    /// The positions, counted from zero, of the choices that jump to the
    /// prompt `other`, as far as is known without resolving anything.
    pub fn get_jumps_to(&self, current_file: &str, other: &PathData) -> (r: Vec<usize>)
        ensures
            r@ == jump_positions(self.choices@, current_file@, *other, self.choices.len() as int),
    {
        let mut result: Vec<usize> = Vec::new();
        let mut i: usize = 0;
        while i < self.choices.len()
            invariant
                i <= self.choices.len(),
                result@ == jump_positions(self.choices@, current_file@, *other, i as int),
            decreases self.choices.len() - i,
        {
            if self.choices[i].has_jump_to(current_file, other) {
                result.push(i);
            }
            i = i + 1;
        }
        result
    }

    /// The prompts of the file `file_name` that jump to the prompt `path`,
    /// added to `found`: the key is `file/prompt`, the value the positions
    /// of the jumping choices.
    fn file_jumps(path: &PathData, file_name: &str, prompt_file: &PromptFile, found: &mut StringMap<
        Vec<usize>,
    >)
        ensures
            positions_of(final(found)@) == jumps_in_file(
                positions_of(old(found)@),
                *path,
                file_name@,
                prompt_file.entries(),
                prompt_file.entries().len() as int,
            ),
    {
        let n = prompt_file.len();
        let mut i: usize = 0;
        while i < n
            invariant
                i <= n,
                n == prompt_file.entries().len(),
                positions_of(found@) == jumps_in_file(
                    positions_of(old(found)@),
                    *path,
                    file_name@,
                    prompt_file.entries(),
                    i as int,
                ),
            decreases n - i,
        {
            let jumps = prompt_file.value_at(i).get_jumps_to(file_name, path);
            if jumps.len() > 0 {
                proof {
                    reveal_strlit("/");
                }
                let mut id = String::from_str(file_name);
                id.append("/");
                id.append(prompt_file.key_at(i).as_str());
                let ghost before = found@;
                let ghost key = id@;
                let ghost positions = jumps@;
                assert(key =~= file_name@ + seq!['/'] + prompt_file.entries()[i as int].0@);
                found.insert(id, jumps);
                assert(positions_of(found@) =~= positions_of(before).insert(key, positions));
            }
            i = i + 1;
        }
    }

    /// The prompts that have choices which jump to the prompt `path`, as
    /// far as is known without resolving anything: for each such prompt,
    /// under the key `file/prompt`, the positions of those choices, counted
    /// from zero.
    pub fn external_jumps(path: &PathData, prompts: &Prompts) -> (found: StringMap<Vec<usize>>)
        ensures
            positions_of(found@) == jumps_in_files(
                *path,
                prompts.entries(),
                prompts.entries().len() as int,
            ),
    {
        let mut found: StringMap<Vec<usize>> = StringMap::new();
        let n = prompts.len();
        let mut i: usize = 0;
        assert(positions_of(found@) =~= Map::<Seq<char>, Seq<usize>>::empty());
        while i < n
            invariant
                i <= n,
                n == prompts.entries().len(),
                positions_of(found@) == jumps_in_files(*path, prompts.entries(), i as int),
            decreases n - i,
        {
            Self::file_jumps(path, prompts.key_at(i).as_str(), prompts.value_at(i), &mut found);
            i = i + 1;
        }
        found
    }

    /// The block of debug text of a prompt: its path and model, how many
    /// choices it has and how many of them are usable, and which prompts
    /// jump to it, each with the numbers of the jumping choices counted
    /// from one.
    pub fn debug_text(
        path: &PathData,
        model: &PromptModel,
        choices: usize,
        usable: usize,
        jumps: &StringMap<Vec<usize>>,
    ) -> (text: String)
        ensures
            text@ == debug_block(
                path.file@ + seq!['/'] + path.prompt@,
                model.description_text(),
                choices as nat,
                usable as nat,
                jumps.entries(),
            ),
    {
        let mut lines: Vec<String> = Vec::new();
        let n = jumps.len();
        let mut i: usize = 0;
        while i < n
            invariant
                i <= n,
                n == jumps.entries().len(),
                lines.len() == i,
                forall|k: int|
                    0 <= k < i ==> (#[trigger] lines[k])@ == jump_line(
                        jumps.entries()[k].0@,
                        jumps.entries()[k].1@,
                    ),
            decreases n - i,
        {
            let positions = jumps.value_at(i);
            let mut numbers: Vec<String> = Vec::new();
            let mut j: usize = 0;
            while j < positions.len()
                invariant
                    j <= positions.len(),
                    numbers.len() == j,
                    forall|k: int|
                        0 <= k < j ==> (#[trigger] numbers[k])@ == jump_number(positions@[k]),
                decreases positions.len() - j,
            {
                let mut number = String::from_str("#");
                let shown = if positions[j] < usize::MAX {
                    positions[j] + 1
                } else {
                    positions[j]
                };
                number.append(number_text(shown).as_str());
                numbers.push(number);
                j = j + 1;
            }
            assert(texts(numbers@) =~= positions@.map_values(|p: usize| jump_number(p)));
            let mut line = String::from_str("- ");
            line.append(jumps.key_at(i).as_str());
            line.append(": ");
            line.append(join(&numbers, ", ").as_str());
            lines.push(line);
            i = i + 1;
        }
        assert(texts(lines@) =~= jump_lines(jumps.entries()));
        let mut out = String::from_str("\nID: ");
        out.append(path.to_string().as_str());
        out.append("\n");
        out.append(model.to_string().as_str());
        out.append("\n\n");
        out.append(number_text(choices).as_str());
        out.append(" choice(s)\n");
        out.append(number_text(usable).as_str());
        out.append(" of them accessible");
        let ghost head = out@;
        if n > 0 {
            out.append("\n\nPrompts that jump here:\n");
            out.append(join(&lines, "\n").as_str());
            assert(out@ =~= head + ("\n\nPrompts that jump here:\n"@ + joined(
                jump_lines(jumps.entries()),
                "\n"@,
            )));
        } else {
            assert(out@ =~= head + Seq::<char>::empty());
        }
        out
    }

    /// The block of debug text of this prompt at `path`, for a player who
    /// holds `notes`.
    pub fn debug_info(&self, path: &PathData, prompts: &Prompts, notes: &Notes, text_context: &TextContext) -> (r:
        Result<String, ResolutionError>)
        ensures
            (self.kind_of() != PromptKind::Input && self.usability_script_free(text_context)
                && usable_positions(
                self.choices@,
                notes@,
                text_context,
                self.choices.len() as int,
            ) is Some) ==> r is Ok,
            r matches Err(e) ==> {
                ||| self.kind_of() == PromptKind::Input && self.choices[0].input->0.name.fails_as(
                    text_context,
                    e,
                )
                ||| exists|i: int|
                    0 <= i < self.choices.len() && (#[trigger] self.choices[i]).undecided_as(
                        notes@,
                        text_context,
                        e,
                    )
            },
            r matches Ok(text) ==> exists|
                model: PromptModel,
                usable: Seq<(usize, &Choice)>,
                jumps: StringMap<Vec<usize>>,
            |
                {
                    &&& text@ == #[trigger] debug_block(
                        path.file@ + seq!['/'] + path.prompt@,
                        model.description_text(),
                        self.choices.len() as nat,
                        usable.len(),
                        jumps.entries(),
                    )
                    &&& self.models_as(text_context, model)
                    &&& usable.len() <= self.choices.len()
                    &&& sorted_out(
                        self.choices@,
                        notes@,
                        text_context,
                        usable,
                        self.choices.len() as int,
                    )
                    &&& positions_of(jumps@) == jumps_in_files(
                        *path,
                        prompts.entries(),
                        prompts.entries().len() as int,
                    )
                    &&& (self.usability_script_free(text_context) ==> Some(usable.len())
                        == match usable_positions(
                        self.choices@,
                        notes@,
                        text_context,
                        self.choices.len() as int,
                    ) {
                        Some(p) => Some(p.len()),
                        None => None,
                    })
                },
    {
        let model = match self.model(text_context) {
            Ok(m) => m,
            Err(e) => {
                return Err(e);
            },
        };
        let ghost found: Seq<(usize, &Choice)>;
        let usable = match self.usable_choices(notes, text_context) {
            Ok(u) => {
                proof {
                    lemma_increasing_bounded(
                        u@.map_values(|c: (usize, &Choice)| c.0 as int),
                        self.choices.len() as int,
                    );
                    found = u@;
                }
                u.len()
            },
            Err(e) => {
                return Err(e);
            },
        };
        let jumps = Self::external_jumps(path, prompts);
        let text = Self::debug_text(path, &model, self.choices.len(), usable, &jumps);
        proof {
            assert(text@ == debug_block(
                path.file@ + seq!['/'] + path.prompt@,
                model.description_text(),
                self.choices.len() as nat,
                found.len(),
                jumps.entries(),
            ));
        }
        Ok(text)
    }
}

/// A strictly increasing run of numbers from one up to `max` holds no more
/// than `max` numbers.
pub proof fn lemma_increasing_bounded(numbers: Seq<int>, max: int)
    requires
        forall|k: int| 0 <= k < numbers.len() ==> 1 <= #[trigger] numbers[k] <= max,
        forall|j: int, k: int| 0 <= j < k < numbers.len() ==> numbers[j] < numbers[k],
    ensures
        numbers.len() <= if max >= 0 {
            max
        } else {
            0
        },
    decreases numbers.len(),
{
    if numbers.len() > 0 {
        let shorter = numbers.drop_last();
        assert forall|k: int| 0 <= k < shorter.len() implies 1 <= #[trigger] shorter[k] <= max - 1 by {
            assert(shorter[k] == numbers[k]);
            assert(numbers[k] < numbers[numbers.len() - 1]);
        }
        assert forall|j: int, k: int| 0 <= j < k < shorter.len() implies shorter[j] < shorter[k] by {
            assert(shorter[j] == numbers[j]);
            assert(shorter[k] == numbers[k]);
        }
        assert(1 <= numbers[0] <= max);
        lemma_increasing_bounded(shorter, max - 1);
    }
}

/// The block of debug text of the prompt `id` with the model description
/// `model`, `choices` choices of which `usable` are usable, and the jumping
/// prompts `jumps`.
pub open spec fn debug_block(
    id: Seq<char>,
    model: Seq<char>,
    choices: nat,
    usable: nat,
    jumps: Seq<(String, Vec<usize>)>,
) -> Seq<char> {
    "\nID: "@ + id + "\n"@ + ("Model: "@ + model) + "\n\n"@ + digits_of(choices)
        + " choice(s)\n"@ + digits_of(usable) + " of them accessible"@ + (if jumps.len() == 0 {
        Seq::<char>::empty()
    } else {
        "\n\nPrompts that jump here:\n"@ + joined(jump_lines(jumps), "\n"@)
    })
}

/// The number of a jumping choice as the debug text shows it: a hash sign
/// and the position counted from one.
pub open spec fn jump_number(position: usize) -> Seq<char> {
    "#"@ + digits_of(
        if position < usize::MAX {
            (position + 1) as nat
        } else {
            position as nat
        },
    )
}

/// The line of the debug text for the prompt `id` with the jumping choices
/// `positions`.
pub open spec fn jump_line(id: Seq<char>, positions: Seq<usize>) -> Seq<char> {
    "- "@ + id + ": "@ + joined(positions.map_values(|p: usize| jump_number(p)), ", "@)
}

/// The lines of the debug text for the jumping prompts `jumps`.
pub open spec fn jump_lines(jumps: Seq<(String, Vec<usize>)>) -> Seq<Seq<char>> {
    jumps.map_values(|e: (String, Vec<usize>)| jump_line(e.0@, e.1@))
}

/// The positions stored in a map of jumps, as plain values.
pub open spec fn positions_of(found: Map<Seq<char>, Vec<usize>>) -> Map<Seq<char>, Seq<usize>> {
    Map::new(|k: Seq<char>| found.contains_key(k), |k: Seq<char>| found[k]@)
}

/// `found` with the first `n` prompts of the file `file` added that jump
/// to `path`: under the key `file/prompt`, the positions of the jumping
/// choices.
pub open spec fn jumps_in_file(
    found: Map<Seq<char>, Seq<usize>>,
    path: PathData,
    file: Seq<char>,
    prompts: Seq<(String, Prompt)>,
    n: int,
) -> Map<Seq<char>, Seq<usize>>
    decreases n,
{
    if n <= 0 {
        found
    } else {
        let before = jumps_in_file(found, path, file, prompts, n - 1);
        let prompt = prompts[n - 1].1;
        let positions = jump_positions(prompt.choices@, file, path, prompt.choices.len() as int);
        if positions.len() > 0 {
            before.insert(file + seq!['/'] + prompts[n - 1].0@, positions)
        } else {
            before
        }
    }
}

/// The jumps to `path` found in the first `n` of the prompt files `files`.
pub open spec fn jumps_in_files(path: PathData, files: Seq<(String, PromptFile)>, n: int) -> Map<
    Seq<char>,
    Seq<usize>,
>
    decreases n,
{
    if n <= 0 {
        Map::empty()
    } else {
        jumps_in_file(
            jumps_in_files(path, files, n - 1),
            path,
            files[n - 1].0@,
            files[n - 1].1.entries(),
            files[n - 1].1.entries().len() as int,
        )
    }
}

} // verus!
