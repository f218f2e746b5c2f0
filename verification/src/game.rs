//! The decisions of the game loop: what a turn is about, and what follows
//! an input.

use vstd::prelude::*;
use vstd::string::StringExecFns;
use crate::choice::Choice;
use crate::context::{StaticContext, TextContext};
use crate::error::{ChooseError, GameError, LookupError, ResolutionError};
use crate::input::InputContext;
use crate::manifest::Manifest;
use crate::choice::input_view;
use crate::player::{chosen, taken, HistoryRecord, Player};
use crate::strings::texts;
use crate::variables::{lookup, VariableChange};
use crate::prompt::{sorted_out, usable_positions};
use crate::prompt::{Prompt, PromptKind, PromptModel};
use crate::runtime::GameLoopResult;
use crate::variables::NamedVariableEntry;

verus! {

/// What a turn is about: the prompt that the player is at, its model, the
/// choices that the player can use, each with its number among all
/// choices, and whether the text of the prompt is shown.
#[derive(Debug)]
pub struct Turn<'a> {
    pub prompt: &'a Prompt,
    pub model: PromptModel<'a>,
    pub choices: Vec<(usize, &'a Choice)>,
    pub display: bool,
}

/// Whether the usable choices `choices` carry the numbers of the positions
/// `positions`, each counted from one.
pub open spec fn numbered_as(choices: Seq<(usize, &Choice)>, positions: Option<Seq<int>>) -> bool {
    positions matches Some(p) && choices.len() == p.len() && forall|k: int|
        0 <= k < p.len() ==> (#[trigger] choices[k]).0 == p[k] + 1
}

/// The shape of input to ask for: a number among the usable choices of a
/// response prompt, a text for the variable of an input prompt with its
/// resolved custom prompt, and nothing for the other models.
pub fn next_input_context(
    model: &PromptModel,
    choices: &Vec<(usize, &Choice)>,
    text_context: &TextContext,
) -> (r: Result<Option<InputContext>, ResolutionError>)
    ensures
        match model {
            PromptModel::Response => r matches Ok(Some(InputContext::Choices(n))) && n
                == choices.len(),
            PromptModel::Input(name, None) => r matches Ok(Some(InputContext::Variable(n, None)))
                && n@ == name@,
            PromptModel::Input(name, Some(prompt)) => {
                &&& r matches Ok(context) ==> (context matches Some(
                    InputContext::Variable(n, Some(text)),
                ) && n@ == name@ && prompt.fills_to(text_context, text@))
                &&& prompt.script_free(text_context) ==> (r matches Ok(
                    Some(InputContext::Variable(_, Some(text))),
                ) && text@ == prompt.plain(text_context))
            },
            _ => r matches Ok(None),
        },
        r matches Err(e) ==> (model matches PromptModel::Input(_, Some(prompt)) && prompt.fails_as(
            text_context,
            e,
        )),
{
    match model {
        PromptModel::Response => Ok(Some(InputContext::Choices(choices.len()))),
        PromptModel::Input(name, prompt) => {
            let text = match prompt {
                Some(p) => match p.fill(text_context) {
                    Ok(t) => Some(t),
                    Err(e) => {
                        return Err(e);
                    },
                },
                None => None,
            };
            Ok(Some(InputContext::Variable(name.clone(), text)))
        },
        _ => Ok(None),
    }
}

/// What follows a signal to quit: the game shuts down with a message at
/// the second signal in a row, and asks again at the first.
pub fn handle_quit(shutdown: bool) -> (r: GameLoopResult)
    ensures
        r == if shutdown {
            GameLoopResult::Shutdown(false)
        } else {
            GameLoopResult::Retry(true)
        },
{
    if shutdown {
        GameLoopResult::Shutdown(false)
    } else {
        GameLoopResult::Retry(true)
    }
}

/// What to tell the player when the game has crashed: that it is not
/// their fault, and how to reach the developers, if the game says how.
pub fn crash_context(config: &Manifest) -> (text: String)
    ensures
        text@ == match config.metadata.contact_text() {
            Some(contact) => "The game has crashed; it's not your fault!\n\n"@ + contact,
            None => "The game has crashed; it's not your fault!"@,
        },
{
    match config.metadata.game_contact() {
        Some(contact) => {
            let mut out = String::from_str("The game has crashed; it's not your fault!\n\n");
            out.append(contact.as_str());
            out
        },
        None => String::from_str("The game has crashed; it's not your fault!"),
    }
}

/// Opens the turn at the prompt that the player is at: looks the prompt
/// up, classifies it and gathers the choices that the player can use.
///
/// The turn cannot be opened where the history is empty, where the latest
/// entry names a prompt that is not loaded, where resolving fails, or
/// where the player can use none of the choices.
pub fn enter_prompt<'a>(stc: &StaticContext<'a>, player: &Player, text_context: &TextContext) -> (r: Result<
    Turn<'a>,
    GameError,
>)
    ensures
        r matches Err(GameError::HistoryEmpty) <==> player.history@.len() == 0,
        player.history@.len() > 0 ==> {
            let path = player.history@.last().path;
            let prompts = stc.resources.prompts@;
            if !prompts.contains_key(path.file@) {
                r matches Err(GameError::Lookup(LookupError::InvalidPromptFile))
            } else if !prompts[path.file@]@.contains_key(path.prompt@) {
                r matches Err(GameError::Lookup(LookupError::InvalidPrompt))
            } else {
                let prompt = prompts[path.file@]@[path.prompt@];
                prompt.turn_script_free(text_context) ==> match usable_positions(
                    prompt.choices@,
                    player.notes@,
                    text_context,
                    prompt.choices.len() as int,
                ) {
                    Some(positions) => if positions.len() == 0 {
                        r matches Err(GameError::NoUsableChoices)
                    } else {
                        r is Ok
                    },
                    None => r matches Err(GameError::Resolution(e)) && e is Parse,
                }
            }
        },
        r matches Ok(turn) ==> {
            let path = player.history@.last().path;
            &&& player.history@.len() > 0
            &&& stc.resources.prompts@.contains_key(path.file@)
            &&& stc.resources.prompts@[path.file@]@.contains_key(path.prompt@)
            &&& *turn.prompt == stc.resources.prompts@[path.file@]@[path.prompt@]
            &&& turn.prompt.models_as(text_context, turn.model)
            &&& turn.display == player.history@.last().display
            &&& sorted_out(
                turn.prompt.choices@,
                player.notes@,
                text_context,
                turn.choices@,
                turn.prompt.choices.len() as int,
            )
            &&& forall|j: int, k: int|
                0 <= j < k < turn.choices.len() ==> (#[trigger] turn.choices[j]).0 < (
                #[trigger] turn.choices[k]).0
            &&& turn.choices.len() > 0
            &&& forall|k: int|
                0 <= k < turn.choices.len() ==> 1 <= (#[trigger] turn.choices[k]).0
                    <= turn.prompt.choices.len() && *turn.choices[k].1
                    == turn.prompt.choices[turn.choices[k].0 - 1]
        },
        r matches Ok(turn) ==> (turn.prompt.usability_script_free(text_context) ==> numbered_as(
            turn.choices@,
            usable_positions(
                turn.prompt.choices@,
                player.notes@,
                text_context,
                turn.prompt.choices.len() as int,
            ),
        )),
        r matches Err(GameError::Resolution(e)) ==> {
            let path = player.history@.last().path;
            let prompt = stc.resources.prompts@[path.file@]@[path.prompt@];
            &&& player.history@.len() > 0
            &&& stc.resources.prompts@.contains_key(path.file@)
            &&& stc.resources.prompts@[path.file@]@.contains_key(path.prompt@)
            &&& {
                ||| prompt.kind_of() == PromptKind::Input && prompt.choices[0].input->0.name.fails_as(
                    text_context,
                    e,
                )
                ||| exists|i: int|
                    0 <= i < prompt.choices.len() && (#[trigger] prompt.choices[i]).undecided_as(
                        player.notes@,
                        text_context,
                        e,
                    )
            }
        },
        r matches Err(GameError::NoUsableChoices) ==> {
            let path = player.history@.last().path;
            &&& player.history@.len() > 0
            &&& stc.resources.prompts@.contains_key(path.file@)
            &&& stc.resources.prompts@[path.file@]@.contains_key(path.prompt@)
            &&& sorted_out(
                stc.resources.prompts@[path.file@]@[path.prompt@].choices@,
                player.notes@,
                text_context,
                Seq::<(usize, &Choice)>::empty(),
                stc.resources.prompts@[path.file@]@[path.prompt@].choices.len() as int,
            )
            &&& stc.resources.prompts@[path.file@]@[path.prompt@].usability_script_free(
                text_context,
            ) ==> usable_positions(
                stc.resources.prompts@[path.file@]@[path.prompt@].choices@,
                player.notes@,
                text_context,
                stc.resources.prompts@[path.file@]@[path.prompt@].choices.len() as int,
            ) == Some(Seq::<int>::empty())
        },
        r matches Err(GameError::Lookup(e)) ==> player.history@.len() > 0 && match e {
            LookupError::InvalidPromptFile => !stc.resources.prompts@.contains_key(
                player.history@.last().path.file@,
            ),
            LookupError::InvalidPrompt => stc.resources.prompts@.contains_key(
                player.history@.last().path.file@,
            ) && !stc.resources.prompts@[player.history@.last().path.file@]@.contains_key(
                player.history@.last().path.prompt@,
            ),
        },
{
    let entry = match player.latest_entry() {
        Ok(e) => e,
        Err(_) => {
            return Err(GameError::HistoryEmpty);
        },
    };
    let prompt: &'a Prompt = match Prompt::get(&stc.resources.prompts, &entry.path) {
        Ok(p) => p,
        Err(e) => {
            return Err(GameError::Lookup(e));
        },
    };
    let model = match prompt.model(text_context) {
        Ok(m) => m,
        Err(e) => {
            return Err(GameError::Resolution(e));
        },
    };
    let choices = match prompt.usable_choices(&player.notes, text_context) {
        Ok(c) => c,
        Err(e) => {
            return Err(GameError::Resolution(e));
        },
    };
    if choices.len() == 0 {
        proof {
            if prompt.usability_script_free(text_context) {
                let positions = usable_positions(
                    prompt.choices@,
                    player.notes@,
                    text_context,
                    prompt.choices.len() as int,
                )->0;
                assert(positions =~= Seq::<int>::empty());
            }
        }
        return Err(GameError::NoUsableChoices);
    }
    Ok(Turn { prompt, model, choices, display: entry.display })
}

/// Takes the usable choice of the number `number`, counted from one, and
/// does what follows it. The game shuts down silently where the choice is
/// an ending, and goes on otherwise. The rich presence state to report
/// comes along.
///
/// Where making the choice fails, the player stays as it was; where only
/// what follows it fails, the choice stays made and nothing is logged.
pub fn take_choice(
    player: &mut Player,
    choices: &Vec<(usize, &Choice)>,
    number: usize,
    model: &PromptModel,
    stc: &StaticContext,
    text_context: &TextContext,
) -> (r: Result<(GameLoopResult, Option<String>), ChooseError>)
    requires
        1 <= number <= choices.len(),
    ensures
        r matches Ok((result, _)) ==> result == if choices[number - 1].1.ending is Some {
            GameLoopResult::Shutdown(true)
        } else {
            GameLoopResult::Continue
        },
        (r is Ok && choices[number - 1].1.jump is None) ==> {
            &&& final(player).history == old(player).history
            &&& final(player).notes == old(player).notes
            &&& final(player).variables == old(player).variables
            &&& final(player).info_pages == old(player).info_pages
        },
        r is Ok ==> final(player).logged(old(player).log@, choices[number - 1].1, stc),
        r matches Ok((_, state)) ==> crate::discord::text_of(state) == final(player).reported(
            choices[number - 1].1,
            stc,
        ),
        (r is Ok && choices[number - 1].1.jump is Some) ==> final(player).took(
            old(player),
            choices[number - 1].1,
            None,
            model.kind_of() == PromptKind::Redirect,
            stc,
            text_context,
        ),
        (r is Ok && choices[number - 1].1.jump is Some) ==> final(player).unlocked_by(
            old(player),
            choices[number - 1].1,
            text_context,
        ),
        r matches Err(ChooseError::HistoryEmpty) ==> old(player).history@.len() == 0,
        r matches Err(ChooseError::Resolution(e)) ==> {
            ||| choices[number - 1].1.entry_fails_as(text_context, e)
            ||| choices[number - 1].1.pages_fail_as(text_context, e)
            ||| exists|ctx: TextContext| #[trigger]
                ctx.snapshot_of(final(player), stc) && choices[number - 1].1.after_fails_as(&ctx, e)
        },
        r is Err ==> (*final(player) == *old(player) || (choices[number - 1].1.jump is Some && final(player).log == old(player).log && final(player).chose(
            old(player),
            choices[number - 1].1,
            None,
            model.kind_of() == PromptKind::Redirect,
            stc,
            text_context,
        ) && final(player).unlocked_by(old(player), choices[number - 1].1, text_context))),
        final(player).same_settings(old(player)),
        old(player).history@.len() == 0 ==> (r matches Err(ChooseError::HistoryEmpty) && *final(player)
            == *old(player)),
        (old(player).history@.len() > 0 && text_context.stc == *stc && text_context.lang@ == old(player).lang@ && choices[number - 1].1.takes(stc.config.settings.history.locked, text_context))
            ==> r is Ok,
{
    let choice = choices[number - 1].1;
    match player.choose_full(choice, None, model, stc, text_context) {
        Ok(state) => {
            let result = if choice.ending.is_some() {
                GameLoopResult::Shutdown(true)
            } else {
                GameLoopResult::Continue
            };
            Ok((result, state))
        },
        Err(e) => Err(e),
    }
}

/// The record of a player's input: the variable `name` set to `value`,
/// remembering the text that it has in `variables`.
pub open spec fn input_record(name: Seq<char>, value: Seq<char>, variables: Map<Seq<char>, String>) -> (
    Seq<char>,
    VariableChange,
) {
    (name, VariableChange { value, previous: lookup(variables, name) })
}

/// Takes the single choice of an input prompt with the text `value` that
/// the player gave for the variable `name`: the choice is taken with the
/// record of the input, the variable is set, and what follows the choice
/// is done against the variables as they are then.
///
/// Where the choice has a jump, notes, variables, log and history are
/// those of the player before with a history entry taken that the choice
/// can make for the input. Where it has none, only the variable is set and
/// the log line added.
///
/// Where making the choice fails, the player stays as it was; where only
/// what follows it fails, the choice stays made, the variable is set and
/// nothing is logged.
pub fn take_variable(
    player: &mut Player,
    choices: &Vec<(usize, &Choice)>,
    name: String,
    value: String,
    model: &PromptModel,
    stc: &StaticContext,
    text_context: &TextContext,
) -> (r: Result<(GameLoopResult, Option<String>), ChooseError>)
    requires
        choices.len() >= 1,
    ensures
        r matches Ok((result, _)) ==> result == GameLoopResult::Continue
            && final(player).variables@.contains_key(name@) && final(player).variables@[name@]@
            == value@,
        final(player).same_settings(old(player)),
        old(player).history@.len() == 0 ==> (r matches Err(ChooseError::HistoryEmpty) && *final(player)
            == *old(player)),
        (old(player).history@.len() > 0 && text_context.stc == *stc && text_context.lang@ == old(player).lang@ && choices[0].1.takes(stc.config.settings.history.locked, text_context)) ==> r is Ok,
        (r is Ok && choices[0].1.jump is Some) ==> final(player).took(
            old(player),
            choices[0].1,
            Some(input_record(name@, value@, old(player).variables@)),
            model.kind_of() == PromptKind::Redirect,
            stc,
            text_context,
        ),
        (r is Ok && choices[0].1.jump is None) ==> {
            &&& final(player).history == old(player).history
            &&& final(player).notes == old(player).notes
            &&& final(player).info_pages == old(player).info_pages
            &&& final(player).variables@ == old(player).variables@.insert(name@, value)
        },
        r is Ok ==> final(player).logged(old(player).log@, choices[0].1, stc),
        r matches Ok((_, state)) ==> crate::discord::text_of(state) == final(player).reported(
            choices[0].1,
            stc,
        ),
        (r is Ok && choices[0].1.jump is Some) ==> final(player).unlocked_by(
            old(player),
            choices[0].1,
            text_context,
        ),
        r matches Err(ChooseError::HistoryEmpty) ==> old(player).history@.len() == 0,
        r matches Err(ChooseError::Resolution(e)) ==> {
            ||| choices[0].1.entry_fails_as(text_context, e)
            ||| choices[0].1.pages_fail_as(text_context, e)
            ||| exists|ctx: TextContext| #[trigger]
                ctx.snapshot_of(final(player), stc) && choices[0].1.after_fails_as(&ctx, e)
        },
        r is Err ==> (*final(player) == *old(player) || (final(player).log == old(player).log && (
        if choices[0].1.jump is Some {
            final(player).chose(
                old(player),
                choices[0].1,
                Some(input_record(name@, value@, old(player).variables@)),
                model.kind_of() == PromptKind::Redirect,
                stc,
                text_context,
            ) && final(player).unlocked_by(old(player), choices[0].1, text_context)
        } else {
            &&& final(player).history == old(player).history
            &&& final(player).notes == old(player).notes
            &&& final(player).info_pages == old(player).info_pages
            &&& final(player).variables@ == old(player).variables@.insert(name@, value)
        }))),
{
    let choice = choices[0].1;
    let entry = NamedVariableEntry::new(name.clone(), value.clone(), &player.variables);
    let ghost input = input_view(Some(entry));
    assert(input == Some(input_record(name@, value@, player.variables@)));
    match player.make_choice(choice, Some(entry), model, stc, text_context) {
        Ok(_) => {},
        Err(e) => {
            return Err(e);
        },
    }
    let ghost middle = player.state();
    let ghost lines = player.log@;
    let ghost cap = stc.config.settings.history.size as nat;
    player.variables.insert(name, value);
    proof {
        assert forall|ctx: TextContext|
            (#[trigger] ctx.snapshot_of(player, stc)) && text_context.stc == *stc && text_context.lang@
                == player.lang@ implies choice.after_script_free(&ctx) == choice.after_script_free(
                text_context,
            ) by {
            crate::choice::lemma_after_script_free_by_language(choice, &ctx, text_context);
        }
        if choice.jump is Some {
            let record = choose|record: HistoryRecord|
                #![trigger chosen(old(player).state(), record, cap)]
                middle == chosen(old(player).state(), record, cap) && choice.records_as(
                    old(player).history@.last().path.file@,
                    input,
                    old(player).variables@,
                    model.kind_of() == PromptKind::Redirect,
                    stc.config.settings.history.locked,
                    text_context,
                    record,
                );
            assert(record.variables is Some);
            assert(record.variables->0.contains_key(name@));
            assert(record.variables->0[name@].value == value@);
            assert(middle.variables.contains_key(name@) && middle.variables[name@] == value@);
            assert(player.state().variables =~= middle.variables);
        }
    }
    match player.after_choice(choice, stc) {
        Ok(state) => {
            proof {
                if choice.jump is Some {
                    let record = choose|record: HistoryRecord|
                        #![trigger chosen(old(player).state(), record, cap)]
                        middle == chosen(old(player).state(), record, cap) && choice.records_as(
                            old(player).history@.last().path.file@,
                            input,
                            old(player).variables@,
                            model.kind_of() == PromptKind::Redirect,
                            stc.config.settings.history.locked,
                            text_context,
                            record,
                        );
                    let line = if choice.log is Some {
                        player.log@.last()@
                    } else {
                        Seq::<char>::empty()
                    };
                    if choice.log is Some {
                        assert(texts(player.log@) =~= texts(lines).push(line));
                    }
                    assert(player.state() == taken(old(player).state(), record, line, cap));
                }
            }
            Ok((GameLoopResult::Continue, state))
        },
        Err(e) => Err(e),
    }
}

} // verus!
