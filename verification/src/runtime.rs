//! The commands that a player can give while the game runs.

use vstd::prelude::*;
use vstd::string::StringExecFns;
use crate::player::{can_go_back, unwound, Player};
use crate::strings::{join, joined, texts};

verus! {

/// How the game loop goes on after an input.
#[derive(Debug, PartialEq, Eq, Clone, Copy, Structural)]
pub enum GameLoopResult {
    /// Ask again at the same prompt; `true` where a blank line is printed
    /// first.
    Retry(bool),
    /// Go on to the prompt that the player is at now.
    Continue,
    /// End the game; `true` where it ends without a message.
    Shutdown(bool),
}

/// A command that a player can give at the prompt.
#[derive(Debug, PartialEq, Eq, Clone, Copy, Structural)]
pub enum RuntimeCommand {
    /// Tries going back a choice.
    Back,
    /// Manages the display language.
    Lang,
    /// Displays an info page.
    Info,
    /// Displays a page of the log.
    Log,
    /// Manages the sound channels.
    Sound,
    /// Saves the player.
    Save,
    /// Saves and quits the game.
    Quit,
    /// Displays debug information about a prompt.
    Prompt,
    /// Lists the notes held.
    Notes,
    /// Lists the variables and their texts.
    Variables,
}

/// What a command results in.
#[derive(Debug)]
pub enum CommandResult {
    /// Hands a result to the game loop.
    Submit(GameLoopResult),
    /// Prints the text and asks again.
    Output(String),
}

/// Why a command fails.
#[derive(Debug, PartialEq, Eq, Clone, Copy, Structural)]
pub enum CommandError {
    /// The command is a debug command, and the game does not allow those.
    DebugOnly,
    /// Going back is not possible right now.
    CannotGoBack,
    /// The player holds no notes.
    NoNotes,
    /// The player has no variables.
    NoVariables,
}

impl CommandResult {
    /// The result that asks again after a blank line.
    pub fn retry() -> (r: CommandResult)
        ensures
            r matches CommandResult::Submit(GameLoopResult::Retry(true)),
    {
        CommandResult::Submit(GameLoopResult::Retry(true))
    }
}

/// The lines `name: text` of the variables `entries`, in order.
pub open spec fn variable_lines(entries: Seq<(String, String)>) -> Seq<Seq<char>> {
    entries.map_values(|e: (String, String)| e.0@ + ": "@ + e.1@)
}

impl RuntimeCommand {
    /// Whether the command is allowed where debug commands are not.
    pub open spec fn normal(self) -> bool {
        !(self is Prompt || self is Notes || self is Variables)
    }

    /// Whether the command is allowed where debug commands are not.
    pub fn is_normal(&self) -> (r: bool)
        ensures
            r == self.normal(),
    {
        match self {
            RuntimeCommand::Back
            | RuntimeCommand::Lang
            | RuntimeCommand::Info
            | RuntimeCommand::Log
            | RuntimeCommand::Sound
            | RuntimeCommand::Save
            | RuntimeCommand::Quit => true,
            _ => false,
        }
    }

    /// Checks that the command may be run: a debug command needs a game
    /// that allows debugging.
    pub fn check_allowed(&self, debug: bool) -> (r: Result<(), CommandError>)
        ensures
            r == if self.normal() || debug {
                Ok::<(), CommandError>(())
            } else {
                Err::<(), CommandError>(CommandError::DebugOnly)
            },
    {
        if !self.is_normal() && !debug {
            Err(CommandError::DebugOnly)
        } else {
            Ok(())
        }
    }

    /// Goes back a choice and hands `Continue` to the game loop, or fails
    /// with `CannotGoBack` and leaves the player as it was.
    pub fn back(player: &mut Player) -> (r: Result<CommandResult, CommandError>)
        ensures
            match r {
                Ok(result) => result matches CommandResult::Submit(GameLoopResult::Continue)
                    && can_go_back(old(player).state().history) && final(player).state()
                    == unwound(old(player).state()),
                Err(e) => e == CommandError::CannotGoBack && !can_go_back(
                    old(player).state().history,
                ) && *final(player) == *old(player),
            },
    {
        proof {
            if player.history@.len() > 0 {
                assert(crate::player::records(player.history@).last() == player.history@.last()@);
            }
        }
        match player.back() {
            Ok(_) => Ok(CommandResult::Submit(GameLoopResult::Continue)),
            Err(_) => Err(CommandError::CannotGoBack),
        }
    }

    /// The notes held, separated by commas, in the order in which they
    /// were first given.
    pub fn notes(player: &Player) -> (r: Result<CommandResult, CommandError>)
        ensures
            match r {
                Ok(result) => result matches CommandResult::Output(text) && text@ == joined(
                    player.notes.ordered(),
                    ", "@,
                ) && player.notes.ordered().len() > 0,
                Err(e) => e == CommandError::NoNotes && player.notes.ordered().len() == 0,
            },
    {
        if player.notes.len() == 0 {
            return Err(CommandError::NoNotes);
        }
        let names = player.notes.to_vec();
        Ok(CommandResult::Output(join(&names, ", ")))
    }

    /// The variables, one line `name: text` each, behind an empty line.
    pub fn variables(player: &Player) -> (r: Result<CommandResult, CommandError>)
        ensures
            match r {
                Ok(result) => result matches CommandResult::Output(text) && text@ == "\n"@ + joined(
                    variable_lines(player.variables.entries()),
                    "\n"@,
                ) && player.variables.entries().len() > 0,
                Err(e) => e == CommandError::NoVariables && player.variables.entries().len() == 0,
            },
    {
        if player.variables.is_empty() {
            return Err(CommandError::NoVariables);
        }
        let pairs = crate::variables::variable_pairs(&player.variables);
        let mut lines: Vec<String> = Vec::new();
        let mut i: usize = 0;
        while i < pairs.len()
            invariant
                i <= pairs.len(),
                lines.len() == i,
                forall|k: int|
                    0 <= k < i ==> (#[trigger] lines[k])@ == pairs[k].0@ + ": "@ + pairs[k].1@,
            decreases pairs.len() - i,
        {
            let mut line = pairs[i].0.clone();
            line.append(": ");
            line.append(pairs[i].1.as_str());
            lines.push(line);
            i = i + 1;
        }
        assert(texts(lines@) =~= variable_lines(player.variables.entries()));
        let mut out = String::from_str("\n");
        out.append(join(&lines, "\n").as_str());
        Ok(CommandResult::Output(out))
    }
}

} // verus!
