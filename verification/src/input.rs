//! What the game expects from the player next, and how a line of input
//! is read.

use vstd::prelude::*;
use vstd::string::StringExecFns;
use crate::parse::Templated;
use crate::strings::{chars_of, split, split_from, string_of_range, texts, trim, trimmed_text};
use crate::variables::{lookup, previous_text, VariableEntry, Variables};

verus! {

/// The shape of input that the game expects.
#[derive(Debug)]
pub enum InputContext {
    /// A number from one up to the given count.
    Choices(usize),
    /// A free text for the named variable, asked for with the custom
    /// prompt, if any.
    Variable(String, Option<String>),
}

impl InputContext {
    /// The prompt shown where no custom prompt is given.
    pub const PROMPT: &'static str = "> ";

    /// The prompt to show: the custom prompt of a variable input followed
    /// by a colon and a space, and `> ` otherwise.
    pub fn prompt(&self) -> (out: String)
        ensures
            out@ == match self {
                InputContext::Variable(_, Some(custom)) => custom@ + ": "@,
                _ => "> "@,
            },
    {
        match self {
            InputContext::Variable(_, Some(custom)) => {
                let mut out = custom.clone();
                out.append(": ");
                out
            },
            _ => String::from_str("> "),
        }
    }
}

/// A text that the player gave for a variable: the name, then the text.
#[derive(Debug)]
pub struct VariableInputResult(pub String, pub String);

impl VariableInputResult {
    /// The name of the variable and the record of setting it to the text
    /// given, against the variables as they are before.
    pub fn to_variable_entry<'a>(&'a self, variables: &Variables) -> (r: (&'a String, VariableEntry))
        ensures
            *r.0 == self.0,
            r.1.value@ == self.1@,
            previous_text(r.1.previous) == lookup(variables@, self.0@),
    {
        (&self.0, VariableEntry::new(self.0.as_str(), self.1.clone(), variables))
    }
}

/// What a line of input means.
#[derive(Debug)]
pub enum InputResult {
    /// The player signalled to quit; `true` where it is the second signal
    /// in a row.
    Quit(bool),
    /// The player picked the choice of the given number, counted from one.
    Choice(usize),
    /// The player gave a text for a variable.
    Variable(VariableInputResult),
    /// The player gave a command: its words, split at spaces.
    Command(Vec<String>),
}

/// Why a line of input is refused.
#[derive(Debug, PartialEq, Eq, Clone, Copy, Structural)]
pub enum InputError {
    /// The line is empty.
    Empty,
    /// A number was expected, and the line is none.
    NotANumber,
    /// The number is none of the choices.
    OutOfRange,
}

/// The state of reading input: whether the player has just signalled to
/// quit.
#[derive(Debug)]
pub struct InputController {
    pub quit: bool,
}

/// The words of the command line `line`: what stands behind its first
/// character, split at spaces.
pub open spec fn command_words(line: Seq<char>) -> Seq<Seq<char>> {
    split_from(line.skip(1), ' ', 0)
}

/// Whether `r` is what the line `line` means in the context `context`.
///
/// An empty line is refused. A line that starts with a dot is a command.
/// Otherwise, where a choice is expected, the line must be a number from
/// one up to the count of choices; where a variable is expected, the line
/// is its text.
pub open spec fn reads_as(
    line: Seq<char>,
    context: &InputContext,
    r: Result<InputResult, InputError>,
) -> bool {
    if line.len() == 0 {
        r == Err::<InputResult, InputError>(InputError::Empty)
    } else if line[0] == '.' {
        r matches Ok(InputResult::Command(words)) && texts(words@) == command_words(line)
    } else {
        match context {
            InputContext::Choices(count) => match <usize as Templated>::from_text(line) {
                Some(n) => if 1 <= n <= *count {
                    r matches Ok(InputResult::Choice(c)) && c == n
                } else {
                    r == Err::<InputResult, InputError>(InputError::OutOfRange)
                },
                None => r == Err::<InputResult, InputError>(InputError::NotANumber),
            },
            InputContext::Variable(name, _) => r matches Ok(
                InputResult::Variable(VariableInputResult(n, value)),
            ) && n@ == name@ && value@ == line,
        }
    }
}

impl InputController {
    /// An input controller that has seen no signal to quit.
    pub fn new() -> (controller: InputController)
        ensures
            !controller.quit,
    {
        InputController { quit: false }
    }

    /// The words of a command line: the line without the dot in front,
    /// split at spaces.
    pub fn parse_command(line: &str) -> (words: Vec<String>)
        requires
            line@.len() > 0,
        ensures
            texts(words@) == command_words(line@),
    {
        let v = chars_of(line);
        let rest = string_of_range(&v, 1, v.len());
        assert(rest@ =~= line@.skip(1));
        split(rest.as_str(), ' ')
    }

    /// Reads the line `line` in the context `context`.
    ///
    /// An empty line is refused. A line that starts with a dot is a
    /// command. Otherwise, where a choice is expected, the line must be a
    /// number from one up to the count of choices; where a variable is
    /// expected, the line is its text.
    pub fn handle_line(line: String, context: &InputContext) -> (r: Result<InputResult, InputError>)
        ensures
            reads_as(line@, context, r),
    {
        let v = chars_of(line.as_str());
        if v.len() == 0 {
            return Err(InputError::Empty);
        }
        if v[0] == '.' {
            return Ok(InputResult::Command(Self::parse_command(line.as_str())));
        }
        match context {
            InputContext::Choices(choices) => {
                let choice = match <usize as Templated>::parse_text(line.as_str()) {
                    Some(n) => n,
                    None => {
                        return Err(InputError::NotANumber);
                    },
                };
                if choice < 1 || choice > *choices {
                    return Err(InputError::OutOfRange);
                }
                Ok(InputResult::Choice(choice))
            },
            InputContext::Variable(name, _) => Ok(
                InputResult::Variable(VariableInputResult(name.clone(), line)),
            ),
        }
    }

    /// Takes what reading a line gave: the line, or `None` where the
    /// player interrupted instead.
    ///
    /// A line clears the quit signal and is read without the white space
    /// at its ends. An interruption is a signal to quit; it counts as the
    /// second in a row where the signal was set already.
    pub fn take(&mut self, read: Option<String>, context: &InputContext) -> (r: Result<
        InputResult,
        InputError,
    >)
        ensures
            match read {
                Some(line) => !final(self).quit && reads_as(trimmed_text(line@), context, r),
                None => r matches Ok(InputResult::Quit(again)) && again == old(self).quit && final(self).quit,
            },
    {
        match read {
            Some(line) => {
                self.quit = false;
                Self::handle_line(trim(line.as_str()), context)
            },
            None => {
                let result = InputResult::Quit(self.quit);
                self.quit = true;
                Ok(result)
            },
        }
    }
}

} // verus!
