//! Text lines and the modes in which they are shown.

use vstd::prelude::*;
use vstd::string::StringExecFns;
use crossterm::style::Stylize;
use crate::audio::{first_sound_error, Audio, SoundAction, SoundActions};
use crate::context::TextContext;
use crate::error::{PromptError, ResolutionError};
use crate::parse::Templated;
use crate::strings::str_eq;
use crate::templating::{TemplatableString, TemplatableValue};

verus! {

/// How a text is formatted, whatever it says.
#[derive(Debug, PartialEq, Eq, Clone, Copy, Structural)]
pub enum TextMode {
    /// Wraps the text in quotes.
    Dialogue,
    /// Leaves the text as it is.
    Action,
    /// Puts a marker in front of the text.
    System,
}

impl Default for TextMode {
    fn default() -> (mode: TextMode)
        ensures
            mode == TextMode::Dialogue,
    {
        TextMode::Dialogue
    }
}

impl Templated for TextMode {
    open spec fn from_text(text: Seq<char>) -> Option<TextMode> {
        if text == "dialogue"@ {
            Some(TextMode::Dialogue)
        } else if text == "action"@ {
            Some(TextMode::Action)
        } else if text == "system"@ {
            Some(TextMode::System)
        } else {
            None
        }
    }

    fn parse_text(text: &str) -> (r: Option<TextMode>) {
        if str_eq(text, "dialogue") {
            Some(TextMode::Dialogue)
        } else if str_eq(text, "action") {
            Some(TextMode::Action)
        } else if str_eq(text, "system") {
            Some(TextMode::System)
        } else {
            None
        }
    }

    fn duplicate(&self) -> (r: TextMode) {
        *self
    }
}

/// The glyph that marks a system message.
pub const SYSTEM_GLYPH: &'static str = "▐";

/// crossterm's `dark_grey`, written out with `to_string`: `glyph` as the
/// terminal library styles it. Which control sequences surround the glyph
/// is up to crossterm and the platform, so nothing is claimed of the
/// result.
#[verifier::external_body]
fn dark_grey(glyph: &str) -> (styled: String) {
    glyph.dark_grey().to_string()
}

/// `text` as `mode` formats it, with `marker` in front of system messages.
pub open spec fn formatted(mode: TextMode, text: Seq<char>, marker: Seq<char>) -> Seq<char> {
    match mode {
        TextMode::Dialogue => seq!['"'] + text + seq!['"'],
        TextMode::Action => text,
        TextMode::System => marker + seq![' '] + text,
    }
}

impl TextMode {
    /// Formats `text` in this mode, with `marker` in front of system
    /// messages.
    pub fn format_with(&self, text: &str, marker: &str) -> (out: String)
        ensures
            out@ == formatted(*self, text@, marker@),
    {
        proof {
            reveal_strlit("\"");
            reveal_strlit(" ");
        }
        match self {
            TextMode::Dialogue => {
                let mut out = String::from_str("\"");
                out.append(text);
                out.append("\"");
                assert(out@ =~= formatted(*self, text@, marker@));
                out
            },
            TextMode::Action => String::from_str(text),
            TextMode::System => {
                let mut out = String::from_str(marker);
                out.append(" ");
                out.append(text);
                assert(out@ =~= formatted(*self, text@, marker@));
                out
            },
        }
    }

    /// Formats `text` in this mode. Dialogue is wrapped in quotes, an action
    /// is left as it is, and a system message follows the styled marker and
    /// a space.
    pub fn format(&self, text: &str) -> (out: String)
        ensures
            *self != TextMode::System ==> out@ == formatted(*self, text@, Seq::empty()),
            *self == TextMode::System ==> exists|marker: Seq<char>|
                out@ == #[trigger] formatted(*self, text@, marker),
    {
        match self {
            TextMode::System => {
                let marker = dark_grey(SYSTEM_GLYPH);
                self.format_with(text, marker.as_str())
            },
            _ => self.format_with(text, ""),
        }
    }
}

/// How fast a text is printed.
#[derive(Debug)]
pub enum TextSpeed {
    /// The milliseconds to wait after each character.
    Delay(TemplatableValue<usize>),
    /// The rate in characters per second, as it is written.
    Rate(TemplatableString),
    /// The milliseconds that the whole text takes, whatever its length.
    Duration(TemplatableValue<usize>),
}

/// A piece of text with its formatting.
#[derive(Debug)]
pub struct Text {
    /// The unformatted content.
    pub content: TemplatableString,
    /// The mode in which the content is formatted.
    pub mode: TemplatableValue<TextMode>,
    /// The speed at which the text is printed.
    pub speed: Option<TextSpeed>,
    /// Whether a newline is printed before the text.
    pub newline: Option<TemplatableValue<bool>>,
    /// How long to wait after the text is printed, in milliseconds.
    pub wait: Option<TemplatableValue<u64>>,
    /// Sound actions to submit as the text is shown.
    pub sounds: Option<SoundActions>,
}

/// An ordered list of texts.
pub type TextLines = Vec<Text>;

/// The first of `lines`, from `from` on, that holds an invalid sound
/// action, with the first such action.
pub open spec fn first_text_error(lines: Seq<Text>, audio: &Audio, from: int) -> Option<PromptError>
    decreases lines.len() - from,
{
    if from < 0 || from >= lines.len() {
        None
    } else {
        match lines[from].sound_error(audio) {
            Some(e) => Some(e.at_line((from + 1) as usize)),
            None => first_text_error(lines, audio, from + 1),
        }
    }
}

impl crate::error::SoundActionError {
    /// This sound error as the error of the text line number `line`.
    pub open spec fn at_line(self, line: usize) -> PromptError {
        PromptError::Text { line, sound: self.index, fault: self.cause }
    }
}

impl Text {
    /// The first invalid sound action of this text, if it has any.
    pub open spec fn sound_error(&self, audio: &Audio) -> Option<crate::error::SoundActionError> {
        match self.sounds {
            Some(sounds) => first_sound_error(sounds@, audio, 0),
            None => None,
        }
    }

    /// Checks the sound actions of `lines` in order and reports the first
    /// invalid one, with the number of its line.
    pub fn validate_all(lines: &TextLines, audio: &Audio) -> (r: Result<(), PromptError>)
        ensures
            match r {
                Ok(_) => first_text_error(lines@, audio, 0) is None,
                Err(e) => first_text_error(lines@, audio, 0) == Some(e),
            },
    {
        let mut i: usize = 0;
        while i < lines.len()
            invariant
                i <= lines.len(),
                first_text_error(lines@, audio, 0) == first_text_error(lines@, audio, i as int),
            decreases lines.len() - i,
        {
            if let Some(sounds) = &lines[i].sounds {
                match SoundAction::validate_all(sounds, audio) {
                    Ok(_) => {},
                    Err(e) => {
                        return Err(PromptError::Text { line: i + 1, sound: e.index, fault: e.cause });
                    },
                }
            }
            i = i + 1;
        }
        Ok(())
    }
}

/// termimad's `inline`, written out with `to_string`: `text` with its
/// inline markdown rendered for the terminal. What the rendering looks
/// like is up to termimad and the terminal, so nothing is claimed of it.
#[verifier::external_body]
fn render_inline(text: &str) -> (rendered: String) {
    termimad::inline(text).to_string()
}

impl Text {
    /// Whether resolving mode and content calls no script.
    pub open spec fn script_free(&self, ctx: &TextContext) -> bool {
        self.mode.script_free(ctx) && self.content.script_free(ctx)
    }

    /// The content in its mode, where resolving them calls no script and
    /// the mode resolves, with `marker` in front of a system message.
    pub open spec fn formatted_text(&self, ctx: &TextContext, marker: Seq<char>) -> Option<Seq<char>> {
        match self.mode.resolved(ctx) {
            Some(mode) => Some(formatted(mode, self.content.plain(ctx), marker)),
            None => None,
        }
    }

    /// Whether `text` is a text that formatting can give: the content, as
    /// something that it fills to, in a mode that the mode gets, with some
    /// marker in front of a system message and none elsewhere.
    pub open spec fn formats_as(&self, ctx: &TextContext, text: Seq<char>) -> bool {
        exists|mode: TextMode, content: Seq<char>, marker: Seq<char>|
            #![trigger formatted(mode, content, marker)]
            {
                &&& self.mode.gets(ctx, mode)
                &&& self.content.fills_to(ctx, content)
                &&& text == formatted(mode, content, marker)
                &&& mode != TextMode::System ==> marker.len() == 0
            }
    }

    /// Whether `e` is a failure that showing this text can end in: a
    /// failure of getting the mode or of filling the content.
    pub open spec fn fails_as(&self, ctx: &TextContext, e: ResolutionError) -> bool {
        self.mode.fails_as(ctx, e) || self.content.fails_as(ctx, e)
    }

    /// The resolved content, formatted in the resolved mode, before it is
    /// rendered for the terminal.
    pub fn format(&self, context: &TextContext) -> (r: Result<String, ResolutionError>)
        ensures
            r matches Ok(text) ==> self.formats_as(context, text@),
            r matches Err(e) ==> self.fails_as(context, e),
            self.script_free(context) ==> match self.mode.resolved(context) {
                Some(mode) => r matches Ok(text) && exists|marker: Seq<char>|
                    Some(text@) == #[trigger] self.formatted_text(context, marker),
                None => r matches Err(e) && e is Parse,
            },
            self.script_free(context) ==> match self.mode.resolved(context) {
                Some(mode) => mode != TextMode::System ==> (r matches Ok(text) && Some(text@)
                    == self.formatted_text(context, Seq::empty())),
                None => true,
            },
    {
        let mode = match self.mode.get_value(context) {
            Ok(m) => m,
            Err(e) => {
                return Err(e);
            },
        };
        let content = match self.content.fill(context) {
            Ok(c) => c,
            Err(e) => {
                return Err(e);
            },
        };
        let out = mode.format(content.as_str());
        proof {
            if mode == TextMode::System {
                let marker = choose|marker: Seq<char>| out@ == #[trigger] formatted(mode, content@, marker);
                assert(out@ == formatted(mode, content@, marker));
            } else {
                assert(out@ == formatted(mode, content@, Seq::empty()));
            }
            assert(self.formats_as(context, out@));
            if self.script_free(context) {
                if mode == TextMode::System {
                    let marker = choose|marker: Seq<char>|
                        out@ == #[trigger] formatted(mode, content@, marker);
                    assert(Some(out@) == self.formatted_text(context, marker));
                } else {
                    assert(Some(out@) == self.formatted_text(context, Seq::empty()));
                }
            }
        }
        Ok(out)
    }

    /// The text as it is shown: resolved, formatted in its mode, and
    /// rendered for the terminal.
    pub fn get(&self, context: &TextContext) -> (r: Result<String, ResolutionError>)
        ensures
            self.script_free(context) ==> match self.mode.resolved(context) {
                Some(_) => r is Ok,
                None => r matches Err(e) && e is Parse,
            },
            r matches Err(e) ==> self.fails_as(context, e),
    {
        match self.format(context) {
            Ok(text) => Ok(render_inline(text.as_str())),
            Err(e) => Err(e),
        }
    }

    /// Whether resolving the wait calls no script.
    pub open spec fn wait_script_free(&self, ctx: &TextContext) -> bool {
        match self.wait {
            Some(w) => w.script_free(ctx),
            None => true,
        }
    }

    /// How long to wait after the text, in milliseconds: the text's own
    /// wait, or the game's where it has none.
    pub fn wait(&self, context: &TextContext) -> (r: Result<Option<u64>, ResolutionError>)
        ensures
            self.wait_script_free(context) ==> match self.wait {
                Some(w) => match w.resolved(context) {
                    Some(ms) => r == Ok::<Option<u64>, ResolutionError>(Some(ms)),
                    None => r matches Err(e) && e is Parse,
                },
                None => r == Ok::<Option<u64>, ResolutionError>(
                    context.stc.config.settings.text.wait,
                ),
            },
            (r is Ok && self.wait is Some) ==> (r->Ok_0 matches Some(ms) && self.wait->0.gets(context, ms)),
            r matches Err(e) ==> self.wait is Some && self.wait->0.fails_as(context, e),
    {
        match &self.wait {
            Some(w) => match w.get_value(context) {
                Ok(ms) => Ok(Some(ms)),
                Err(e) => Err(e),
            },
            None => Ok(context.config().settings.text.wait),
        }
    }

    /// Whether deciding on a newline before this text calls no script.
    pub open spec fn newline_script_free(&self, previous: Option<&Text>, ctx: &TextContext) -> bool {
        match self.newline {
            Some(nl) => nl.script_free(ctx),
            None => match previous {
                Some(line) => self.mode.script_free(ctx) && line.mode.script_free(ctx),
                None => true,
            },
        }
    }

    /// Whether a newline is printed before this text, where deciding it
    /// calls no script: what `newline` says, or, where it says nothing,
    /// whether the mode differs from that of the line before. `None` where
    /// a text read on the way is no value.
    pub open spec fn newline_before(&self, previous: Option<&Text>, ctx: &TextContext) -> Option<bool> {
        match self.newline {
            Some(nl) => nl.resolved(ctx),
            None => match previous {
                Some(line) => match (self.mode.resolved(ctx), line.mode.resolved(ctx)) {
                    (Some(a), Some(b)) => Some(a != b),
                    _ => None,
                },
                None => Some(false),
            },
        }
    }

    /// Whether `newline` is an answer that deciding on a newline before
    /// this text can give: a value that `newline` gets, or, where it says
    /// nothing, whether a mode that this text gets differs from one that
    /// the line before gets.
    pub open spec fn newline_as(&self, previous: Option<&Text>, ctx: &TextContext, newline: bool) -> bool {
        match self.newline {
            Some(nl) => nl.gets(ctx, newline),
            None => match previous {
                Some(line) => exists|mine: TextMode, other: TextMode|
                    #![trigger self.mode.gets(ctx, mine), line.mode.gets(ctx, other)]
                    self.mode.gets(ctx, mine) && line.mode.gets(ctx, other) && newline == (mine
                        != other),
                None => !newline,
            },
        }
    }

    /// Whether `e` is a failure that deciding on a newline before this
    /// text can end in: a failure of getting `newline`, or, where it says
    /// nothing, of getting the mode of this text or of the line before.
    pub open spec fn newline_fails_as(&self, previous: Option<&Text>, ctx: &TextContext, e: ResolutionError) -> bool {
        match self.newline {
            Some(nl) => nl.fails_as(ctx, e),
            None => match previous {
                Some(line) => self.mode.fails_as(ctx, e) || line.mode.fails_as(ctx, e),
                None => false,
            },
        }
    }

    /// Whether a newline is printed before this text: what `newline` says,
    /// or, where it says nothing, whether the mode differs from that of
    /// the line before, if there is one.
    pub fn is_newline(&self, previous: Option<&Text>, context: &TextContext) -> (r: Result<
        bool,
        ResolutionError,
    >)
        ensures
            self.newline_script_free(previous, context) ==> match self.newline_before(
                previous,
                context,
            ) {
                Some(b) => r == Ok::<bool, ResolutionError>(b),
                None => r matches Err(e) && e is Parse,
            },
            r matches Ok(b) ==> self.newline_as(previous, context, b),
            r matches Err(e) ==> self.newline_fails_as(previous, context, e),
    {
        match &self.newline {
            Some(nl) => nl.get_value(context),
            None => match previous {
                Some(line) => {
                    let mine = match self.mode.get_value(context) {
                        Ok(m) => m,
                        Err(e) => {
                            return Err(e);
                        },
                    };
                    let other = match line.mode.get_value(context) {
                        Ok(m) => m,
                        Err(e) => {
                            return Err(e);
                        },
                    };
                    Ok(mine != other)
                },
                None => Ok(false),
            },
        }
    }

    /// The lines, each with whether a newline is printed before it.
    pub fn get_separated_lines<'a>(lines: &'a TextLines, context: &TextContext) -> (r: Result<
        Vec<(bool, &'a Text)>,
        ResolutionError,
    >)
        ensures
            r matches Ok(separated) ==> {
                &&& separated.len() == lines.len()
                &&& forall|i: int| 0 <= i < separated.len() ==> *(#[trigger] separated[i]).1 == lines[i]
                &&& forall|i: int|
                    0 <= i < separated.len() ==> lines[i].newline_as(
                        if i == 0 {
                            None
                        } else {
                            Some(&lines[i - 1])
                        },
                        context,
                        (#[trigger] separated[i]).0,
                    )
                &&& forall|i: int|
                    0 <= i < separated.len() && lines[i].newline_script_free(
                        if i == 0 {
                            None
                        } else {
                            Some(&lines[i - 1])
                        },
                        context,
                    ) ==> Some((#[trigger] separated[i]).0) == lines[i].newline_before(
                        if i == 0 {
                            None
                        } else {
                            Some(&lines[i - 1])
                        },
                        context,
                    )
            },
            (forall|i: int|
                0 <= i < lines.len() ==> (#[trigger] lines[i]).newline_script_free(
                    if i == 0 {
                        None
                    } else {
                        Some(&lines[i - 1])
                    },
                    context,
                ) && lines[i].newline_before(
                    if i == 0 {
                        None
                    } else {
                        Some(&lines[i - 1])
                    },
                    context,
                ) is Some) ==> r is Ok,
            r matches Err(e) ==> exists|i: int|
                0 <= i < lines.len() && (#[trigger] lines[i]).newline_fails_as(
                    if i == 0 {
                        None
                    } else {
                        Some(&lines[i - 1])
                    },
                    context,
                    e,
                ),
    {
        let mut separated: Vec<(bool, &'a Text)> = Vec::new();
        let mut i: usize = 0;
        while i < lines.len()
            invariant
                i <= lines.len(),
                separated.len() == i,
                forall|k: int| 0 <= k < i ==> *(#[trigger] separated[k]).1 == lines[k],
                forall|k: int|
                    0 <= k < i ==> lines[k].newline_as(
                        if k == 0 {
                            None
                        } else {
                            Some(&lines[k - 1])
                        },
                        context,
                        (#[trigger] separated[k]).0,
                    ),
                forall|k: int|
                    0 <= k < i && lines[k].newline_script_free(
                        if k == 0 {
                            None
                        } else {
                            Some(&lines[k - 1])
                        },
                        context,
                    ) ==> Some((#[trigger] separated[k]).0) == lines[k].newline_before(
                        if k == 0 {
                            None
                        } else {
                            Some(&lines[k - 1])
                        },
                        context,
                    ),
            decreases lines.len() - i,
        {
            let previous: Option<&Text> = if i == 0 {
                None
            } else {
                Some(&lines[i - 1])
            };
            let newline = match lines[i].is_newline(previous, context) {
                Ok(b) => b,
                Err(e) => {
                    assert(lines@[i as int].newline_fails_as(previous, context, e));
                    return Err(e);
                },
            };
            separated.push((newline, &lines[i]));
            i = i + 1;
        }
        Ok(separated)
    }
}

} // verus!
