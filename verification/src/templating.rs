//! Templatable strings and values.
//!
//! A templatable string may hold script calls, written `(name)`, and
//! variable interpolations, written `<name>`. A templatable value is either
//! a value, or a templatable string that is parsed once it is resolved.

use vstd::prelude::*;
use crate::context::TextContext;
use crate::error::ResolutionError;
use crate::parse::Templated;
use crate::resources::TranslationFile;
use crate::spans::{
    lemma_no_opener_no_span, lemma_single_span, lemma_splice_without_spans, span_names,
    span_names_of, splice, splice_spans,
};
use crate::strings::{contains_char, texts};

verus! {

/// The character that opens a script call.
pub const SCRIPT_OPEN: char = '(';

/// The character that closes a script call.
pub const SCRIPT_CLOSE: char = ')';

/// The character that opens a variable interpolation.
pub const VARIABLE_OPEN: char = '<';

/// The character that closes a variable interpolation.
pub const VARIABLE_CLOSE: char = '>';

/// A string that may hold script calls and variable interpolations, or name
/// a key of a translation file.
#[derive(Debug)]
pub struct TemplatableString {
    pub content: String,
}

/// Whether `content` holds a character that opens a script call or a
/// variable interpolation.
pub open spec fn templatable(content: Seq<char>) -> bool {
    content.contains('(') || content.contains('<')
}

/// The names of the script calls in `text`, in order.
pub open spec fn script_names(text: Seq<char>) -> Seq<Seq<char>> {
    span_names(text, '(', ')', 0)
}

/// The names of the variable interpolations in `text`, in order.
pub open spec fn variable_names(text: Seq<char>) -> Seq<Seq<char>> {
    span_names(text, '<', '>', 0)
}

/// `text` with its script calls replaced by `outputs`, in order.
pub open spec fn with_script_outputs(text: Seq<char>, outputs: Seq<Seq<char>>) -> Seq<char> {
    splice(text, '(', ')', outputs, 0, 0)
}

/// `text` with its variable interpolations replaced by `values`, in order.
pub open spec fn with_variable_values(text: Seq<char>, values: Seq<Seq<char>>) -> Seq<char> {
    splice(text, '<', '>', values, 0, 0)
}

/// `content` as the translation file gives it: the text stored under the
/// whole content as a key, or the content itself.
pub open spec fn translation(content: Seq<char>, file: Option<TranslationFile>) -> Seq<char> {
    match file {
        Some(f) => if f@.contains_key(content) {
            f@[content]@
        } else {
            content
        },
        None => content,
    }
}

/// `text` with each variable interpolation replaced by the text that
/// `ctx` gives for its name.
pub open spec fn interpolated(text: Seq<char>, ctx: &TextContext) -> Seq<char> {
    with_variable_values(
        text,
        variable_names(text).map_values(|name: Seq<char>| ctx.value_text(name)),
    )
}

/// A single interpolation resolves to the text that the context gives for
/// its name: the value of a reserved name, else the player's variable,
/// else `UNDEFINED`.
pub proof fn lemma_single_interpolation(name: Seq<char>, ctx: &TextContext)
    requires
        !name.contains('<'),
        !name.contains('>'),
    ensures
        interpolated(seq!['<'] + name + seq!['>'], ctx) == ctx.value_text(name),
{
    let text = seq!['<'] + name + seq!['>'];
    let values = variable_names(text).map_values(|n: Seq<char>| ctx.value_text(n));
    lemma_single_span(name, '<', '>', values, 0);
    assert(values.len() == 1);
    assert(values[0] == ctx.value_text(name));
}

impl TemplatableString {
    /// The text that stands in for an interpolation without a value.
    pub const DEFAULT_VALUE: &'static str = "UNDEFINED";

    /// A templatable string with the given content.
    pub fn new(content: String) -> (s: TemplatableString)
        ensures
            s.content == content,
    {
        TemplatableString { content }
    }

    /// A copy of this string.
    pub fn duplicate(&self) -> (copy: TemplatableString)
        ensures
            copy == *self,
    {
        TemplatableString { content: self.content.clone() }
    }

    /// Whether the content can be templated by variables or scripts. This
    /// does not look at translation files.
    pub fn is_str_templatable(content: &str) -> (r: bool)
        ensures
            r == templatable(content@),
    {
        contains_char(content, '(') || contains_char(content, '<')
    }

    /// Whether this string can be templated by variables or scripts.
    pub fn is_templatable(&self) -> (r: bool)
        ensures
            r == templatable(self.content@),
    {
        Self::is_str_templatable(self.content.as_str())
    }

    /// Whether this string is known without resolving anything.
    pub fn is_validatable(&self) -> (r: bool)
        ensures
            r == !templatable(self.content@),
    {
        !self.is_templatable()
    }

    /// The content, if it is known without resolving anything.
    pub fn content(&self) -> (r: Option<&str>)
        ensures
            match r {
                Some(c) => !templatable(self.content@) && c@ == self.content@,
                None => templatable(self.content@),
            },
    {
        if self.is_templatable() {
            None
        } else {
            Some(self.content.as_str())
        }
    }

    /// The names of the spans of `content` between `before` and `after`, in
    /// order.
    pub fn template_names(content: &str, before: char, after: char) -> (names: Vec<String>)
        ensures
            texts(names@) == span_names(content@, before, after, 0),
    {
        span_names_of(content, before, after)
    }

    /// Fills the spans of `content` between `before` and `after` with
    /// `fills`, in order. A span without a fill becomes `UNDEFINED`. What
    /// lies outside a span is kept.
    pub fn template(content: &str, before: char, after: char, fills: &Vec<String>) -> (out: String)
        ensures
            out@ == splice(content@, before, after, texts(fills@), 0, 0),
    {
        splice_spans(content, before, after, fills)
    }

    /// The content after the translation pass.
    pub open spec fn translated(&self, ctx: &TextContext) -> Seq<char> {
        translation(self.content@, ctx.translations())
    }

    /// Whether filling this string calls no script.
    pub open spec fn script_free(&self, ctx: &TextContext) -> bool {
        script_names(self.translated(ctx)).len() == 0
    }

    /// What this string resolves to, given the texts that its script calls
    /// returned, in order.
    pub open spec fn filled_with(&self, outputs: Seq<Seq<char>>, ctx: &TextContext) -> Seq<char> {
        interpolated(with_script_outputs(self.translated(ctx), outputs), ctx)
    }

    /// What this string resolves to where it calls no script.
    pub open spec fn plain(&self, ctx: &TextContext) -> Seq<char> {
        interpolated(self.translated(ctx), ctx)
    }

    /// Whether `text` is a text that filling this string can give: the
    /// string filled with some outputs of its script calls, one for each
    /// call. Where the string calls no script, that is its plain text and
    /// no other.
    pub open spec fn fills_to(&self, ctx: &TextContext, text: Seq<char>) -> bool {
        &&& exists|outputs: Seq<Seq<char>>|
            outputs.len() == script_names(self.translated(ctx)).len() && text
                == #[trigger] self.filled_with(outputs, ctx)
        &&& self.script_free(ctx) ==> text == self.plain(ctx)
    }

    /// Whether `e` is a failure of the `i`-th script call of this string:
    /// the calls before it were of loaded scripts, and either the `i`-th
    /// script is not loaded, or it is loaded and failed.
    pub open spec fn fails_at(&self, ctx: &TextContext, i: int, e: ResolutionError) -> bool {
        let names = script_names(self.translated(ctx));
        &&& 0 <= i < names.len()
        &&& forall|j: int| 0 <= j < i ==> ctx.script_known(#[trigger] names[j])
        &&& match e {
            ResolutionError::UnknownScript { name } => name@ == names[i] && !ctx.script_known(
                name@,
            ),
            ResolutionError::ScriptFailed { name, .. } => name@ == names[i] && ctx.script_known(
                name@,
            ),
            ResolutionError::Parse { .. } => false,
        }
    }

    /// Whether `e` is a failure that filling this string can end in: the
    /// failure of one of its script calls.
    pub open spec fn fails_as(&self, ctx: &TextContext, e: ResolutionError) -> bool {
        exists|i: int| #[trigger] self.fails_at(ctx, i, e)
    }

    /// Whether a string calls a script depends on the game's content and
    /// the display language alone, not on the player's notes and variables.
    pub proof fn lemma_script_free_by_language(&self, a: &TextContext, b: &TextContext)
        requires
            a.stc == b.stc,
            a.lang@ == b.lang@,
        ensures
            self.script_free(a) == self.script_free(b),
    {
    }

    /// A string without script calls resolves to its plain text, whatever
    /// outputs are handed in.
    pub proof fn lemma_script_free(&self, outputs: Seq<Seq<char>>, ctx: &TextContext)
        requires
            self.script_free(ctx),
        ensures
            self.filled_with(outputs, ctx) == self.plain(ctx),
    {
        let text = self.translated(ctx);
        lemma_splice_without_spans(text, '(', ')', outputs, 0, 0);
        assert(text.subrange(0, text.len() as int) =~= text);
    }

    /// A string that holds neither `(` nor `<` and is no translation key
    /// resolves to itself.
    pub proof fn lemma_plain_text_unchanged(&self, ctx: &TextContext)
        requires
            !templatable(self.content@),
            self.translated(ctx) == self.content@,
        ensures
            self.script_free(ctx),
            self.plain(ctx) == self.content@,
    {
        let text = self.content@;
        lemma_no_opener_no_span(text, '(', ')', 0);
        lemma_no_opener_no_span(text, '<', '>', 0);
        let values = variable_names(text).map_values(|name: Seq<char>| ctx.value_text(name));
        lemma_splice_without_spans(text, '<', '>', values, 0, 0);
        assert(text.subrange(0, text.len() as int) =~= text);
    }

    /// The content as the translation file gives it: if the whole content
    /// is a key of `lang_file`, the text stored under it, else the content.
    pub fn lang_file_content<'b>(&'b self, lang_file: Option<&'b TranslationFile>) -> (text: &'b String)
        ensures
            text@ == translation(
                self.content@,
                match lang_file {
                    Some(f) => Some(*f),
                    None => None,
                },
            ),
    {
        match lang_file {
            Some(file) => match file.get(self.content.as_str()) {
                Some(text) => text,
                None => &self.content,
            },
            None => &self.content,
        }
    }

    /// `text` with each variable interpolation `<name>` replaced: by the
    /// value of a reserved name, else by the player's variable, else by
    /// `UNDEFINED`.
    pub fn interpolate(text: &str, ctx: &TextContext) -> (out: String)
        ensures
            out@ == interpolated(text@, ctx),
    {
        let names = span_names_of(text, VARIABLE_OPEN, VARIABLE_CLOSE);
        let mut values: Vec<String> = Vec::new();
        let mut i: usize = 0;
        let ghost wanted = variable_names(text@).map_values(|name: Seq<char>| ctx.value_text(name));
        assert(texts(names@).len() == names.len());
        while i < names.len()
            invariant
                i <= names.len(),
                values.len() == i,
                texts(names@) == variable_names(text@),
                wanted == variable_names(text@).map_values(|name: Seq<char>| ctx.value_text(name)),
                forall|k: int| 0 <= k < i ==> values[k]@ == wanted[k],
            decreases names.len() - i,
        {
            assert(texts(names@)[i as int] == names[i as int]@);
            values.push(ctx.fill_variable(names[i].as_str()));
            i = i + 1;
        }
        assert(texts(values@) =~= wanted);
        splice_spans(text, VARIABLE_OPEN, VARIABLE_CLOSE, &values)
    }

    /// The names of the script calls that filling this string makes, in
    /// order.
    pub fn script_calls(&self, ctx: &TextContext) -> (names: Vec<String>)
        ensures
            texts(names@) == script_names(self.translated(ctx)),
    {
        let content = self.lang_file_content(ctx.lang_file());
        span_names_of(content.as_str(), SCRIPT_OPEN, SCRIPT_CLOSE)
    }

    /// Fills this string, given the texts that its script calls returned:
    /// the translation pass, then each script call replaced by its output,
    /// then each variable interpolation replaced by its value.
    pub fn fill_with(&self, outputs: &Vec<String>, ctx: &TextContext) -> (out: String)
        ensures
            out@ == self.filled_with(texts(outputs@), ctx),
    {
        let content = self.lang_file_content(ctx.lang_file());
        let scripted = splice_spans(content.as_str(), SCRIPT_OPEN, SCRIPT_CLOSE, outputs);
        Self::interpolate(scripted.as_str(), ctx)
    }

    /// Fills this string: the translation pass, then the script calls from
    /// left to right, then the variable interpolations.
    ///
    /// Where the string calls no script, the result is its plain text. A
    /// call of a script that is not loaded fails with `UnknownScript`; a
    /// loaded script decides its own outcome, and the first failure ends
    /// the filling.
    pub fn fill(&self, ctx: &TextContext) -> (r: Result<String, ResolutionError>)
        ensures
            self.script_free(ctx) ==> (r matches Ok(s) && s@ == self.plain(ctx)),
            r matches Ok(s) ==> {
                &&& self.fills_to(ctx, s@)
                &&& forall|i: int|
                    0 <= i < script_names(self.translated(ctx)).len() ==> ctx.script_known(
                        #[trigger] script_names(self.translated(ctx))[i],
                    )
            },
            r matches Err(e) ==> self.fails_as(ctx, e),
    {
        let calls = self.script_calls(ctx);
        let mut outputs: Vec<String> = Vec::new();
        let mut i: usize = 0;
        let ghost names = script_names(self.translated(ctx));
        assert(texts(calls@).len() == calls.len());
        while i < calls.len()
            invariant
                i <= calls.len(),
                outputs.len() == i,
                texts(calls@) == names,
                names == script_names(self.translated(ctx)),
                forall|k: int| 0 <= k < i ==> ctx.script_known(#[trigger] names[k]),
            decreases calls.len() - i,
        {
            assert(texts(calls@)[i as int] == calls[i as int]@);
            match ctx.resources().scripts.get(calls[i].as_str(), ctx) {
                Ok(output) => {
                    outputs.push(output);
                },
                Err(e) => {
                    assert(self.fails_at(ctx, i as int, e));
                    return Err(e);
                },
            }
            i = i + 1;
        }
        let out = self.fill_with(&outputs, ctx);
        proof {
            assert(texts(outputs@).len() == names.len());
            if self.script_free(ctx) {
                self.lemma_script_free(texts(outputs@), ctx);
            }
        }
        Ok(out)
    }
}

/// Where a templatable value comes from.
#[derive(Debug)]
pub enum ValueSource<T> {
    /// The value itself.
    Value(T),
    /// A template that must resolve to a text of the value.
    Template(TemplatableString),
}

/// Either a value of type `T`, or a template that resolves to one.
#[derive(Debug)]
pub struct TemplatableValue<T> {
    pub source: ValueSource<T>,
}

impl<T> TemplatableValue<T> {
    /// A templatable value that holds `value` itself.
    pub fn value(value: T) -> (v: TemplatableValue<T>)
        ensures
            v.source == ValueSource::Value(value),
    {
        TemplatableValue { source: ValueSource::Value(value) }
    }

    /// A templatable value that is resolved from `content`.
    pub fn template(content: String) -> (v: TemplatableValue<T>)
        ensures
            v.source matches ValueSource::Template(t) && t.content == content,
    {
        TemplatableValue { source: ValueSource::Template(TemplatableString { content }) }
    }

    /// The value, if it is known without resolving anything.
    pub fn static_value(&self) -> (r: Option<&T>)
        ensures
            match r {
                Some(v) => self.source == ValueSource::Value(*v),
                None => self.source is Template,
            },
    {
        match &self.source {
            ValueSource::Value(v) => Some(v),
            ValueSource::Template(_) => None,
        }
    }

    /// Whether getting this value calls no script.
    pub open spec fn script_free(&self, ctx: &TextContext) -> bool {
        match self.source {
            ValueSource::Value(_) => true,
            ValueSource::Template(t) => t.script_free(ctx),
        }
    }
}

impl<T: Templated> TemplatableValue<T> {
    /// Whether `v` is a value that getting this value can give: the value
    /// itself, or what a text that the template fills to denotes. Where
    /// the template calls no script, that is what its plain text denotes.
    pub open spec fn gets(&self, ctx: &TextContext, v: T) -> bool {
        match self.source {
            ValueSource::Value(x) => v == x,
            ValueSource::Template(t) => {
                &&& exists|text: Seq<char>| #[trigger]
                    t.fills_to(ctx, text) && T::from_text(text) == Some(v)
                &&& t.script_free(ctx) ==> T::from_text(t.plain(ctx)) == Some(v)
            },
        }
    }

    /// Whether `e` is a failure that getting this value can end in: a
    /// failure of one of the script calls of the template, or a `Parse`
    /// error that names the template and a text that it fills to and that
    /// denotes no value. A value that is there never fails.
    pub open spec fn fails_as(&self, ctx: &TextContext, e: ResolutionError) -> bool {
        match self.source {
            ValueSource::Value(_) => false,
            ValueSource::Template(t) => match e {
                ResolutionError::Parse { template, resolved } => {
                    &&& template@ == t.content@
                    &&& t.fills_to(ctx, resolved@)
                    &&& T::from_text(resolved@) is None
                },
                _ => t.fails_as(ctx, e),
            },
        }
    }

    /// Where getting the value calls no script, the only failure is a
    /// `Parse` error that names the template and its plain text, which
    /// denotes no value.
    pub proof fn lemma_script_free_failure(&self, ctx: &TextContext, e: ResolutionError)
        requires
            self.script_free(ctx),
            self.fails_as(ctx, e),
        ensures
            self.source is Template,
            self.resolved(ctx) is None,
            e matches ResolutionError::Parse { template, resolved } && template@
                == self.source->Template_0.content@ && resolved@ == self.source->Template_0.plain(ctx),
    {
    }

    /// The value where getting it calls no script: the value itself, or
    /// what the plain text of the template denotes, if it denotes a value.
    pub open spec fn resolved(&self, ctx: &TextContext) -> Option<T> {
        match self.source {
            ValueSource::Value(v) => Some(v),
            ValueSource::Template(t) => T::from_text(t.plain(ctx)),
        }
    }

    /// The value that `text` denotes, if it denotes one; else the parse
    /// error that names the template `template` and `text`.
    pub fn parse_resolved(template: &TemplatableString, text: String) -> (r: Result<
        T,
        ResolutionError,
    >)
        ensures
            match T::from_text(text@) {
                Some(v) => r == Ok::<T, ResolutionError>(v),
                None => r matches Err(ResolutionError::Parse { template: t, resolved })
                    && t@ == template.content@ && resolved@ == text@,
            },
    {
        match T::parse_text(text.as_str()) {
            Some(v) => Ok(v),
            None => Err(
                ResolutionError::Parse { template: template.content.clone(), resolved: text },
            ),
        }
    }

    /// Gets the value: a copy of the value itself, or the template filled
    /// and parsed.
    ///
    /// A value that is there is returned as it is. A template is filled
    /// first; a failure of the filling is handed on, and a text that
    /// denotes no value fails with `Parse`, naming the template and the
    /// text.
    pub fn get_value(&self, ctx: &TextContext) -> (r: Result<T, ResolutionError>)
        ensures
            self.script_free(ctx) ==> match self.resolved(ctx) {
                Some(v) => r == Ok::<T, ResolutionError>(v),
                None => r matches Err(ResolutionError::Parse { template, resolved })
                    && self.source matches ValueSource::Template(t) && template@ == t.content@
                    && resolved@ == t.plain(ctx),
            },
            r matches Ok(v) ==> self.gets(ctx, v),
            r matches Err(e) ==> self.fails_as(ctx, e),
    {
        match &self.source {
            ValueSource::Value(v) => Ok(v.duplicate()),
            ValueSource::Template(t) => match t.fill(ctx) {
                Ok(text) => Self::parse_resolved(t, text),
                Err(e) => Err(e),
            },
        }
    }
}

} // verus!
