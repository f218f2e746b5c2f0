//! Paths to prompts.

use vstd::prelude::*;
use vstd::string::StringExecFns;
use crate::context::TextContext;
use crate::error::ResolutionError;
use crate::strings::{chars_of, str_eq, string_of_range};
use crate::templating::{templatable, TemplatableString};

verus! {

/// The two parts of a path as they are written.
#[derive(Debug)]
pub struct PathContents {
    pub file: Option<TemplatableString>,
    pub prompt: TemplatableString,
}

/// A path to a prompt, as a choice writes it: the prompt's name and, where
/// the prompt lies in another file, that file.
#[derive(Debug)]
pub struct Path {
    pub contents: PathContents,
}

/// A resolved path: a file and a prompt in it.
#[derive(Debug)]
pub struct PathData {
    pub file: String,
    pub prompt: String,
}

/// A borrowed file and prompt name to look a prompt up by.
pub struct PathLookup<'a> {
    pub file: &'a str,
    pub prompt: &'a str,
}

/// Whether `i` is the place of the last `/` in `text`.
pub open spec fn last_slash(text: Seq<char>, i: int) -> bool {
    &&& 0 <= i < text.len()
    &&& text[i] == '/'
    &&& forall|k: int| i < k < text.len() ==> text[k] != '/'
}

/// Reads a path written as one text: what stands behind the last `/` is
/// the prompt, and what stands before it the file. A text without `/` is
/// a prompt in the current file.
pub fn path_parts(text: &str) -> (parts: (Option<String>, String))
    ensures
        match parts.0 {
            Some(file) => exists|i: int| #[trigger]
                last_slash(text@, i) && file@ == text@.take(i) && parts.1@ == text@.skip(i + 1),
            None => !text@.contains('/') && parts.1@ == text@,
        },
{
    let v = chars_of(text);
    let mut i: usize = v.len();
    while i > 0
        invariant
            i <= v.len(),
            v@ == text@,
            forall|k: int| i <= k < v.len() ==> v@[k] != '/',
        decreases i,
    {
        if v[i - 1] == '/' {
            let file = string_of_range(&v, 0, i - 1);
            let prompt = string_of_range(&v, i, v.len());
            assert(last_slash(text@, i - 1));
            assert(file@ =~= text@.take(i - 1));
            assert(prompt@ =~= text@.skip(i as int));
            return (Some(file), prompt);
        }
        i = i - 1;
    }
    (None, String::from_str(text))
}

impl PathContents {
    /// The path that `text` writes: see `path_parts`.
    pub fn from_text(text: &str) -> (contents: PathContents)
        ensures
            match contents.file {
                Some(file) => exists|i: int| #[trigger]
                    last_slash(text@, i) && file.content@ == text@.take(i)
                        && contents.prompt.content@ == text@.skip(i + 1),
                None => !text@.contains('/') && contents.prompt.content@ == text@,
            },
    {
        let (file, prompt) = path_parts(text);
        PathContents {
            file: match file {
                Some(f) => Some(TemplatableString::new(f)),
                None => None,
            },
            prompt: TemplatableString::new(prompt),
        }
    }
}

impl<'a> PathLookup<'a> {
    /// A lookup of `prompt` in `file`.
    pub fn new(file: &'a str, prompt: &'a str) -> (lookup: PathLookup<'a>)
        ensures
            lookup.file@ == file@,
            lookup.prompt@ == prompt@,
    {
        PathLookup { file, prompt }
    }

    /// The path that this lookup names.
    pub fn into(self) -> (data: PathData)
        ensures
            data.file@ == self.file@,
            data.prompt@ == self.prompt@,
    {
        PathData { file: String::from_str(self.file), prompt: String::from_str(self.prompt) }
    }
}

/// A resolved path as plain values.
pub struct PathName {
    pub file: Seq<char>,
    pub prompt: Seq<char>,
}

impl View for PathData {
    type V = PathName;

    open spec fn view(&self) -> PathName {
        PathName { file: self.file@, prompt: self.prompt@ }
    }
}

impl PathData {
    /// A copy of this path.
    pub fn duplicate(&self) -> (data: PathData)
        ensures
            data == *self,
    {
        PathData { file: self.file.clone(), prompt: self.prompt.clone() }
    }

    /// The path as `file/prompt`.
    pub fn to_string(&self) -> (out: String)
        ensures
            out@ == self.file@ + seq!['/'] + self.prompt@,
    {
        proof {
            reveal_strlit("/");
        }
        let mut out = self.file.clone();
        out.append("/");
        out.append(self.prompt.as_str());
        assert(out@ =~= self.file@ + seq!['/'] + self.prompt@);
        out
    }
}

impl Path {
    /// The file part, if one is written.
    pub fn file(&self) -> (file: &Option<TemplatableString>)
        ensures
            *file == self.contents.file,
    {
        &self.contents.file
    }

    /// The prompt part.
    pub fn prompt(&self) -> (prompt: &TemplatableString)
        ensures
            *prompt == self.contents.prompt,
    {
        &self.contents.prompt
    }

    /// Whether both parts are known without resolving anything.
    pub open spec fn validatable(&self) -> bool {
        &&& match self.contents.file {
            Some(f) => !templatable(f.content@),
            None => true,
        }
        &&& !templatable(self.contents.prompt.content@)
    }

    /// The file that the path points into, read from `current_file`, where
    /// it is known without resolving anything.
    pub open spec fn static_file_text(&self, current_file: Seq<char>) -> Option<Seq<char>> {
        if self.validatable() {
            Some(
                match self.contents.file {
                    Some(f) => f.content@,
                    None => current_file,
                },
            )
        } else {
            None
        }
    }

    /// Whether the path can be checked without resolving anything: both
    /// parts must be free of templates.
    pub fn is_validatable(&self) -> (r: bool)
        ensures
            r == self.validatable(),
    {
        let file_ok = match &self.contents.file {
            Some(f) => f.is_validatable(),
            None => true,
        };
        file_ok && self.contents.prompt.is_validatable()
    }

    /// The file that the path points into, read from `current_file`, if the
    /// path can be checked without resolving anything.
    pub fn static_file(&self, current_file: &str) -> (r: Option<String>)
        ensures
            match r {
                Some(f) => self.static_file_text(current_file@) == Some(f@),
                None => self.static_file_text(current_file@) is None,
            },
    {
        if !self.is_validatable() {
            return None;
        }
        let result = match &self.contents.file {
            Some(f) => f.content.clone(),
            None => String::from_str(current_file),
        };
        Some(result)
    }

    /// The file and prompt that the path names, read from `current_file`,
    /// if the path can be checked without resolving anything.
    pub fn static_data(&self, current_file: &str) -> (r: Option<PathData>)
        ensures
            match r {
                Some(d) => self.static_file_text(current_file@) == Some(d.file@) && d.prompt@
                    == self.contents.prompt.content@,
                None => self.static_file_text(current_file@) is None,
            },
    {
        match self.static_file(current_file) {
            Some(file) => Some(PathData { file, prompt: self.contents.prompt.content.clone() }),
            None => None,
        }
    }

    /// Whether the path, read from `current_file` and without resolving
    /// anything, names the prompt `other`.
    pub fn matches(&self, current_file: &str, other: &PathData) -> (r: bool)
        ensures
            r == (self.static_file_text(current_file@) == Some(other.file@)
                && self.contents.prompt.content@ == other.prompt@),
    {
        match self.static_data(current_file) {
            Some(data) => str_eq(data.prompt.as_str(), other.prompt.as_str()) && str_eq(
                data.file.as_str(),
                other.file.as_str(),
            ),
            None => false,
        }
    }

    /// Whether resolving the path calls no script.
    pub open spec fn script_free(&self, ctx: &TextContext) -> bool {
        &&& match self.contents.file {
            Some(f) => f.script_free(ctx),
            None => true,
        }
        &&& self.contents.prompt.script_free(ctx)
    }

    /// The path resolved from the file `current_file`, where resolving it
    /// calls no script. A path without a file stays in the current file.
    pub open spec fn filled(&self, current_file: Seq<char>, ctx: &TextContext) -> PathName {
        PathName {
            file: match self.contents.file {
                Some(f) => f.plain(ctx),
                None => current_file,
            },
            prompt: self.contents.prompt.plain(ctx),
        }
    }

    /// Whether `name` is a path that resolving this path from the file
    /// `current_file` can give: file and prompt fill to those of `name`,
    /// and a path without a file stays in the current file.
    pub open spec fn fills_as(&self, current_file: Seq<char>, ctx: &TextContext, name: PathName) -> bool {
        &&& match self.contents.file {
            Some(f) => f.fills_to(ctx, name.file),
            None => name.file == current_file,
        }
        &&& self.contents.prompt.fills_to(ctx, name.prompt)
    }

    /// Whether `e` is a failure that resolving this path can end in: a
    /// failure of filling its file or its prompt.
    pub open spec fn fails_as(&self, ctx: &TextContext, e: ResolutionError) -> bool {
        ||| self.contents.file is Some && self.contents.file->0.fails_as(ctx, e)
        ||| self.contents.prompt.fails_as(ctx, e)
    }

    /// Resolves the path against the path `current` that the player is at:
    /// where no file is written, the file of `current` is taken.
    pub fn fill(&self, current: &PathData, text_context: &TextContext) -> (r: Result<
        PathData,
        ResolutionError,
    >)
        ensures
            self.script_free(text_context) ==> (r matches Ok(data) && data@ == self.filled(
                current.file@,
                text_context,
            )),
            r matches Ok(data) ==> self.fills_as(current.file@, text_context, data@),
            r matches Err(e) ==> self.fails_as(text_context, e),
    {
        let file = match &self.contents.file {
            Some(f) => match f.fill(text_context) {
                Ok(t) => t,
                Err(e) => {
                    return Err(e);
                },
            },
            None => current.file.clone(),
        };
        match self.contents.prompt.fill(text_context) {
            Ok(prompt) => Ok(PathData { file, prompt }),
            Err(e) => Err(e),
        }
    }
}

} // verus!
