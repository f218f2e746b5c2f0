//! Notes: the symbolic flags a player holds, and the records that change them.

use vstd::prelude::*;
use crate::context::TextContext;
use crate::error::ResolutionError;
use crate::strings::{chars_of, str_eq, string_of_range, texts};
use crate::templating::{TemplatableString, TemplatableValue, ValueSource};

verus! {

/// The set of symbols a player currently holds. No symbol occurs twice.
#[derive(Debug)]
pub struct Notes {
    symbols: Vec<String>,
}

/// Whether no text occurs twice among `symbols`.
pub open spec fn distinct_texts(symbols: Seq<String>) -> bool {
    forall|i: int, j: int|
        0 <= i < symbols.len() && 0 <= j < symbols.len() && i != j ==> symbols[i]@ != symbols[j]@
}

impl Notes {
    #[verifier::type_invariant]
    spec fn distinct(self) -> bool {
        distinct_texts(self.symbols@)
    }

    /// The symbols held, as a set of texts.
    pub closed spec fn view(&self) -> Set<Seq<char>> {
        Set::new(|name: Seq<char>| exists|i: int| 0 <= i < self.symbols.len() && self.symbols[i]@ == name)
    }

    /// The symbols in the order in which they were first inserted.
    pub closed spec fn ordered(&self) -> Seq<Seq<char>> {
        Seq::new(self.symbols.len() as nat, |i: int| self.symbols[i]@)
    }

    /// No notes at all.
    pub fn new() -> (notes: Notes)
        ensures
            notes@ == Set::<Seq<char>>::empty(),
            notes.ordered() == Seq::<Seq<char>>::empty(),
    {
        let notes = Notes { symbols: Vec::new() };
        assert(notes@ =~= Set::<Seq<char>>::empty());
        assert(notes.ordered() =~= Seq::<Seq<char>>::empty());
        notes
    }

    /// The position of `name` among the symbols, if it is held.
    fn position(&self, name: &str) -> (r: Option<usize>)
        ensures
            match r {
                Some(i) => i < self.symbols.len() && self.symbols[i as int]@ == name@,
                None => forall|k: int| 0 <= k < self.symbols.len() ==> self.symbols[k]@ != name@,
            },
    {
        let mut i: usize = 0;
        while i < self.symbols.len()
            invariant
                i <= self.symbols.len(),
                forall|k: int| 0 <= k < i ==> self.symbols[k]@ != name@,
            decreases self.symbols.len() - i,
        {
            if str_eq(self.symbols[i].as_str(), name) {
                return Some(i);
            }
            i = i + 1;
        }
        None
    }

    /// Whether the symbol `name` is held.
    pub fn contains(&self, name: &str) -> (r: bool)
        ensures
            r == self@.contains(name@),
    {
        self.position(name).is_some()
    }

    /// How many symbols are held.
    pub fn len(&self) -> (n: usize)
        ensures
            n == self.ordered().len(),
    {
        self.symbols.len()
    }

    /// Whether no symbol is held.
    pub fn is_empty(&self) -> (r: bool)
        ensures
            r == (self@ == Set::<Seq<char>>::empty()),
    {
        let r = self.symbols.len() == 0;
        proof {
            if r {
                assert(self@ =~= Set::<Seq<char>>::empty());
            } else {
                assert(self@.contains(self.symbols[0]@));
            }
        }
        r
    }

    /// Adds the symbol `name`; returns whether it was new.
    pub fn insert(&mut self, name: String) -> (added: bool)
        ensures
            final(self)@ == old(self)@.insert(name@),
            added == !old(self)@.contains(name@),
    {
        proof {
            use_type_invariant(&*self);
        }
        match self.position(name.as_str()) {
            Some(_) => {
                assert(self@ =~= old(self)@.insert(name@));
                false
            },
            None => {
                let mut symbols: Vec<String> = Vec::new();
                core::mem::swap(&mut self.symbols, &mut symbols);
                symbols.push(name);
                core::mem::swap(&mut self.symbols, &mut symbols);
                assert(self@ =~= old(self)@.insert(name@)) by {
                    assert forall|t: Seq<char>| old(self)@.insert(name@).contains(t) implies self@.contains(t) by {
                        if t == name@ {
                            assert(self.symbols[self.symbols.len() - 1]@ == t);
                        } else {
                            let i = choose|i: int| 0 <= i < old(self).symbols.len() && old(self).symbols[i]@ == t;
                            assert(self.symbols[i]@ == t);
                        }
                    }
                }
                true
            },
        }
    }

    /// Takes the symbol `name` away; returns whether it was held.
    pub fn remove(&mut self, name: &str) -> (removed: bool)
        ensures
            final(self)@ == old(self)@.remove(name@),
            removed == old(self)@.contains(name@),
    {
        proof {
            use_type_invariant(&*self);
        }
        match self.position(name) {
            Some(i) => {
                let mut symbols: Vec<String> = Vec::new();
                core::mem::swap(&mut self.symbols, &mut symbols);
                symbols.remove(i);
                core::mem::swap(&mut self.symbols, &mut symbols);
                assert(self@ =~= old(self)@.remove(name@)) by {
                    assert forall|t: Seq<char>| old(self)@.remove(name@).contains(t) implies self@.contains(t) by {
                        let k = choose|k: int| 0 <= k < old(self).symbols.len() && old(self).symbols[k]@ == t;
                        if k < i {
                            assert(self.symbols[k]@ == t);
                        } else {
                            assert(self.symbols[k - 1]@ == t);
                        }
                    }
                    assert forall|t: Seq<char>| self@.contains(t) implies old(self)@.remove(name@).contains(t) by {
                        let k = choose|k: int| 0 <= k < self.symbols.len() && self.symbols[k]@ == t;
                        if k < i {
                            assert(old(self).symbols[k]@ == t);
                        } else {
                            assert(old(self).symbols[k + 1]@ == t);
                        }
                    }
                }
                true
            },
            None => {
                assert(self@ =~= old(self)@.remove(name@));
                false
            },
        }
    }

    /// The symbols held, in the order in which they were first inserted.
    pub fn to_vec(&self) -> (names: Vec<String>)
        ensures
            texts(names@) == self.ordered(),
    {
        let mut names: Vec<String> = Vec::new();
        let mut i: usize = 0;
        while i < self.symbols.len()
            invariant
                i <= self.symbols.len(),
                names.len() == i,
                forall|k: int| 0 <= k < i ==> names[k]@ == self.symbols[k]@,
            decreases self.symbols.len() - i,
        {
            names.push(self.symbols[i].clone());
            i = i + 1;
        }
        assert(texts(names@) =~= self.ordered());
        names
    }

    /// A copy of these notes.
    pub fn snapshot(&self) -> (copy: Notes)
        ensures
            copy@ == self@,
            copy.ordered() == self.ordered(),
    {
        proof {
            use_type_invariant(self);
        }
        let names = self.to_vec();
        assert(texts(names@).len() == names.len());
        assert(self.ordered().len() == self.symbols.len());
        assert forall|i: int| 0 <= i < names.len() implies names[i]@ == self.symbols[i]@ by {
            assert(texts(names@)[i] == self.ordered()[i]);
        }
        assert forall|i: int, j: int|
            0 <= i < names.len() && 0 <= j < names.len() && i != j implies names[i]@ != names[j]@ by {
            assert(names[i]@ == self.symbols[i]@);
            assert(names[j]@ == self.symbols[j]@);
        }
        let copy = Notes { symbols: names };
        assert(copy.ordered() =~= self.ordered());
        assert(copy@ =~= self@) by {
            assert forall|t: Seq<char>| self@.contains(t) implies copy@.contains(t) by {
                let i = choose|i: int| 0 <= i < self.symbols.len() && self.symbols[i]@ == t;
                assert(copy.symbols[i]@ == t);
            }
            assert forall|t: Seq<char>| copy@.contains(t) implies self@.contains(t) by {
                let i = choose|i: int| 0 <= i < copy.symbols.len() && copy.symbols[i]@ == t;
                assert(self.symbols[i]@ == t);
            }
        }
        copy
    }
}

/// What a note action says of one note.
///
/// `state` is the value in the sense of the action (for a requirement:
/// whether the note must be held; for an application: whether it is given).
/// `inverse` is the same value written the other way round; it is read only
/// where `state` is missing.
#[derive(Debug)]
pub struct NoteStateContents {
    /// The name of the note.
    pub name: TemplatableString,
    pub state: Option<TemplatableValue<bool>>,
    pub inverse: Option<TemplatableValue<bool>>,
}

/// Reads a note written as one text: a `!` at the end takes the note (or
/// asks that it is not held), and the name is what stands before it; any
/// other text names a note to give (or to hold).
pub fn note_parts(text: &str) -> (parts: (String, bool))
    ensures
        parts.1 == !(text@.len() > 0 && text@.last() == '!'),
        parts.0@ == if parts.1 {
            text@
        } else {
            text@.drop_last()
        },
{
    let v = chars_of(text);
    let n = v.len();
    if n > 0 && v[n - 1] == '!' {
        let name = string_of_range(&v, 0, n - 1);
        assert(name@ =~= text@.drop_last());
        (name, false)
    } else {
        (String::from_str(text), true)
    }
}

impl NoteStateContents {
    /// The note state that `text` writes: see `note_parts`. The state is
    /// a fixed value and no inverse is set.
    pub fn from_text(text: &str) -> (contents: NoteStateContents)
        ensures
            contents.name.content@ == if text@.len() > 0 && text@.last() == '!' {
                text@.drop_last()
            } else {
                text@
            },
            contents.state == Some(
                TemplatableValue::<bool> {
                    source: ValueSource::Value(!(text@.len() > 0 && text@.last() == '!')),
                },
            ),
            contents.inverse is None,
    {
        let (name, state) = note_parts(text);
        NoteStateContents {
            name: TemplatableString::new(name),
            state: Some(TemplatableValue::value(state)),
            inverse: None,
        }
    }
}

/// One note action.
#[derive(Debug)]
pub struct NoteState {
    pub state: NoteStateContents,
}

/// Note actions in the order in which they are written.
pub type NoteStates = Vec<NoteState>;

/// What a choice does to the player's notes, and what it asks of them.
#[derive(Debug)]
pub struct NoteActions {
    /// Notes to give or take.
    pub apply: Option<NoteStates>,
    /// Notes that the player must hold, or must not hold.
    pub require: Option<NoteStates>,
    /// A note that the player must not hold yet, and that is given when
    /// the choice is taken.
    pub once: Option<TemplatableString>,
}

/// The record of one note being changed: `take` removes the note, else it
/// is inserted.
#[derive(Debug)]
pub struct NoteEntry {
    pub value: String,
    pub take: bool,
}

/// Note records in the order in which they are applied.
pub type NoteEntries = Vec<NoteEntry>;

impl NoteEntry {
    /// The record of taking (`take`) or giving the note `value`.
    pub fn new(value: String, take: bool) -> (entry: NoteEntry)
        ensures
            entry.value == value,
            entry.take == take,
    {
        NoteEntry { value, take }
    }
}

/// One change of a note, as plain values: `take` removes the note `name`,
/// else it is inserted.
pub struct NoteChange {
    pub name: Seq<char>,
    pub take: bool,
}

impl View for NoteEntry {
    type V = NoteChange;

    open spec fn view(&self) -> NoteChange {
        NoteChange { name: self.value@, take: self.take }
    }
}

/// The changes that `entries` record, in order.
pub open spec fn note_changes(entries: Seq<NoteEntry>) -> Seq<NoteChange> {
    entries.map_values(|e: NoteEntry| e@)
}

/// The notes after one change. A reversed change does the opposite.
pub open spec fn changed_notes(notes: Set<Seq<char>>, change: NoteChange, reverse: bool) -> Set<
    Seq<char>,
> {
    if change.take != reverse {
        notes.remove(change.name)
    } else {
        notes.insert(change.name)
    }
}

/// The notes after `changes` are made one after the other, each reversed
/// if `reverse`.
pub open spec fn notes_after(notes: Set<Seq<char>>, changes: Seq<NoteChange>, reverse: bool) -> Set<
    Seq<char>,
>
    decreases changes.len(),
{
    if changes.len() == 0 {
        notes
    } else {
        changed_notes(notes_after(notes, changes.drop_last(), reverse), changes.last(), reverse)
    }
}

impl NoteStateContents {
    /// Whether reading the state calls no script.
    pub open spec fn state_script_free(&self, ctx: &TextContext) -> bool {
        match self.state {
            Some(s) => s.script_free(ctx),
            None => match self.inverse {
                Some(i) => i.script_free(ctx),
                None => true,
            },
        }
    }

    /// The state where reading it calls no script: `state` if it is there,
    /// else the opposite of `inverse`, else `true`. `None` where the text
    /// read is no boolean.
    pub open spec fn state_value(&self, ctx: &TextContext) -> Option<bool> {
        match self.state {
            Some(s) => s.resolved(ctx),
            None => match self.inverse {
                Some(i) => match i.resolved(ctx) {
                    Some(b) => Some(!b),
                    None => None,
                },
                None => Some(true),
            },
        }
    }

    /// Whether `b` is a state that reading the state can give: what
    /// `state` gets if it is there, else the opposite of what `inverse`
    /// gets, else `true`.
    pub open spec fn state_gets(&self, ctx: &TextContext, b: bool) -> bool {
        match self.state {
            Some(s) => s.gets(ctx, b),
            None => match self.inverse {
                Some(i) => i.gets(ctx, !b),
                None => b,
            },
        }
    }

    /// Whether `e` is a failure that reading the state can end in: that of
    /// getting `state` if it is there, else that of getting `inverse`.
    pub open spec fn state_fails_as(&self, ctx: &TextContext, e: ResolutionError) -> bool {
        match self.state {
            Some(s) => s.fails_as(ctx, e),
            None => match self.inverse {
                Some(i) => i.fails_as(ctx, e),
                None => false,
            },
        }
    }

    /// Whether `e` is a failure that reading this note action can end in:
    /// a failure of reading its state or of filling its name.
    pub open spec fn fails_as(&self, ctx: &TextContext, e: ResolutionError) -> bool {
        self.state_fails_as(ctx, e) || self.name.fails_as(ctx, e)
    }

    /// Whether `change` is a change that applying this note can record:
    /// the name fills to the name of the change, and the note is taken
    /// where the state read is `false`.
    pub open spec fn applies_as(&self, ctx: &TextContext, change: NoteChange) -> bool {
        self.name.fills_to(ctx, change.name) && self.state_gets(ctx, !change.take)
    }

    /// Whether `holds` says if this requirement holds of a player who
    /// holds `notes`, for some state and name that it can be read as: the
    /// player must hold the note exactly if the state says so.
    pub open spec fn holds_as(&self, notes: Set<Seq<char>>, ctx: &TextContext, holds: bool) -> bool {
        exists|expected: bool, name: Seq<char>|
            #![trigger self.state_gets(ctx, expected), self.name.fills_to(ctx, name)]
            self.state_gets(ctx, expected) && self.name.fills_to(ctx, name) && holds == (expected
                == notes.contains(name))
    }

    /// Whether resolving the name and the state calls no script.
    pub open spec fn script_free(&self, ctx: &TextContext) -> bool {
        self.name.script_free(ctx) && self.state_script_free(ctx)
    }

    /// The change that applying this note makes, where resolving it calls
    /// no script: the note is taken where the state is `false`.
    pub open spec fn change(&self, ctx: &TextContext) -> Option<NoteChange> {
        match self.state_value(ctx) {
            Some(b) => Some(NoteChange { name: self.name.plain(ctx), take: !b }),
            None => None,
        }
    }

    /// The state of the action: `state` if it is there, else the opposite
    /// of `inverse`, else `true`.
    pub fn get_state(&self, text_context: &TextContext) -> (r: Result<bool, ResolutionError>)
        ensures
            self.state_script_free(text_context) ==> match self.state_value(text_context) {
                Some(b) => r == Ok::<bool, ResolutionError>(b),
                None => r matches Err(e) && e is Parse,
            },
            (self.state is None && self.inverse is None) ==> r == Ok::<bool, ResolutionError>(true),
            r matches Ok(b) ==> self.state_gets(text_context, b),
            r matches Err(e) ==> self.state_fails_as(text_context, e),
    {
        if let Some(state) = &self.state {
            return state.get_value(text_context);
        }
        if let Some(inverse) = &self.inverse {
            return match inverse.get_value(text_context) {
                Ok(inv) => Ok(!inv),
                Err(e) => Err(e),
            };
        }
        Ok(true)
    }
}

impl NoteEntry {
    /// The record of applying the note action `app`: the note is taken
    /// where the action's state is `false`, and given where it is `true`.
    pub fn from_application(app: &NoteStateContents, text_context: &TextContext) -> (r: Result<
        NoteEntry,
        ResolutionError,
    >)
        ensures
            app.script_free(text_context) ==> match app.change(text_context) {
                Some(c) => r matches Ok(e) && e@ == c,
                None => r matches Err(e) && e is Parse,
            },
            r matches Ok(e) ==> app.applies_as(text_context, e@),
            r matches Err(e) ==> app.fails_as(text_context, e),
    {
        let value = match app.name.fill(text_context) {
            Ok(v) => v,
            Err(e) => {
                return Err(e);
            },
        };
        match app.get_state(text_context) {
            Ok(state) => Ok(NoteEntry::new(value, !state)),
            Err(e) => Err(e),
        }
    }
}

/// The changes that applying `apps` makes, in order, where resolving them
/// calls no script. `None` where one of the states is no boolean.
pub open spec fn application_changes(apps: Seq<NoteState>, ctx: &TextContext) -> Option<
    Seq<NoteChange>,
>
    decreases apps.len(),
{
    if apps.len() == 0 {
        Some(Seq::empty())
    } else {
        match (application_changes(apps.drop_last(), ctx), apps.last().state.change(ctx)) {
            (Some(changes), Some(c)) => Some(changes.push(c)),
            _ => None,
        }
    }
}

/// Whether resolving each of `apps` calls no script.
pub open spec fn applications_script_free(apps: Seq<NoteState>, ctx: &TextContext) -> bool {
    forall|i: int| 0 <= i < apps.len() ==> (#[trigger] apps[i]).state.script_free(ctx)
}

impl NoteActions {
    /// Whether making the note records calls no script.
    pub open spec fn entries_script_free(&self, ctx: &TextContext) -> bool {
        &&& match self.apply {
            Some(apps) => applications_script_free(apps@, ctx),
            None => true,
        }
        &&& match self.once {
            Some(once) => once.script_free(ctx),
            None => true,
        }
    }

    /// The changes that the choice makes to the notes, where resolving
    /// them calls no script: the applications in order, then the `once`
    /// note, which is given.
    pub open spec fn changes(&self, ctx: &TextContext) -> Option<Seq<NoteChange>> {
        let applied = match self.apply {
            Some(apps) => application_changes(apps@, ctx),
            None => Some(Seq::empty()),
        };
        match applied {
            Some(changes) => match self.once {
                Some(once) => Some(changes.push(NoteChange { name: once.plain(ctx), take: false })),
                None => Some(changes),
            },
            None => None,
        }
    }

    /// How many notes the choice applies, the `once` note not counted.
    pub open spec fn applied(&self) -> nat {
        match self.apply {
            Some(apps) => apps.len() as nat,
            None => 0,
        }
    }

    /// Whether `changes` are note records that the choice can make: one
    /// for each application, in order, each with a name that its
    /// application fills to and taken where the state read is `false`; and
    /// last, if there is a `once` note, one that gives it.
    pub open spec fn records(&self, ctx: &TextContext, changes: Seq<NoteChange>) -> bool {
        &&& changes.len() == self.applied() + (if self.once is Some {
            1nat
        } else {
            0nat
        })
        &&& forall|i: int|
            0 <= i < self.applied() ==> self.apply->0[i].state.applies_as(ctx, #[trigger] changes[i])
        &&& self.once matches Some(once) ==> !changes.last().take && once.fills_to(
            ctx,
            changes.last().name,
        )
    }

    /// Whether `e` is a failure that making the note records can end in: a
    /// failure of reading one of the applications, or of filling the
    /// `once` note.
    pub open spec fn fails_as(&self, ctx: &TextContext, e: ResolutionError) -> bool {
        ||| exists|i: int| 0 <= i < self.applied() && (#[trigger] self.apply->0[i]).state.fails_as(ctx, e)
        ||| self.once is Some && self.once->0.fails_as(ctx, e)
    }

    /// The note records of a choice: one for each application, in order,
    /// and one that gives the `once` note, if there is one.
    ///
    /// Whatever the scripts answer, the records are as many as the
    /// applications, plus one for the `once` note; each has the name that
    /// its application resolves to and is taken where the state resolves
    /// to `false`; the `once` record is last and given.
    pub fn to_note_entries(&self, text_context: &TextContext) -> (r: Result<
        NoteEntries,
        ResolutionError,
    >)
        ensures
            self.entries_script_free(text_context) ==> match self.changes(text_context) {
                Some(changes) => r matches Ok(entries) && note_changes(entries@) == changes,
                None => r matches Err(e) && e is Parse,
            },
            r matches Ok(entries) ==> self.records(text_context, note_changes(entries@)),
            r matches Err(e) ==> self.fails_as(text_context, e),
    {
        let mut entries: NoteEntries = Vec::new();
        if let Some(apps) = &self.apply {
            let mut i: usize = 0;
            assert(apps@.take(0) =~= Seq::<NoteState>::empty());
            assert(note_changes(entries@) =~= Seq::<NoteChange>::empty());
            while i < apps.len()
                invariant
                    i <= apps.len(),
                    self.apply == Some(*apps),
                    self.entries_script_free(text_context) ==> application_changes(
                        apps@.take(i as int),
                        text_context,
                    ) == Some(note_changes(entries@)),
                    entries.len() == i,
                    forall|k: int|
                        0 <= k < i ==> apps[k].state.applies_as(
                            text_context,
                            #[trigger] note_changes(entries@)[k],
                        ),
                decreases apps.len() - i,
            {
                let ghost before = note_changes(entries@);
                proof {
                    assert(apps@.take(i + 1).drop_last() =~= apps@.take(i as int));
                    assert(apps@.take(i + 1).last() == apps@[i as int]);
                }
                match NoteEntry::from_application(&apps[i].state, text_context) {
                    Ok(entry) => {
                        entries.push(entry);
                        assert(note_changes(entries@) =~= before.push(entry@));
                    },
                    Err(e) => {
                        proof {
                            if self.entries_script_free(text_context) {
                                lemma_application_changes_fail(apps@, i as int, text_context);
                            }
                            assert(self.apply->0[i as int].state.fails_as(text_context, e));
                        }
                        return Err(e);
                    },
                }
                i = i + 1;
            }
            assert(apps@.take(apps.len() as int) =~= apps@);
        } else {
            assert(note_changes(entries@) =~= Seq::<NoteChange>::empty());
        }
        if let Some(once) = &self.once {
            let ghost before = note_changes(entries@);
            match once.fill(text_context) {
                Ok(value) => {
                    let entry = NoteEntry::new(value, false);
                    entries.push(entry);
                    assert(note_changes(entries@) =~= before.push(entry@));
                },
                Err(e) => {
                    return Err(e);
                },
            }
        }
        Ok(entries)
    }
}

/// Where the changes of the first `i + 1` applications fail, those of all
/// applications fail.
pub proof fn lemma_application_changes_fail(apps: Seq<NoteState>, i: int, ctx: &TextContext)
    requires
        0 <= i < apps.len(),
        application_changes(apps.take(i + 1), ctx) is None,
    ensures
        application_changes(apps, ctx) is None,
    decreases apps.len(),
{
    if i + 1 < apps.len() {
        assert(apps.drop_last().take(i + 1) =~= apps.take(i + 1));
        lemma_application_changes_fail(apps.drop_last(), i, ctx);
    } else {
        assert(apps.take(i + 1) =~= apps);
    }
}

} // verus!
