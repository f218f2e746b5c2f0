//! The player: the living state of a playthrough and its reversible
//! history.

use std::collections::VecDeque;
use unicode_truncate::UnicodeTruncateStr;
use vstd::prelude::*;
use vstd::slice::slice_subrange;
use vstd::string::StringExecFns;
use crate::manifest::Manifest;
use crate::variables::duplicate_variables;
use crate::choice::{input_view, Choice};
use crate::context::{StaticContext, TextContext};
use crate::error::{BackError, ChooseError, HistoryEmpty};
use crate::info::{
    pages_view, unlocked_after, UnlockedInfoPage, UnlockedInfoPages, UnlockedPage,
};
use crate::prompt::{PromptKind, PromptModel};
use crate::variables::NamedVariableEntry;
use crate::notes::{changed_notes, note_changes, notes_after, NoteChange, NoteEntries, Notes};
use crate::path::{PathData, PathName};
use crate::strings::{chars_of, string_of_range, texts};
use vstd::utf8::is_ascii_chars;
use crate::variables::{
    text_map, variable_changes, VariableChange, VariableEntries, Variables,
};

verus! {

/// The reversible record of one jump between prompts. Everything in it is
/// resolved: it can be reversed without resolving anything again.
#[derive(Debug)]
pub struct HistoryEntry {
    /// The prompt that the player jumped to.
    pub path: PathData,
    /// Whether the text of that prompt was shown.
    pub display: bool,
    /// Whether this jump cannot be reversed.
    pub locked: bool,
    /// Whether this jump was made without asking the player.
    pub redirect: bool,
    /// The note changes made with the jump, if any.
    pub notes: Option<NoteEntries>,
    /// The variable changes made with the jump, if any.
    pub variables: Option<VariableEntries>,
    /// Whether a log line was added with the jump.
    pub log: bool,
}

/// A history entry as plain values.
pub struct HistoryRecord {
    pub path: PathName,
    pub display: bool,
    pub locked: bool,
    pub redirect: bool,
    pub notes: Option<Seq<NoteChange>>,
    pub variables: Option<Map<Seq<char>, VariableChange>>,
    pub log: bool,
}

/// The note changes of an entry as plain values.
pub open spec fn notes_view(notes: Option<NoteEntries>) -> Option<Seq<NoteChange>> {
    match notes {
        Some(entries) => Some(note_changes(entries@)),
        None => None,
    }
}

/// The variable changes of an entry as plain values.
pub open spec fn variables_view(variables: Option<VariableEntries>) -> Option<
    Map<Seq<char>, VariableChange>,
> {
    match variables {
        Some(entries) => Some(variable_changes(entries@)),
        None => None,
    }
}

impl View for HistoryEntry {
    type V = HistoryRecord;

    open spec fn view(&self) -> HistoryRecord {
        HistoryRecord {
            path: self.path@,
            display: self.display,
            locked: self.locked,
            redirect: self.redirect,
            notes: notes_view(self.notes),
            variables: variables_view(self.variables),
            log: self.log,
        }
    }
}

impl HistoryEntry {
    /// The first entry of a player: the entrypoint `path`, shown, unlocked
    /// and without changes.
    pub fn new(path: &PathData) -> (entry: HistoryEntry)
        ensures
            entry@ == (HistoryRecord {
                path: path@,
                display: true,
                locked: false,
                redirect: false,
                notes: None,
                variables: None,
                log: false,
            }),
    {
        HistoryEntry {
            path: path.duplicate(),
            display: true,
            locked: false,
            redirect: false,
            notes: None,
            variables: None,
            log: false,
        }
    }
}

/// The names of the sound channels that a player has enabled.
pub type Channels = Notes;

/// The living state of a playthrough.
#[derive(Debug)]
pub struct Player {
    /// Whether the player has started playing.
    pub began: bool,
    /// The display language.
    pub lang: String,
    /// The enabled sound channels.
    pub channels: Channels,
    /// The notes held.
    pub notes: Notes,
    /// The variables.
    pub variables: Variables,
    /// The unlocked info pages, in the order of unlocking.
    pub info_pages: UnlockedInfoPages,
    /// The log lines, oldest first.
    pub log: Vec<String>,
    /// The record of each jump, oldest first.
    pub history: VecDeque<HistoryEntry>,
}

/// What of a player choices change and `back` restores, as plain values.
pub struct PlayerState {
    pub notes: Set<Seq<char>>,
    pub variables: Map<Seq<char>, Seq<char>>,
    pub log: Seq<Seq<char>>,
    pub history: Seq<HistoryRecord>,
}

/// The entries of a history as plain values.
pub open spec fn records(history: Seq<HistoryEntry>) -> Seq<HistoryRecord> {
    history.map_values(|e: HistoryEntry| e@)
}

/// The variables after `changes` are made: each changed variable has its
/// new text.
pub open spec fn variables_after(
    variables: Map<Seq<char>, Seq<char>>,
    changes: Map<Seq<char>, VariableChange>,
) -> Map<Seq<char>, Seq<char>> {
    Map::new(
        |k: Seq<char>| changes.contains_key(k) || variables.contains_key(k),
        |k: Seq<char>|
            if changes.contains_key(k) {
                changes[k].value
            } else {
                variables[k]
            },
    )
}

/// The variables after `changes` are undone: each changed variable has the
/// text it had before, or is gone if it had none.
pub open spec fn variables_before(
    variables: Map<Seq<char>, Seq<char>>,
    changes: Map<Seq<char>, VariableChange>,
) -> Map<Seq<char>, Seq<char>> {
    Map::new(
        |k: Seq<char>|
            if changes.contains_key(k) {
                changes[k].previous is Some
            } else {
                variables.contains_key(k)
            },
        |k: Seq<char>|
            if changes.contains_key(k) {
                changes[k].previous->0
            } else {
                variables[k]
            },
    )
}

/// The notes after the note changes of an entry are made, or undone if
/// `reverse`.
pub open spec fn notes_with(notes: Set<Seq<char>>, changes: Option<Seq<NoteChange>>, reverse: bool) -> Set<
    Seq<char>,
> {
    match changes {
        Some(c) => notes_after(notes, c, reverse),
        None => notes,
    }
}

/// The history after `entry` is appended under the cap `cap`: where the
/// history then holds more than `cap` entries, the oldest one leaves.
pub open spec fn pushed(history: Seq<HistoryRecord>, entry: HistoryRecord, cap: nat) -> Seq<
    HistoryRecord,
> {
    if history.len() + 1 > cap {
        history.push(entry).drop_first()
    } else {
        history.push(entry)
    }
}

/// The state after the changes of `entry` are made to notes and variables.
pub open spec fn applied(state: PlayerState, entry: HistoryRecord) -> PlayerState {
    PlayerState {
        notes: notes_with(state.notes, entry.notes, false),
        variables: match entry.variables {
            Some(changes) => variables_after(state.variables, changes),
            None => state.variables,
        },
        log: state.log,
        history: state.history,
    }
}

/// The state after the choice recorded by `entry` is taken under the cap
/// `cap`: its changes are made, the entry joins the history, and, where the
/// entry says so, `line` joins the log.
pub open spec fn taken(state: PlayerState, entry: HistoryRecord, line: Seq<char>, cap: nat) -> PlayerState {
    let changed = applied(state, entry);
    PlayerState {
        notes: changed.notes,
        variables: changed.variables,
        log: if entry.log {
            state.log.push(line)
        } else {
            state.log
        },
        history: pushed(state.history, entry, cap),
    }
}

/// Whether `back` is allowed: more than one entry is left, and the latest
/// one is not locked.
pub open spec fn can_go_back(history: Seq<HistoryRecord>) -> bool {
    history.len() > 1 && !history.last().locked
}

/// The state after the latest entry is taken off the history and undone:
/// its note changes are made the other way round, its variables get the
/// texts they had before, and the log loses its last line where the entry
/// added one.
pub open spec fn stepped_back(state: PlayerState) -> PlayerState {
    let entry = state.history.last();
    PlayerState {
        notes: notes_with(state.notes, entry.notes, true),
        variables: match entry.variables {
            Some(changes) => variables_before(state.variables, changes),
            None => state.variables,
        },
        log: if entry.log && state.log.len() > 0 {
            state.log.drop_last()
        } else {
            state.log
        },
        history: state.history.drop_last(),
    }
}

/// The state `state` with `entry` back on top of its history.
pub open spec fn restored(state: PlayerState, entry: HistoryRecord) -> PlayerState {
    PlayerState {
        notes: state.notes,
        variables: state.variables,
        log: state.log,
        history: state.history.push(entry),
    }
}

/// The state after one `back`: the latest entry is undone, and as long as
/// the entry just undone was a redirect and going back is still allowed,
/// the next one is undone too.
pub open spec fn unwound(state: PlayerState) -> PlayerState
    decreases state.history.len(),
{
    let next = stepped_back(state);
    if state.history.len() > 0 && state.history.last().redirect && can_go_back(next.history) {
        unwound(next)
    } else {
        next
    }
}

/// Whether `k` is the key of one of the first `n` of `entries`.
pub open spec fn among<T>(entries: Seq<(String, T)>, n: int, k: Seq<char>) -> bool {
    exists|j: int| 0 <= j < n && j < entries.len() && (#[trigger] entries[j]).0@ == k
}

/// Makes the note changes `entries` in order, each reversed if `reverse`.
pub fn apply_notes(notes: &mut Notes, entries: &NoteEntries, reverse: bool)
    ensures
        final(notes)@ == notes_after(old(notes)@, note_changes(entries@), reverse),
{
    let mut i: usize = 0;
    let ghost changes = note_changes(entries@);
    assert(changes.take(0) =~= Seq::<NoteChange>::empty());
    while i < entries.len()
        invariant
            i <= entries.len(),
            changes == note_changes(entries@),
            notes@ == notes_after(old(notes)@, changes.take(i as int), reverse),
        decreases entries.len() - i,
    {
        proof {
            assert(changes.take(i + 1).drop_last() =~= changes.take(i as int));
            assert(changes.take(i + 1).last() == entries[i as int]@);
        }
        let take = if reverse {
            !entries[i].take
        } else {
            entries[i].take
        };
        if take {
            notes.remove(entries[i].value.as_str());
        } else {
            notes.insert(entries[i].value.clone());
        }
        i = i + 1;
    }
    assert(changes.take(entries.len() as int) =~= changes);
}

/// Gives each changed variable its new text.
pub fn apply_variables(variables: &mut Variables, entries: &VariableEntries)
    ensures
        text_map(final(variables)@) == variables_after(
            text_map(old(variables)@),
            variable_changes(entries@),
        ),
{
    let n = entries.len();
    let mut i: usize = 0;
    let ghost start = text_map(variables@);
    let ghost all = entries.entries();
    while i < n
        invariant
            i <= n,
            n == all.len(),
            all == entries.entries(),
            crate::table::distinct_keys(all),
            start == text_map(old(variables)@),
            forall|k: Seq<char>|
                among(all, i as int, k) ==> #[trigger] text_map(variables@).contains_key(k)
                    && entries@.contains_key(k) && text_map(variables@)[k] == entries@[k].value@,
            forall|k: Seq<char>|
                !among(all, i as int, k) ==> (#[trigger] text_map(variables@).contains_key(k)
                    == start.contains_key(k)) && (start.contains_key(k) ==> text_map(
                    variables@,
                )[k] == start[k]),
        decreases n - i,
    {
        let key = entries.key_at(i);
        let entry = entries.value_at(i);
        let ghost before = text_map(variables@);
        variables.insert(key.clone(), entry.value.clone());
        proof {
            assert(text_map(variables@) =~= before.insert(key@, entry.value@));
            assert(all[i as int].0@ == key@);
            assert forall|k: Seq<char>| among(all, i + 1, k) implies #[trigger] text_map(
                variables@,
            ).contains_key(k) && entries@.contains_key(k) && text_map(variables@)[k]
                == entries@[k].value@ by {
                if k != key@ {
                    let j = choose|j: int| 0 <= j < i + 1 && j < all.len() && (#[trigger] all[j]).0@ == k;
                    assert(j < i);
                    assert(among(all, i as int, k));
                }
            }
            assert forall|k: Seq<char>| !among(all, i + 1, k) implies (#[trigger] text_map(
                variables@,
            ).contains_key(k) == start.contains_key(k)) && (start.contains_key(k) ==> text_map(
                variables@,
            )[k] == start[k]) by {
                if among(all, i as int, k) {
                    let j = choose|j: int| 0 <= j < i && j < all.len() && (#[trigger] all[j]).0@ == k;
                    assert(0 <= j < i + 1 && all[j].0@ == k);
                }
                assert(k != key@);
            }
        }
        i = i + 1;
    }
    proof {
        let target = variables_after(start, variable_changes(entries@));
        assert forall|k: Seq<char>| among(all, n as int, k) == entries@.contains_key(k) by {
            if entries@.contains_key(k) {
                let j = entries.index_of(k)->0;
                assert(all[j].0@ == k);
            }
        }
        assert(text_map(variables@) =~= target);
    }
}

/// Gives each changed variable the text it had before, and removes it
/// where it had none.
pub fn revert_variables(variables: &mut Variables, entries: &VariableEntries)
    ensures
        text_map(final(variables)@) == variables_before(
            text_map(old(variables)@),
            variable_changes(entries@),
        ),
{
    let n = entries.len();
    let mut i: usize = 0;
    let ghost start = text_map(variables@);
    let ghost all = entries.entries();
    while i < n
        invariant
            i <= n,
            n == all.len(),
            all == entries.entries(),
            crate::table::distinct_keys(all),
            start == text_map(old(variables)@),
            forall|k: Seq<char>|
                among(all, i as int, k) ==> entries@.contains_key(k) && (#[trigger] text_map(
                    variables@,
                ).contains_key(k) == (entries@[k]@.previous is Some)) && (entries@[k]@.previous
                    is Some ==> text_map(variables@)[k] == entries@[k]@.previous->0),
            forall|k: Seq<char>|
                !among(all, i as int, k) ==> (#[trigger] text_map(variables@).contains_key(k)
                    == start.contains_key(k)) && (start.contains_key(k) ==> text_map(
                    variables@,
                )[k] == start[k]),
        decreases n - i,
    {
        let key = entries.key_at(i);
        let entry = entries.value_at(i);
        let ghost before = text_map(variables@);
        match &entry.previous {
            Some(previous) => {
                variables.insert(key.clone(), previous.clone());
                assert(text_map(variables@) =~= before.insert(key@, previous@));
            },
            None => {
                variables.remove(key.as_str());
                assert(text_map(variables@) =~= before.remove(key@));
            },
        }
        proof {
            assert(all[i as int].0@ == key@);
            assert forall|k: Seq<char>| among(all, i + 1, k) implies entries@.contains_key(k) && (
            #[trigger] text_map(variables@).contains_key(k) == (entries@[k]@.previous is Some)) && (
            entries@[k]@.previous is Some ==> text_map(variables@)[k]
                == entries@[k]@.previous->0) by {
                if k != key@ {
                    let j = choose|j: int| 0 <= j < i + 1 && j < all.len() && (#[trigger] all[j]).0@ == k;
                    assert(j < i);
                    assert(among(all, i as int, k));
                }
            }
            assert forall|k: Seq<char>| !among(all, i + 1, k) implies (#[trigger] text_map(
                variables@,
            ).contains_key(k) == start.contains_key(k)) && (start.contains_key(k) ==> text_map(
                variables@,
            )[k] == start[k]) by {
                if among(all, i as int, k) {
                    let j = choose|j: int| 0 <= j < i && j < all.len() && (#[trigger] all[j]).0@ == k;
                    assert(0 <= j < i + 1 && all[j].0@ == k);
                }
                assert(k != key@);
            }
        }
        i = i + 1;
    }
    proof {
        let target = variables_before(start, variable_changes(entries@));
        assert forall|k: Seq<char>| among(all, n as int, k) == entries@.contains_key(k) by {
            if entries@.contains_key(k) {
                let j = entries.index_of(k)->0;
                assert(all[j].0@ == k);
            }
        }
        assert(text_map(variables@) =~= target);
    }
}

/// The state after the choice recorded by `entry` is taken under the cap
/// `cap`, before any log line is added: the changes are made, and the
/// entry joins the history.
pub open spec fn chosen(state: PlayerState, entry: HistoryRecord, cap: nat) -> PlayerState {
    let changed = applied(state, entry);
    PlayerState {
        notes: changed.notes,
        variables: changed.variables,
        log: state.log,
        history: pushed(state.history, entry, cap),
    }
}

/// The start of `text` that fits in the display width `max_width`, as
/// unicode-truncate's `unicode_truncate` cuts it.
pub uninterp spec fn truncated_text(text: Seq<char>, max_width: nat) -> Seq<char>;

/// unicode-truncate's `unicode_truncate`: the longest start of `text`,
/// cut between graphemes, whose display width is at most `max_width`. It
/// depends on the text and the width alone. Only texts of ASCII characters
/// are handed to it: for those the width of a text is the sum of the
/// widths of its graphemes, which the call relies on.
#[verifier::external_body]
fn truncate_text(text: &str, max_width: usize) -> (r: String)
    requires
        is_ascii_chars(text@),
    ensures
        r@ == truncated_text(text@, max_width as nat),
{
    text.unicode_truncate(max_width).0.to_owned()
}

/// How many log lines a page of the log holds at most.
pub const LOG_PAGE_SIZE: usize = 5;

/// How wide the front of a log page is at most.
pub const LOG_FRONT_WIDTH: usize = 25;

/// The front of a log page whose first line is `line`: the line cut to a
/// display width of 25 where it holds ASCII characters only, and to its
/// first 25 characters otherwise, with three dots behind it.
pub open spec fn front_text(line: Seq<char>) -> Seq<char> {
    (if is_ascii_chars(line) {
        truncated_text(line, 25)
    } else if line.len() > 25 {
        line.take(25)
    } else {
        line
    }) + "..."@
}

/// The number of log pages that `lines` lines fill.
pub open spec fn page_count(lines: nat) -> nat {
    (lines + 4) / 5
}

/// The `i`-th log page of `log`: up to five lines from line `5 * i` on.
pub open spec fn log_page(log: Seq<String>, i: int) -> Seq<String> {
    log.subrange(
        5 * i,
        if 5 * i + 5 <= log.len() {
            5 * i + 5
        } else {
            log.len() as int
        },
    )
}

impl Player {
    /// What of this player choices change and `back` restores.
    pub open spec fn state(&self) -> PlayerState {
        PlayerState {
            notes: self.notes@,
            variables: text_map(self.variables@),
            log: texts(self.log@),
            history: records(self.history@),
        }
    }

    /// Gives or takes one note: `take` removes it, else it is inserted. A
    /// reversed change does the opposite.
    pub fn apply_note(&mut self, name: &str, take: bool, reverse: bool)
        ensures
            final(self).notes@ == changed_notes(
                old(self).notes@,
                NoteChange { name: name@, take },
                reverse,
            ),
            final(self).began == old(self).began,
            final(self).lang == old(self).lang,
            final(self).channels == old(self).channels,
            final(self).variables == old(self).variables,
            final(self).info_pages == old(self).info_pages,
            final(self).log == old(self).log,
            final(self).history == old(self).history,
    {
        let take = if reverse {
            !take
        } else {
            take
        };
        if take {
            self.notes.remove(name);
        } else {
            self.notes.insert(name.to_owned());
        }
    }

    /// The latest history entry, or `HistoryEmpty` where there is none.
    pub fn latest_entry(&self) -> (r: Result<&HistoryEntry, HistoryEmpty>)
        ensures
            match r {
                Ok(entry) => self.history@.len() > 0 && *entry == self.history@.last(),
                Err(_) => self.history@.len() == 0,
            },
    {
        let n = self.history.len();
        if n == 0 {
            Err(HistoryEmpty)
        } else {
            Ok(&self.history[n - 1])
        }
    }

    /// Whether the info page `page` is unlocked.
    pub fn is_page_unlocked(&self, page: &str) -> (r: bool)
        ensures
            r == exists|i: int| 0 <= i < self.info_pages.len() && self.info_pages[i].name@ == page@,
    {
        let mut i: usize = 0;
        while i < self.info_pages.len()
            invariant
                i <= self.info_pages.len(),
                forall|k: int| 0 <= k < i ==> self.info_pages[k].name@ != page@,
            decreases self.info_pages.len() - i,
        {
            if crate::strings::str_eq(self.info_pages[i].name.as_str(), page) {
                return true;
            }
            i = i + 1;
        }
        false
    }

    /// Whether this player is `before` after `choice` was made: for some
    /// history entry that the choice can make for `before`, notes,
    /// variables and history are those of `before` with the entry taken,
    /// and the log is that of `before`.
    pub open spec fn chose(
        &self,
        before: &Player,
        choice: &Choice,
        input: Option<(Seq<char>, VariableChange)>,
        redirect: bool,
        stc: &StaticContext,
        ctx: &TextContext,
    ) -> bool {
        exists|record: HistoryRecord|
            #![trigger chosen(before.state(), record, stc.config.settings.history.size as nat)]
            {
                &&& self.state() == chosen(before.state(), record, stc.config.settings.history.size as nat)
                &&& choice.records_as(
                    before.history@.last().path.file@,
                    input,
                    before.variables@,
                    redirect,
                    stc.config.settings.history.locked,
                    ctx,
                    record,
                )
            }
    }

    /// Whether this player is `before` after `choice` was taken and what
    /// follows it was done: for some history entry that the choice can
    /// make for `before`, and some log line, notes, variables, log and
    /// history are those of `before` with the entry taken.
    pub open spec fn took(
        &self,
        before: &Player,
        choice: &Choice,
        input: Option<(Seq<char>, VariableChange)>,
        redirect: bool,
        stc: &StaticContext,
        ctx: &TextContext,
    ) -> bool {
        exists|record: HistoryRecord, line: Seq<char>|
            #![trigger taken(before.state(), record, line, stc.config.settings.history.size as nat)]
            {
                &&& self.state() == taken(
                    before.state(),
                    record,
                    line,
                    stc.config.settings.history.size as nat,
                )
                &&& choice.records_as(
                    before.history@.last().path.file@,
                    input,
                    before.variables@,
                    redirect,
                    stc.config.settings.history.locked,
                    ctx,
                    record,
                )
            }
    }

    /// Whether the info pages of this player are those of `before` with
    /// pages unlocked that `choice` can unlock.
    pub open spec fn unlocked_by(&self, before: &Player, choice: &Choice, ctx: &TextContext) -> bool {
        exists|pages: Seq<UnlockedPage>| #[trigger]
            choice.unlocks_as(ctx, pages) && pages_view(self.info_pages@) == unlocked_after(
                pages_view(before.info_pages@),
                pages,
            )
    }

    /// Whether the log of this player is `before` with the log line of
    /// `choice` added, if the choice has one: a line that the log text
    /// fills to against this player's notes and variables.
    pub open spec fn logged(&self, before: Seq<String>, choice: &Choice, stc: &StaticContext) -> bool {
        match choice.log {
            Some(log) => {
                &&& self.log@.len() == before.len() + 1
                &&& self.log@.drop_last() == before
                &&& exists|ctx: TextContext| #[trigger]
                    ctx.snapshot_of(self, stc) && log.fills_to(&ctx, self.log@.last()@)
            },
            None => self.log@ == before,
        }
    }

    /// The rich presence state to report once `choice` was taken and its
    /// log line added: what the game's presence mode makes of the latest
    /// history entry, the presence detail of the choice and the line that
    /// the choice added to the log.
    pub open spec fn reported(&self, choice: &Choice, stc: &StaticContext) -> Option<Seq<char>> {
        stc.config.settings.drp.mode.state(
            self.history@.last(),
            choice.drp,
            match choice.log {
                Some(_) => Some(self.log@.last()@),
                None => None,
            },
        )
    }

    /// Whether everything but notes, variables, info pages, log and
    /// history is the same in `self` and `other`.
    pub open spec fn same_settings(&self, other: &Player) -> bool {
        &&& self.began == other.began
        &&& self.lang == other.lang
        &&& self.channels == other.channels
    }

    /// Unlocks `pages` in order. A page whose name is unlocked already is
    /// passed over.
    pub fn unlock_pages(&mut self, pages: &Vec<UnlockedInfoPage>)
        ensures
            pages_view(final(self).info_pages@) == unlocked_after(
                pages_view(old(self).info_pages@),
                pages_view(pages@),
            ),
            final(self).same_settings(old(self)),
            final(self).notes == old(self).notes,
            final(self).variables == old(self).variables,
            final(self).log == old(self).log,
            final(self).history == old(self).history,
    {
        let mut i: usize = 0;
        let ghost new = pages_view(pages@);
        assert(new.take(0) =~= Seq::<UnlockedPage>::empty());
        while i < pages.len()
            invariant
                i <= pages.len(),
                new == pages_view(pages@),
                pages_view(self.info_pages@) == unlocked_after(
                    pages_view(old(self).info_pages@),
                    new.take(i as int),
                ),
                self.same_settings(old(self)),
                self.notes == old(self).notes,
                self.variables == old(self).variables,
                self.log == old(self).log,
                self.history == old(self).history,
            decreases pages.len() - i,
        {
            let ghost before = pages_view(self.info_pages@);
            proof {
                assert(new.take(i + 1).drop_last() =~= new.take(i as int));
                assert(new.take(i + 1).last() == pages[i as int]@);
            }
            let unlocked = self.is_page_unlocked(pages[i].name.as_str());
            proof {
                if unlocked {
                    let j = choose|j: int|
                        0 <= j < self.info_pages.len() && self.info_pages[j].name@
                            == pages[i as int].name@;
                    assert(before[j].name == pages[i as int]@.name);
                } else {
                    assert forall|j: int| 0 <= j < before.len() implies (#[trigger] before[j]).name
                        != pages[i as int]@.name by {
                        assert(before[j] == self.info_pages[j]@);
                    }
                }
            }
            if !unlocked {
                let page = pages[i].duplicate();
                self.info_pages.push(page);
                assert(pages_view(self.info_pages@) =~= before.push(pages[i as int]@));
            }
            i = i + 1;
        }
        assert(new.take(pages.len() as int) =~= new);
    }

    /// Makes the changes of `entry` to notes and variables, then unlocks
    /// `pages`.
    pub fn apply_entry(&mut self, entry: &HistoryEntry, pages: &Vec<UnlockedInfoPage>)
        ensures
            final(self).state() == applied(old(self).state(), entry@),
            pages_view(final(self).info_pages@) == unlocked_after(
                pages_view(old(self).info_pages@),
                pages_view(pages@),
            ),
            final(self).same_settings(old(self)),
            final(self).log == old(self).log,
            final(self).history == old(self).history,
    {
        if let Some(notes) = &entry.notes {
            apply_notes(&mut self.notes, notes, false);
        }
        if let Some(variables) = &entry.variables {
            apply_variables(&mut self.variables, variables);
        }
        self.unlock_pages(pages);
    }

    /// Appends `entry` to the history. Where the history then holds more
    /// than `cap` entries, the oldest one is dropped for good.
    pub fn push_entry(&mut self, entry: HistoryEntry, cap: usize)
        ensures
            records(final(self).history@) == pushed(records(old(self).history@), entry@, cap as nat),
            old(self).history@.len() <= cap ==> final(self).history@.len() <= cap,
            cap >= 1 ==> final(self).history@.len() >= 1,
            final(self).history@.len() >= old(self).history@.len(),
            final(self).same_settings(old(self)),
            final(self).notes == old(self).notes,
            final(self).variables == old(self).variables,
            final(self).info_pages == old(self).info_pages,
            final(self).log == old(self).log,
    {
        let ghost before = self.history@;
        self.history.push_back(entry);
        assert(records(self.history@) =~= records(before).push(entry@));
        if self.history.len() > cap {
            let ghost full = self.history@;
            self.history.pop_front();
            assert(records(self.history@) =~= records(full).drop_first());
        }
    }

    /// Takes `choice`: makes its history entry, applies the entry's
    /// changes to notes and variables, unlocks its info pages and appends
    /// the entry to the history under the game's cap. A choice without a
    /// jump changes nothing.
    ///
    /// Everything is resolved before anything is changed: where resolving
    /// fails, the player stays as it was.
    pub fn make_choice(
        &mut self,
        choice: &Choice,
        input: Option<NamedVariableEntry>,
        model: &PromptModel,
        stc: &StaticContext,
        text_context: &TextContext,
    ) -> (r: Result<(), ChooseError>)
        ensures
            r is Err ==> *final(self) == *old(self),
            old(self).history@.len() == 0 ==> r matches Err(ChooseError::HistoryEmpty),
            (old(self).history@.len() > 0 && choice.jump is None) ==> (r is Ok && *final(self) == *old(self)),
            (old(self).history@.len() > 0 && choice.jump is Some && choice.entry_script_free(
                text_context,
            ) && choice.pages_script_free(text_context)) ==> match choice.record(
                old(self).history@.last().path.file@,
                input_view(input),
                old(self).variables@,
                model.kind_of() == PromptKind::Redirect,
                stc.config.settings.history.locked,
                text_context,
            ) {
                Some(record) => r is Ok && final(self).state() == chosen(
                    old(self).state(),
                    record,
                    stc.config.settings.history.size as nat,
                ) && pages_view(final(self).info_pages@) == unlocked_after(
                    pages_view(old(self).info_pages@),
                    choice.unlocked_pages(text_context),
                ),
                None => r matches Err(ChooseError::Resolution(e)) && e is Parse,
            },
            (r is Ok && choice.jump is Some) ==> final(self).chose(
                old(self),
                choice,
                input_view(input),
                model.kind_of() == PromptKind::Redirect,
                stc,
                text_context,
            ),
            (r is Ok && choice.jump is Some) ==> final(self).unlocked_by(old(self), choice, text_context),
            r matches Err(ChooseError::Resolution(e)) ==> (choice.entry_fails_as(text_context, e)
                || choice.pages_fail_as(text_context, e)),
            r matches Err(ChooseError::HistoryEmpty) ==> old(self).history@.len() == 0,
            final(self).same_settings(old(self)),
            r is Ok ==> final(self).log == old(self).log,
            final(self).history@.len() >= old(self).history@.len(),
    {
        let entry = {
            let latest = match self.latest_entry() {
                Ok(latest) => latest,
                Err(_) => {
                    return Err(ChooseError::HistoryEmpty);
                },
            };
            match choice.to_history_entry(latest, input, &self.variables, model, stc, text_context) {
                None => {
                    return Ok(());
                },
                Some(Err(e)) => {
                    return Err(ChooseError::Resolution(e));
                },
                Some(Ok(entry)) => entry,
            }
        };
        let pages = match choice.resolve_pages(text_context) {
            Ok(pages) => pages,
            Err(e) => {
                return Err(ChooseError::Resolution(e));
            },
        };
        let ghost record = entry@;
        assert(choice.unlocks_as(text_context, pages_view(pages@)));
        self.apply_entry(&entry, &pages);
        self.push_entry(entry, stc.config.settings.history.size);
        assert(self.state() == chosen(
            old(self).state(),
            record,
            stc.config.settings.history.size as nat,
        ));
        Ok(())
    }

    /// Takes the latest entry off the history, if going back is allowed:
    /// more than one entry must be left (else `Exhausted`), and the latest
    /// one must not be locked (else `Locked`). Nothing is undone yet.
    pub fn pop_latest_entry(&mut self) -> (r: Result<HistoryEntry, BackError>)
        ensures
            match r {
                Ok(entry) => {
                    &&& old(self).history@.len() > 1
                    &&& entry == old(self).history@.last()
                    &&& !entry.locked
                    &&& final(self).history@ == old(self).history@.drop_last()
                },
                Err(e) => final(self).history == old(self).history && match e {
                    BackError::Exhausted => old(self).history@.len() <= 1,
                    BackError::Locked => old(self).history@.len() > 1 && old(self).history@.last().locked,
                },
            },
            final(self).same_settings(old(self)),
            final(self).notes == old(self).notes,
            final(self).variables == old(self).variables,
            final(self).info_pages == old(self).info_pages,
            final(self).log == old(self).log,
    {
        let n = self.history.len();
        if n <= 1 {
            return Err(BackError::Exhausted);
        }
        if self.history[n - 1].locked {
            return Err(BackError::Locked);
        }
        let ghost full = self.history@;
        let entry = self.history.pop_back().unwrap();
        assert(self.history@ =~= full.drop_last());
        Ok(entry)
    }

    /// Goes back: takes the latest entry off the history and undoes it.
    /// Where the entry undone was a redirect, the entry before it is undone
    /// too, and so on, as long as going back is allowed.
    ///
    /// Going back is not allowed where at most one entry is left
    /// (`Exhausted`), or where the latest entry is locked (`Locked`); the
    /// player then stays as it was.
    pub fn back(&mut self) -> (r: Result<(), BackError>)
        ensures
            match r {
                Ok(_) => can_go_back(old(self).state().history) && final(self).state() == unwound(
                    old(self).state(),
                ) && 1 <= final(self).history@.len() < old(self).history@.len(),
                Err(e) => *final(self) == *old(self) && match e {
                    BackError::Exhausted => old(self).history@.len() <= 1,
                    BackError::Locked => old(self).history@.len() > 1 && old(self).history@.last().locked,
                },
            },
            final(self).same_settings(old(self)),
            final(self).info_pages == old(self).info_pages,
    {
        proof {
            if self.history@.len() > 0 {
                assert(records(self.history@).last() == self.history@.last()@);
            }
        }
        let mut entry = match self.pop_latest_entry() {
            Ok(entry) => entry,
            Err(e) => {
                return Err(e);
            },
        };
        proof {
            assert(records(self.history@).push(entry@) =~= records(old(self).history@));
            assert(restored(self.state(), entry@) == old(self).state());
        }
        loop
            invariant_except_break
                can_go_back(restored(self.state(), entry@).history),
                unwound(restored(self.state(), entry@)) == unwound(old(self).state()),
            invariant
                self.same_settings(old(self)),
                self.info_pages == old(self).info_pages,
                1 <= self.history@.len() < old(self).history@.len(),
                can_go_back(old(self).state().history),
            ensures
                self.state() == unwound(old(self).state()),
                1 <= self.history@.len() < old(self).history@.len(),
            decreases self.history@.len(),
        {
            let ghost before = restored(self.state(), entry@);
            let ghost lines = self.log@;
            proof {
                assert(before.history.last() == entry@);
                assert(before.history.drop_last() =~= self.state().history);
            }
            if let Some(notes) = &entry.notes {
                apply_notes(&mut self.notes, notes, true);
            }
            if let Some(variables) = &entry.variables {
                revert_variables(&mut self.variables, variables);
            }
            if entry.log {
                self.log.pop();
                proof {
                    if lines.len() > 0 {
                        assert(texts(self.log@) =~= texts(lines).drop_last());
                    }
                }
            }
            assert(self.state() == stepped_back(before));
            if !entry.redirect {
                break;
            }
            proof {
                if self.history@.len() > 0 {
                    assert(records(self.history@).last() == self.history@.last()@);
                }
            }
            let ghost middle = self.state();
            let ghost full = self.history@;
            match self.pop_latest_entry() {
                Ok(next) => {
                    proof {
                        assert(records(self.history@).push(next@) =~= records(full));
                        assert(restored(self.state(), next@) == middle);
                    }
                    entry = next;
                },
                Err(_) => {
                    break;
                },
            }
        }
        Ok(())
    }

    /// A new player of the game `config`: at the entrypoint, with the
    /// notes, variables, info pages and log lines that the entrypoint
    /// gives, the channels that start enabled, and the game's language.
    pub fn new(config: &Manifest) -> (player: Player)
        ensures
            !player.began,
            player.history@.len() == 1,
            player.history@[0]@ == (HistoryRecord {
                path: config.entry.path@,
                display: true,
                locked: false,
                redirect: false,
                notes: None,
                variables: None,
                log: false,
            }),
            player.notes@ == match config.entry.notes {
                Some(notes) => notes@,
                None => Set::<Seq<char>>::empty(),
            },
            player.variables@ == match config.entry.variables {
                Some(variables) => variables@,
                None => Map::<Seq<char>, String>::empty(),
            },
            pages_view(player.info_pages@) == match config.entry.info_pages {
                Some(pages) => pages_view(pages@),
                None => Seq::<UnlockedPage>::empty(),
            },
            texts(player.log@) == match config.entry.log {
                Some(log) => texts(log@),
                None => Seq::<Seq<char>>::empty(),
            },
            forall|name: Seq<char>|
                player.channels@.contains(name) == config.settings.channel_enabled(name),
            player.lang@ == match config.settings.text.lang {
                Some(l) => l@,
                None => "en_us"@,
            },
    {
        let entry = HistoryEntry::new(&config.entry.path);
        let notes = match &config.entry.notes {
            Some(notes) => notes.snapshot(),
            None => Notes::new(),
        };
        let variables = match &config.entry.variables {
            Some(variables) => duplicate_variables(variables),
            None => Variables::new(),
        };
        let mut info_pages: UnlockedInfoPages = Vec::new();
        if let Some(pages) = &config.entry.info_pages {
            let mut i: usize = 0;
            while i < pages.len()
                invariant
                    i <= pages.len(),
                    info_pages.len() == i,
                    forall|k: int| 0 <= k < i ==> info_pages[k] == pages[k],
                decreases pages.len() - i,
            {
                info_pages.push(pages[i].duplicate());
                i = i + 1;
            }
            assert(pages_view(info_pages@) =~= pages_view(pages@));
        } else {
            assert(pages_view(info_pages@) =~= Seq::<UnlockedPage>::empty());
        }
        let mut log: Vec<String> = Vec::new();
        if let Some(lines) = &config.entry.log {
            let mut i: usize = 0;
            while i < lines.len()
                invariant
                    i <= lines.len(),
                    log.len() == i,
                    forall|k: int| 0 <= k < i ==> log[k] == lines[k],
                decreases lines.len() - i,
            {
                log.push(lines[i].clone());
                i = i + 1;
            }
            assert(texts(log@) =~= texts(lines@));
        } else {
            assert(texts(log@) =~= Seq::<Seq<char>>::empty());
        }
        let mut history: VecDeque<HistoryEntry> = VecDeque::new();
        history.push_back(entry);
        Player {
            began: false,
            lang: config.settings.text.lang(),
            channels: config.settings.enabled_audio_channels(),
            notes,
            variables,
            info_pages,
            log,
            history,
        }
    }

    /// A text context over `stc` with snapshots of this player's language,
    /// notes and variables.
    pub fn text_context<'a>(&self, stc: &StaticContext<'a>) -> (ctx: TextContext<'a>)
        ensures
            ctx.snapshot_of(self, stc),
    {
        TextContext::new(
            stc,
            self.lang.clone(),
            self.notes.snapshot(),
            duplicate_variables(&self.variables),
        )
    }

    /// What follows a choice once its changes are made: the log line of
    /// the choice is resolved against the player as it is now and added to
    /// the log, and the rich presence state to report is returned.
    ///
    /// Where resolving fails or the history is empty, the player stays as
    /// it was.
    pub fn after_choice(&mut self, choice: &Choice, stc: &StaticContext) -> (r: Result<
        Option<String>,
        ChooseError,
    >)
        ensures
            r is Err ==> *final(self) == *old(self),
            old(self).history@.len() == 0 ==> r matches Err(ChooseError::HistoryEmpty),
            final(self).same_settings(old(self)),
            final(self).notes == old(self).notes,
            final(self).variables == old(self).variables,
            final(self).info_pages == old(self).info_pages,
            final(self).history == old(self).history,
            r is Ok ==> match choice.log {
                Some(log) => final(self).log@.len() == old(self).log@.len() + 1 && final(self).log@.drop_last() == old(self).log@,
                None => final(self).log == old(self).log,
            },
            r is Ok ==> final(self).logged(old(self).log@, choice, stc),
            r matches Ok(state) ==> crate::discord::text_of(state) == final(self).reported(choice, stc),
            r matches Err(ChooseError::Resolution(e)) ==> exists|ctx: TextContext| #[trigger]
                ctx.snapshot_of(old(self), stc) && choice.after_fails_as(&ctx, e),
            r matches Err(ChooseError::HistoryEmpty) ==> old(self).history@.len() == 0,
            old(self).history@.len() > 0 ==> exists|ctx: TextContext|
                {
                    &&& #[trigger] ctx.snapshot_of(old(self), stc)
                    &&& (choice.log is Some && choice.after_script_free(&ctx)) ==> (r is Ok && final(self).log@.last()@ == choice.log->0.plain(&ctx))
                    &&& choice.after_script_free(&ctx) ==> (r matches Ok(state)
                        && crate::discord::text_of(state) == stc.config.settings.drp.mode.state(
                        old(self).history@.last(),
                        choice.drp,
                        match choice.log {
                            Some(log) => Some(log.plain(&ctx)),
                            None => None,
                        },
                    ))
                },
    {
        if self.history.len() == 0 {
            return Err(ChooseError::HistoryEmpty);
        }
        let text_context = self.text_context(stc);
        let line = match &choice.log {
            Some(log) => match log.fill(&text_context) {
                Ok(line) => Some(line),
                Err(e) => {
                    assert(text_context.snapshot_of(self, stc) && choice.after_fails_as(&text_context, e));
                    return Err(ChooseError::Resolution(e));
                },
            },
            None => None,
        };
        let state = {
            let latest = match self.latest_entry() {
                Ok(latest) => latest,
                Err(_) => {
                    return Err(ChooseError::HistoryEmpty);
                },
            };
            let line_text = match &line {
                Some(l) => Some(l.as_str()),
                None => None,
            };
            match stc.config.rich_presence_state(latest, choice.drp.as_ref(), line_text, &text_context) {
                Ok(state) => state,
                Err(e) => {
                    assert(text_context.snapshot_of(self, stc) && choice.after_fails_as(&text_context, e));
                    return Err(ChooseError::Resolution(e));
                },
            }
        };
        if let Some(l) = line {
            let ghost before = self.log@;
            let ghost text = l@;
            self.log.push(l);
            assert(self.log@.drop_last() =~= before);
            assert(self.log@.last()@ == text);
            assert(text_context.snapshot_of(self, stc));
            assert(choice.log->0.fills_to(&text_context, text));
        }
        Ok(state)
    }

    /// Takes `choice` and does what follows it: `make_choice`, then
    /// `after_choice`. Returns the rich presence state to report.
    ///
    /// Where making the choice fails, the player stays as it was. Where
    /// only what follows fails, the choice stays made and nothing is
    /// logged: the log line is resolved against the notes and variables
    /// that the choice has changed.
    pub fn choose_full(
        &mut self,
        choice: &Choice,
        input: Option<NamedVariableEntry>,
        model: &PromptModel,
        stc: &StaticContext,
        text_context: &TextContext,
    ) -> (r: Result<Option<String>, ChooseError>)
        ensures
            old(self).history@.len() == 0 ==> (r matches Err(ChooseError::HistoryEmpty) && *final(self)
                == *old(self)),
            final(self).same_settings(old(self)),
            (old(self).history@.len() > 0 && text_context.stc == *stc && text_context.lang@ == old(self).lang@ && choice.takes(stc.config.settings.history.locked, text_context)) ==> r is Ok,
            (r is Ok && choice.jump is None) ==> {
                &&& final(self).history == old(self).history
                &&& final(self).notes == old(self).notes
                &&& final(self).variables == old(self).variables
                &&& final(self).info_pages == old(self).info_pages
            },
            (r is Ok && choice.jump is Some) ==> final(self).took(
                old(self),
                choice,
                input_view(input),
                model.kind_of() == PromptKind::Redirect,
                stc,
                text_context,
            ),
            (r is Ok && choice.jump is Some) ==> final(self).unlocked_by(old(self), choice, text_context),
            r is Ok ==> final(self).logged(old(self).log@, choice, stc),
            r matches Ok(state) ==> crate::discord::text_of(state) == final(self).reported(choice, stc),
            r matches Err(ChooseError::HistoryEmpty) ==> old(self).history@.len() == 0,
            r matches Err(ChooseError::Resolution(e)) ==> {
                ||| choice.entry_fails_as(text_context, e)
                ||| choice.pages_fail_as(text_context, e)
                ||| exists|ctx: TextContext| #[trigger]
                    ctx.snapshot_of(final(self), stc) && choice.after_fails_as(&ctx, e)
            },
            r is Err ==> (*final(self) == *old(self) || (choice.jump is Some && final(self).log == old(self).log && final(self).chose(
                old(self),
                choice,
                input_view(input),
                model.kind_of() == PromptKind::Redirect,
                stc,
                text_context,
            ) && final(self).unlocked_by(old(self), choice, text_context))),
    {
        match self.make_choice(choice, input, model, stc, text_context) {
            Ok(_) => {},
            Err(e) => {
                return Err(e);
            },
        }
        let ghost middle = self.state();
        let ghost lines = self.log@;
        proof {
            assert forall|ctx: TextContext|
                (#[trigger] ctx.snapshot_of(self, stc)) && text_context.stc == *stc
                    && text_context.lang@ == self.lang@ implies choice.after_script_free(&ctx)
                    == choice.after_script_free(text_context) by {
                crate::choice::lemma_after_script_free_by_language(choice, &ctx, text_context);
            }
        }
        let r = self.after_choice(choice, stc);
        proof {
            if r is Ok && choice.jump is Some {
                let cap = stc.config.settings.history.size as nat;
                let record = choose|record: HistoryRecord|
                    #![trigger chosen(old(self).state(), record, cap)]
                    middle == chosen(old(self).state(), record, cap) && choice.records_as(
                        old(self).history@.last().path.file@,
                        input_view(input),
                        old(self).variables@,
                        model.kind_of() == PromptKind::Redirect,
                        stc.config.settings.history.locked,
                        text_context,
                        record,
                    );
                let line = if choice.log is Some {
                    self.log@.last()@
                } else {
                    Seq::<char>::empty()
                };
                if choice.log is Some {
                    assert(texts(self.log@) =~= texts(lines).push(line));
                }
                assert(self.state() == taken(old(self).state(), record, line, cap));
            }
        }
        r
    }

    /// The log split into pages of five lines; the last page may hold
    /// fewer.
    pub fn log_pages(&self) -> (pages: Vec<&[String]>)
        ensures
            pages.len() == page_count(self.log@.len()),
            forall|i: int| 0 <= i < pages.len() ==> (#[trigger] pages[i])@ == log_page(self.log@, i),
            forall|i: int| 0 <= i < pages.len() ==> (#[trigger] pages[i])@.len() >= 1,
    {
        let mut pages: Vec<&[String]> = Vec::new();
        let n = self.log.len();
        let mut start: usize = 0;
        while start < n
            invariant
                n == self.log@.len(),
                start <= n || start == 5 * pages.len(),
                start == 5 * pages.len() || start == n,
                5 * pages.len() < n + 5,
                start == n ==> pages.len() == page_count(n as nat),
                start < n ==> start == 5 * pages.len(),
                forall|i: int|
                    0 <= i < pages.len() ==> (#[trigger] pages[i])@ == log_page(self.log@, i),
                forall|i: int| 0 <= i < pages.len() ==> (#[trigger] pages[i])@.len() >= 1,
            decreases n - start,
        {
            let end: usize = if n - start >= LOG_PAGE_SIZE {
                start + LOG_PAGE_SIZE
            } else {
                n
            };
            let page = slice_subrange(self.log.as_slice(), start, end);
            pages.push(page);
            start = end;
        }
        pages
    }

    /// The front of each log page: its first line, cut to a display width
    /// of 25 (to 25 characters where it holds other than ASCII characters),
    /// with three dots behind it.
    pub fn log_page_fronts(pages: &Vec<&[String]>) -> (fronts: Vec<String>)
        requires
            forall|i: int| 0 <= i < pages.len() ==> (#[trigger] pages[i])@.len() >= 1,
        ensures
            fronts.len() == pages.len(),
            forall|i: int| 0 <= i < fronts.len() ==> (#[trigger] fronts[i])@ == front_text(pages[i]@[0]@),
    {
        let mut fronts: Vec<String> = Vec::new();
        let mut i: usize = 0;
        while i < pages.len()
            invariant
                i <= pages.len(),
                fronts.len() == i,
                forall|k: int| 0 <= k < pages.len() ==> (#[trigger] pages[k])@.len() >= 1,
                forall|k: int| 0 <= k < i ==> (#[trigger] fronts[k])@ == front_text(pages[k]@[0]@),
            decreases pages.len() - i,
        {
            let page: &[String] = pages[i];
            let line = page[0].as_str();
            let mut front = if line.is_ascii() {
                truncate_text(line, LOG_FRONT_WIDTH)
            } else {
                let chars = chars_of(line);
                let end = if chars.len() > LOG_FRONT_WIDTH {
                    LOG_FRONT_WIDTH
                } else {
                    chars.len()
                };
                let cut = string_of_range(&chars, 0, end);
                assert(cut@ =~= if line@.len() > 25 {
                    line@.take(25)
                } else {
                    line@
                });
                cut
            };
            front.append("...");
            fronts.push(front);
            i = i + 1;
        }
        fronts
    }
}

} // verus!
