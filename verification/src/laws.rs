//! What holds of choices taken and reversed.

use vstd::prelude::*;
use crate::notes::{notes_after, NoteChange};
use crate::player::{
    applied, can_go_back, chosen, notes_with, pushed, stepped_back, taken, unwound,
    variables_after, variables_before, HistoryRecord, Player, PlayerState,
};
use crate::choice::{merged_changes, Choice};
use crate::context::{StaticContext, TextContext};
use crate::variables::{
    application_changes, applications_fill, built_changes, lemma_built_changes_remember, lookup,
    records_of, text_map, VariableApplicationContents, VariableChange,
};

verus! {

/// The last of `changes` that names the note `name`, if any does.
pub open spec fn last_change(changes: Seq<NoteChange>, name: Seq<char>) -> Option<NoteChange>
    decreases changes.len(),
{
    if changes.len() == 0 {
        None
    } else if changes.last().name == name {
        Some(changes.last())
    } else {
        last_change(changes.drop_last(), name)
    }
}

/// After a run of changes a note is held according to the last change that
/// names it, and as before where none names it.
pub proof fn lemma_notes_after(
    notes: Set<Seq<char>>,
    changes: Seq<NoteChange>,
    reverse: bool,
    name: Seq<char>,
)
    ensures
        notes_after(notes, changes, reverse).contains(name) == match last_change(changes, name) {
            Some(c) => c.take == reverse,
            None => notes.contains(name),
        },
    decreases changes.len(),
{
    if changes.len() > 0 {
        lemma_notes_after(notes, changes.drop_last(), reverse, name);
    }
}

/// Whether undoing `changes` after making them gives `notes` back: each
/// note that is named must be held before exactly if the last change that
/// names it takes it.
pub open spec fn notes_reversible(notes: Set<Seq<char>>, changes: Option<Seq<NoteChange>>) -> bool {
    match changes {
        Some(c) => forall|name: Seq<char>|
            (#[trigger] last_change(c, name)) matches Some(change) ==> notes.contains(name)
                == change.take,
        None => true,
    }
}

/// Whether `changes` remember the texts that the variables have in
/// `variables`.
pub open spec fn recorded_against(
    variables: Map<Seq<char>, Seq<char>>,
    changes: Option<Map<Seq<char>, VariableChange>>,
) -> bool {
    match changes {
        Some(c) => forall|k: Seq<char>| #[trigger]
            c.contains_key(k) ==> c[k].previous == (if variables.contains_key(k) {
                Some(variables[k])
            } else {
                None
            }),
        None => true,
    }
}

/// Whether undoing `entry` after taking it from `state` gives the notes and
/// variables of `state` back.
pub open spec fn reversible(state: PlayerState, entry: HistoryRecord) -> bool {
    notes_reversible(state.notes, entry.notes) && recorded_against(state.variables, entry.variables)
}

/// The changes that applications make remember the texts that the
/// variables have.
pub proof fn lemma_applications_remember(
    apps: Seq<VariableApplicationContents>,
    globals: Map<Seq<char>, String>,
    ctx: &TextContext,
)
    ensures
        recorded_against(text_map(globals), Some(application_changes(apps, globals, ctx))),
    decreases apps.len(),
{
    if apps.len() > 0 {
        lemma_applications_remember(apps.drop_last(), globals, ctx);
    }
}

/// The history entry that a choice makes remembers the texts that the
/// variables have, where the player's input does.
pub proof fn lemma_record_remembers(
    choice: &Choice,
    latest_file: Seq<char>,
    input: Option<(Seq<char>, VariableChange)>,
    variables: Map<Seq<char>, String>,
    redirect: bool,
    default_lock: bool,
    ctx: &TextContext,
)
    requires
        choice.record(latest_file, input, variables, redirect, default_lock, ctx) is Some,
        input matches Some((name, change)) ==> change.previous == lookup(variables, name),
    ensures
        recorded_against(
            text_map(variables),
            choice.record(latest_file, input, variables, redirect, default_lock, ctx)->0.variables,
        ),
{
    if let Some(apps) = choice.variables {
        lemma_applications_remember(apps.applications@, variables, ctx);
    }
}

/// Every history entry that a choice can make, whatever its scripts
/// answer, remembers the texts that the variables have, where the player's
/// input does.
pub proof fn lemma_records_remember(
    choice: &Choice,
    latest_file: Seq<char>,
    input: Option<(Seq<char>, VariableChange)>,
    variables: Map<Seq<char>, String>,
    redirect: bool,
    default_lock: bool,
    ctx: &TextContext,
    record: HistoryRecord,
)
    requires
        choice.records_as(latest_file, input, variables, redirect, default_lock, ctx, record),
        input matches Some((name, change)) ==> change.previous == lookup(variables, name),
    ensures
        recorded_against(text_map(variables), record.variables),
{
    if let Some(apps) = choice.variables {
        let changes = choose|changes: Map<Seq<char>, VariableChange>| #[trigger]
            records_of(apps.applications@, variables, ctx, changes) && record.variables
                == merged_changes(Some(changes), input);
        let (names, values) = choose|names: Seq<Seq<char>>, values: Seq<Seq<char>>| #[trigger]
            applications_fill(apps.applications@, ctx, names, values) && changes == built_changes(
                names,
                values,
                variables,
                apps.applications@.len() as int,
            );
        lemma_built_changes_remember(names, values, variables, apps.applications@.len() as int);
    }
}

/// Making note changes and undoing them gives the notes back exactly where
/// the changes are reversible on them.
pub proof fn lemma_notes_round_trip(notes: Set<Seq<char>>, changes: Option<Seq<NoteChange>>)
    ensures
        notes_with(notes_with(notes, changes, false), changes, true) == notes <==> notes_reversible(
            notes,
            changes,
        ),
{
    if let Some(c) = changes {
        let made = notes_after(notes, c, false);
        let undone = notes_after(made, c, true);
        assert forall|name: Seq<char>|
            undone.contains(name) == match last_change(c, name) {
                Some(change) => change.take,
                None => notes.contains(name),
            } by {
            lemma_notes_after(notes, c, false, name);
            lemma_notes_after(made, c, true, name);
        }
        if notes_reversible(notes, changes) {
            assert(undone =~= notes);
        }
        if undone == notes {
            assert forall|name: Seq<char>| (#[trigger] last_change(c, name)) is Some implies notes.contains(
                name,
            ) == last_change(c, name)->0.take by {
                assert(undone.contains(name) == notes.contains(name));
            }
        }
    }
}

/// Making variable changes and undoing them gives the variables back
/// exactly where the changes were recorded against them.
pub proof fn lemma_variables_round_trip(
    variables: Map<Seq<char>, Seq<char>>,
    changes: Map<Seq<char>, VariableChange>,
)
    ensures
        variables_before(variables_after(variables, changes), changes) == variables
            <==> recorded_against(variables, Some(changes)),
{
    let undone = variables_before(variables_after(variables, changes), changes);
    if recorded_against(variables, Some(changes)) {
        assert(undone =~= variables);
    }
    if undone == variables {
        assert forall|k: Seq<char>| #[trigger] changes.contains_key(k) implies changes[k].previous
            == (if variables.contains_key(k) {
            Some(variables[k])
        } else {
            None
        }) by {
            assert(undone.contains_key(k) == variables.contains_key(k));
            if variables.contains_key(k) {
                assert(undone[k] == variables[k]);
            }
        }
    }
}

/// Taking one entry off again undoes taking it: where the cap is not
/// exceeded and the entry is reversible on the state, everything is as
/// before.
pub proof fn lemma_step_back_undoes(state: PlayerState, entry: HistoryRecord, line: Seq<char>, cap: nat)
    requires
        state.history.len() < cap,
        reversible(state, entry),
    ensures
        stepped_back(taken(state, entry, line, cap)) == state,
{
    let after = taken(state, entry, line, cap);
    let back = stepped_back(after);
    assert(after.history =~= state.history.push(entry));
    assert(after.history.last() == entry);
    assert(back.history =~= state.history);
    lemma_notes_round_trip(state.notes, entry.notes);
    if let Some(changes) = entry.variables {
        lemma_variables_round_trip(state.variables, changes);
    }
    if entry.log {
        assert(state.log.push(line).drop_last() =~= state.log);
    }
    assert(back.log =~= state.log);
}

/// A choice that is taken and then reversed leaves notes, variables, log
/// and history as they were.
///
/// This holds where the cap is not exceeded by the choice, the entry is
/// not locked, so that going back is allowed, going back stops at this
/// entry (it is no redirect, or nothing before it can be undone), and the
/// entry is reversible on the state: its variable records remember the
/// texts of the state, and each note that it names is held before exactly
/// if the last change that names it takes it.
pub proof fn lemma_choose_then_back(state: PlayerState, entry: HistoryRecord, line: Seq<char>, cap: nat)
    requires
        1 <= state.history.len() < cap,
        !entry.locked,
        !(entry.redirect && can_go_back(state.history)),
        reversible(state, entry),
    ensures
        can_go_back(taken(state, entry, line, cap).history),
        unwound(taken(state, entry, line, cap)) == state,
        unwound(taken(state, entry, line, cap)).history.len() == state.history.len(),
{
    let after = taken(state, entry, line, cap);
    assert(after.history =~= state.history.push(entry));
    lemma_step_back_undoes(state, entry, line, cap);
}

/// Taking the latest entry off again gives back the history; the
/// variables, where the entry remembers the texts that they had; and the
/// notes, where its note changes are reversible on them.
pub proof fn lemma_entry_undone(state: PlayerState, entry: HistoryRecord, after: PlayerState)
    requires
        after.notes == applied(state, entry).notes,
        after.variables == applied(state, entry).variables,
        after.history == state.history.push(entry),
        recorded_against(state.variables, entry.variables),
    ensures
        stepped_back(after).history == state.history,
        stepped_back(after).variables == state.variables,
        notes_reversible(state.notes, entry.notes) ==> stepped_back(after).notes == state.notes,
{
    assert(after.history.last() == entry);
    assert(after.history.drop_last() =~= state.history);
    lemma_notes_round_trip(state.notes, entry.notes);
    if let Some(changes) = entry.variables {
        lemma_variables_round_trip(state.variables, changes);
    }
}

/// Whether the record of the player's input, if there is one, remembers
/// the text that its variable has in `variables`.
pub open spec fn input_remembers(
    input: Option<(Seq<char>, VariableChange)>,
    variables: Map<Seq<char>, String>,
) -> bool {
    input matches Some((name, change)) ==> change.previous == lookup(variables, name)
}

/// A choice that a player made and then goes back on leaves the variables
/// and the history as they were before the choice, whatever the scripts
/// of the choice answered: each variable that the choice set has its
/// earlier text again, and one that it created is gone. The notes are as
/// before too where the note changes of the entry are reversible on them.
///
/// This holds where the choice did not exceed the cap, its entry is not
/// locked, and going back stops at it (it is no redirect, or nothing
/// before it can be undone).
pub proof fn lemma_made_choice_undone(
    before: &Player,
    after: &Player,
    choice: &Choice,
    input: Option<(Seq<char>, VariableChange)>,
    redirect: bool,
    stc: &StaticContext,
    ctx: &TextContext,
)
    requires
        after.chose(before, choice, input, redirect, stc, ctx),
        input_remembers(input, before.variables@),
        1 <= before.history@.len() < stc.config.settings.history.size,
        !after.state().history.last().locked,
        !(redirect && can_go_back(before.state().history)),
    ensures
        can_go_back(after.state().history),
        unwound(after.state()).variables == before.state().variables,
        unwound(after.state()).history == before.state().history,
        notes_reversible(before.state().notes, after.state().history.last().notes) ==> unwound(
            after.state(),
        ).notes == before.state().notes,
{
    let cap = stc.config.settings.history.size as nat;
    let record = choose|record: HistoryRecord|
        after.state() == #[trigger] chosen(before.state(), record, cap) && choice.records_as(
            before.history@.last().path.file@,
            input,
            before.variables@,
            redirect,
            stc.config.settings.history.locked,
            ctx,
            record,
        );
    lemma_records_remember(
        choice,
        before.history@.last().path.file@,
        input,
        before.variables@,
        redirect,
        stc.config.settings.history.locked,
        ctx,
        record,
    );
    assert(after.state().history =~= before.state().history.push(record));
    lemma_entry_undone(before.state(), record, after.state());
}

/// A choice that was taken in full and is then gone back on leaves
/// variables, log and history as they were before the choice, whatever
/// the scripts of the choice answered; and the notes too, so that
/// everything is as before, where the note changes of the entry are
/// reversible on them.
///
/// This holds where the choice did not exceed the cap, its entry is not
/// locked, and going back stops at it (it is no redirect, or nothing
/// before it can be undone).
pub proof fn lemma_taken_choice_undone(
    before: &Player,
    after: &Player,
    choice: &Choice,
    input: Option<(Seq<char>, VariableChange)>,
    redirect: bool,
    stc: &StaticContext,
    ctx: &TextContext,
)
    requires
        after.took(before, choice, input, redirect, stc, ctx),
        input_remembers(input, before.variables@),
        1 <= before.history@.len() < stc.config.settings.history.size,
        !after.state().history.last().locked,
        !(redirect && can_go_back(before.state().history)),
    ensures
        can_go_back(after.state().history),
        unwound(after.state()).variables == before.state().variables,
        unwound(after.state()).log == before.state().log,
        unwound(after.state()).history == before.state().history,
        notes_reversible(before.state().notes, after.state().history.last().notes) ==> unwound(
            after.state(),
        ) == before.state(),
{
    lemma_taken_step(before, after, choice, input, redirect, stc, ctx);
}

/// One step of going back on a choice that was taken in full, within the
/// cap: the entry is the latest of the history and is a redirect exactly
/// if the choice was taken as one; undoing it gives variables, log and
/// history back, and the notes where its note changes are reversible.
pub proof fn lemma_taken_step(
    before: &Player,
    after: &Player,
    choice: &Choice,
    input: Option<(Seq<char>, VariableChange)>,
    redirect: bool,
    stc: &StaticContext,
    ctx: &TextContext,
)
    requires
        after.took(before, choice, input, redirect, stc, ctx),
        input_remembers(input, before.variables@),
        before.history@.len() < stc.config.settings.history.size,
    ensures
        after.state().history == before.state().history.push(after.state().history.last()),
        after.state().history.last().redirect == redirect,
        stepped_back(after.state()).variables == before.state().variables,
        stepped_back(after.state()).log == before.state().log,
        stepped_back(after.state()).history == before.state().history,
        notes_reversible(before.state().notes, after.state().history.last().notes) ==> stepped_back(
            after.state(),
        ) == before.state(),
{
    let cap = stc.config.settings.history.size as nat;
    let (record, line) = choose|record: HistoryRecord, line: Seq<char>|
        after.state() == #[trigger] taken(before.state(), record, line, cap) && choice.records_as(
            before.history@.last().path.file@,
            input,
            before.variables@,
            redirect,
            stc.config.settings.history.locked,
            ctx,
            record,
        );
    lemma_records_remember(
        choice,
        before.history@.last().path.file@,
        input,
        before.variables@,
        redirect,
        stc.config.settings.history.locked,
        ctx,
        record,
    );
    assert(after.state().history =~= before.state().history.push(record));
    lemma_entry_undone(before.state(), record, after.state());
    if record.log {
        assert(before.state().log.push(line).drop_last() =~= before.state().log);
    }
}

/// Whether `players` are the states of one player in the course of a
/// redirect chain: each is the one before it after the next of `choices`
/// was taken in full, all within the cap; every choice behind the first
/// was taken as a redirect, and going back stops at the first; no entry is
/// locked; the note changes of each entry are reversible on the notes held
/// when it was taken; and each input remembers the text of its variable.
pub open spec fn taken_in_chain(
    players: Seq<Player>,
    choices: Seq<Choice>,
    inputs: Seq<Option<(Seq<char>, VariableChange)>>,
    redirects: Seq<bool>,
    contexts: Seq<TextContext>,
    stc: &StaticContext,
) -> bool {
    &&& choices.len() >= 1
    &&& players.len() == choices.len() + 1
    &&& inputs.len() == choices.len()
    &&& redirects.len() == choices.len()
    &&& contexts.len() == choices.len()
    &&& players[0].history@.len() >= 1
    &&& players[0].history@.len() + choices.len() <= stc.config.settings.history.size
    &&& !(redirects[0] && can_go_back(players[0].state().history))
    &&& forall|i: int| 1 <= i < choices.len() ==> #[trigger] redirects[i]
    &&& forall|i: int|
        0 <= i < choices.len() ==> {
            &&& (#[trigger] players[i + 1]).took(
                &players[i],
                &choices[i],
                inputs[i],
                redirects[i],
                stc,
                &contexts[i],
            )
            &&& input_remembers(inputs[i], players[i].variables@)
            &&& !players[i + 1].state().history.last().locked
            &&& notes_reversible(players[i].state().notes, players[i + 1].state().history.last().notes)
        }
}

/// Going back once at the end of a redirect chain undoes the whole chain,
/// whatever the scripts of its choices answered: notes, variables, log and
/// history are what they were before the first choice of the chain. A
/// variable that was set several times in the chain has the text it had
/// before the chain, or is gone if it had none.
pub proof fn lemma_back_undoes_chain(
    players: Seq<Player>,
    choices: Seq<Choice>,
    inputs: Seq<Option<(Seq<char>, VariableChange)>>,
    redirects: Seq<bool>,
    contexts: Seq<TextContext>,
    stc: &StaticContext,
)
    requires
        taken_in_chain(players, choices, inputs, redirects, contexts, stc),
    ensures
        can_go_back(players.last().state().history),
        players.last().history@.len() == players[0].history@.len() + choices.len(),
        unwound(players.last().state()) == players[0].state(),
    decreases choices.len(),
{
    let n = choices.len() as int;
    let before = players[n - 1];
    let after = players[n];
    assert(players.last() == after);
    if n > 1 {
        let shorter = players.drop_last();
        assert forall|i: int| 0 <= i < n - 1 implies {
            &&& (#[trigger] shorter[i + 1]).took(
                &shorter[i],
                &choices.drop_last()[i],
                inputs.drop_last()[i],
                redirects.drop_last()[i],
                stc,
                &contexts.drop_last()[i],
            )
            &&& input_remembers(inputs.drop_last()[i], shorter[i].variables@)
            &&& !shorter[i + 1].state().history.last().locked
            &&& notes_reversible(shorter[i].state().notes, shorter[i + 1].state().history.last().notes)
        } by {
            assert(shorter[i + 1] == players[i + 1]);
            assert(shorter[i] == players[i]);
        }
        assert forall|i: int| 1 <= i < n - 1 implies #[trigger] redirects.drop_last()[i] by {
            assert(redirects[i]);
        }
        lemma_back_undoes_chain(
            shorter,
            choices.drop_last(),
            inputs.drop_last(),
            redirects.drop_last(),
            contexts.drop_last(),
            stc,
        );
        assert(shorter.last() == before);
    }
    assert(players[n - 1 + 1] == after);
    lemma_taken_step(&before, &after, &choices[n - 1], inputs[n - 1], redirects[n - 1], stc, &contexts[n - 1]);
    if n > 1 {
        assert(redirects[n - 1]);
    }
}

/// The state after the choices recorded by `entries` are taken one after
/// the other, the `i`-th adding `lines[i]` to the log where it adds a
/// line.
pub open spec fn taken_all(
    state: PlayerState,
    entries: Seq<HistoryRecord>,
    lines: Seq<Seq<char>>,
    cap: nat,
) -> PlayerState
    decreases entries.len(),
{
    if entries.len() == 0 {
        state
    } else {
        taken(
            taken_all(state, entries.drop_last(), lines, cap),
            entries.last(),
            lines[entries.len() - 1],
            cap,
        )
    }
}

/// Whether `entries` form a chain that one `back` unwinds as a whole: a
/// first entry at which going back stops, followed by redirects only, none
/// of them locked, all within the cap, and each reversible on the state in
/// which it is taken.
pub open spec fn redirect_chain(
    state: PlayerState,
    entries: Seq<HistoryRecord>,
    lines: Seq<Seq<char>>,
    cap: nat,
) -> bool {
    &&& entries.len() >= 1
    &&& state.history.len() >= 1
    &&& state.history.len() + entries.len() <= cap
    &&& !(entries[0].redirect && can_go_back(state.history))
    &&& forall|i: int| 1 <= i < entries.len() ==> (#[trigger] entries[i]).redirect
    &&& forall|i: int| 0 <= i < entries.len() ==> !(#[trigger] entries[i]).locked
    &&& forall|i: int|
        0 <= i < entries.len() ==> reversible(
            taken_all(state, entries.take(i), lines, cap),
            #[trigger] entries[i],
        )
}

/// Within the cap, taking entries appends them to the history.
pub proof fn lemma_taken_all_history(
    state: PlayerState,
    entries: Seq<HistoryRecord>,
    lines: Seq<Seq<char>>,
    cap: nat,
)
    requires
        state.history.len() + entries.len() <= cap,
    ensures
        taken_all(state, entries, lines, cap).history == state.history + entries,
    decreases entries.len(),
{
    if entries.len() > 0 {
        lemma_taken_all_history(state, entries.drop_last(), lines, cap);
        assert(state.history + entries =~= (state.history + entries.drop_last()).push(
            entries.last(),
        ));
    } else {
        assert(state.history + entries =~= state.history);
    }
}

/// Going back once from the end of a redirect chain removes every entry of
/// the chain and restores notes, variables, log and history to what they
/// were before the chain began.
pub proof fn lemma_back_unwinds_chain(
    state: PlayerState,
    entries: Seq<HistoryRecord>,
    lines: Seq<Seq<char>>,
    cap: nat,
)
    requires
        redirect_chain(state, entries, lines, cap),
    ensures
        can_go_back(taken_all(state, entries, lines, cap).history),
        taken_all(state, entries, lines, cap).history.len() == state.history.len() + entries.len(),
        unwound(taken_all(state, entries, lines, cap)) == state,
    decreases entries.len(),
{
    let n = entries.len() as int;
    let before = taken_all(state, entries.drop_last(), lines, cap);
    let after = taken_all(state, entries, lines, cap);
    let last = entries.last();
    lemma_taken_all_history(state, entries.drop_last(), lines, cap);
    lemma_taken_all_history(state, entries, lines, cap);
    assert(entries.take(n - 1) =~= entries.drop_last());
    assert(reversible(before, entries[n - 1]));
    lemma_step_back_undoes(before, last, lines[n - 1], cap);
    assert(after.history.last() == last);
    if n == 1 {
        assert(entries.drop_last() =~= Seq::<HistoryRecord>::empty());
        assert(before == state);
    } else {
        let shorter = entries.drop_last();
        assert forall|i: int| 0 <= i < shorter.len() implies reversible(
            taken_all(state, shorter.take(i), lines, cap),
            #[trigger] shorter[i],
        ) by {
            assert(shorter.take(i) =~= entries.take(i));
            assert(shorter[i] == entries[i]);
        }
        assert forall|i: int| 1 <= i < shorter.len() implies (#[trigger] shorter[i]).redirect by {
            assert(shorter[i] == entries[i]);
        }
        assert forall|i: int| 0 <= i < shorter.len() implies !(#[trigger] shorter[i]).locked by {
            assert(shorter[i] == entries[i]);
        }
        assert(shorter[0] == entries[0]);
        lemma_back_unwinds_chain(state, shorter, lines, cap);
        assert(entries[n - 1].redirect);
        assert(before.history.last() == shorter.last());
        assert(can_go_back(before.history));
    }
}

/// Appending under the cap never leaves more than `cap` entries where
/// there were no more before; an append to a full history drops exactly the
/// oldest entry.
pub proof fn lemma_pushed_within_cap(history: Seq<HistoryRecord>, entry: HistoryRecord, cap: nat)
    requires
        history.len() <= cap,
    ensures
        pushed(history, entry, cap).len() <= cap,
        history.len() < cap ==> pushed(history, entry, cap) == history.push(entry),
        (history.len() == cap && cap >= 1) ==> pushed(history, entry, cap) == history.drop_first().push(
            entry,
        ),
{
    if history.len() == cap && cap >= 1 {
        assert(history.push(entry).drop_first() =~= history.drop_first().push(entry));
    }
}

/// Going back, where it is allowed, shortens the history and leaves at
/// least one entry.
pub proof fn lemma_unwound_shortens(state: PlayerState)
    requires
        can_go_back(state.history),
    ensures
        1 <= unwound(state).history.len() < state.history.len(),
    decreases state.history.len(),
{
    let next = stepped_back(state);
    if state.history.last().redirect && can_go_back(next.history) {
        lemma_unwound_shortens(next);
    }
}

/// The state after going back `n` times, or `None` where one of the `n`
/// times is not allowed.
pub open spec fn gone_back(state: PlayerState, n: nat) -> Option<PlayerState>
    decreases n,
{
    if n == 0 {
        Some(state)
    } else {
        match gone_back(state, (n - 1) as nat) {
            Some(s) => if can_go_back(s.history) {
                Some(unwound(s))
            } else {
                None
            },
            None => None,
        }
    }
}

/// A player can go back fewer times than the history holds entries, and so
/// fewer than `cap` times, however many choices were made before.
pub proof fn lemma_back_bound(state: PlayerState, n: nat, cap: nat)
    requires
        1 <= state.history.len() <= cap,
        gone_back(state, n) is Some,
    ensures
        n < state.history.len(),
        n < cap,
        gone_back(state, n)->0.history.len() + n <= state.history.len(),
        gone_back(state, n)->0.history.len() >= 1,
    decreases n,
{
    if n > 0 {
        lemma_back_bound(state, (n - 1) as nat, cap);
        lemma_unwound_shortens(gone_back(state, (n - 1) as nat)->0);
    }
}

} // verus!
