//! Variables: named texts of the player, and the records that change them.

use vstd::prelude::*;
use crate::context::TextContext;
use crate::error::ResolutionError;
use crate::table::StringMap;
use crate::templating::TemplatableString;

verus! {

/// The player's variables: a map from a variable's name to its text.
pub type Variables = StringMap<String>;

/// A map from text keys to texts, seen as texts on both sides.
pub open spec fn text_map(m: Map<Seq<char>, String>) -> Map<Seq<char>, Seq<char>> {
    Map::new(|k: Seq<char>| m.contains_key(k), |k: Seq<char>| m[k]@)
}

/// How to take a text from the player, and where it is stored.
#[derive(Debug)]
pub struct VariableInput {
    /// A custom prompt for the input.
    pub text: Option<TemplatableString>,
    /// The name of the variable that receives the input.
    pub name: TemplatableString,
}

/// One variable set by a choice: its name and the text it gets.
#[derive(Debug)]
pub struct VariableApplicationContents {
    pub name: TemplatableString,
    pub value: TemplatableString,
}

/// Variable applications in the order in which they are written.
pub type VariableApplicationsInner = Vec<VariableApplicationContents>;

/// Variable applications whose names are plain keys.
pub type StaticVariableApplications = StringMap<TemplatableString>;

/// The variables that a choice sets without asking the player.
#[derive(Debug)]
pub struct VariableApplications {
    pub applications: VariableApplicationsInner,
}

/// The record of one variable being set: its new text, and the text it had
/// before, if it had one.
#[derive(Debug)]
pub struct VariableEntry {
    pub value: String,
    pub previous: Option<String>,
}

/// Variable records by variable name.
pub type VariableEntries = StringMap<VariableEntry>;

/// A variable record together with the variable's name.
#[derive(Debug)]
pub struct NamedVariableEntry {
    pub name: String,
    pub entry: VariableEntry,
}

/// The text that a variable had, as a plain text.
pub open spec fn previous_text(previous: Option<String>) -> Option<Seq<char>> {
    match previous {
        Some(p) => Some(p@),
        None => None,
    }
}

/// The text stored under `name` in `variables`, if any.
pub open spec fn lookup(variables: Map<Seq<char>, String>, name: Seq<char>) -> Option<Seq<char>> {
    if variables.contains_key(name) {
        Some(variables[name]@)
    } else {
        None
    }
}

impl VariableEntry {
    /// The record of setting the variable `name` to `value`, given the
    /// variables as they are before.
    pub fn new(name: &str, value: String, variables: &Variables) -> (entry: VariableEntry)
        ensures
            entry.value == value,
            previous_text(entry.previous) == lookup(variables@, name@),
    {
        let previous = match variables.get(name) {
            Some(p) => Some(p.clone()),
            None => None,
        };
        VariableEntry { value, previous }
    }
}

impl NamedVariableEntry {
    /// The record of setting the variable `name` to `value`, given the
    /// variables as they are before.
    pub fn new(name: String, value: String, variables: &Variables) -> (named: NamedVariableEntry)
        ensures
            named.name == name,
            named.entry.value == value,
            previous_text(named.entry.previous) == lookup(variables@, name@),
    {
        let entry = VariableEntry::new(name.as_str(), value, variables);
        NamedVariableEntry { name, entry }
    }
}

/// The variables as pairs of name and text, in insertion order.
pub fn variable_pairs(variables: &Variables) -> (pairs: Vec<(String, String)>)
    ensures
        pairs.len() == variables.entries().len(),
        forall|i: int|
            0 <= i < pairs.len() ==> pairs[i].0@ == variables.entries()[i].0@ && pairs[i].1@
                == variables.entries()[i].1@,
{
    let mut pairs: Vec<(String, String)> = Vec::new();
    let mut i: usize = 0;
    let n = variables.len();
    while i < n
        invariant
            i <= n,
            n == variables.entries().len(),
            pairs.len() == i,
            forall|k: int|
                0 <= k < i ==> pairs[k].0@ == variables.entries()[k].0@ && pairs[k].1@
                    == variables.entries()[k].1@,
        decreases n - i,
    {
        pairs.push((variables.key_at(i).clone(), variables.value_at(i).clone()));
        i = i + 1;
    }
    pairs
}

/// One change of a variable, as plain values: the text it gets, and the
/// text it had before, if it had one.
pub struct VariableChange {
    pub value: Seq<char>,
    pub previous: Option<Seq<char>>,
}

impl View for VariableEntry {
    type V = VariableChange;

    open spec fn view(&self) -> VariableChange {
        VariableChange { value: self.value@, previous: previous_text(self.previous) }
    }
}

/// The changes that `entries` record, by variable name.
pub open spec fn variable_changes(entries: Map<Seq<char>, VariableEntry>) -> Map<
    Seq<char>,
    VariableChange,
> {
    Map::new(|k: Seq<char>| entries.contains_key(k), |k: Seq<char>| entries[k]@)
}

/// The changes that the applications `apps` make to `globals`, where
/// resolving them calls no script. Of two applications to one name the
/// later one counts.
pub open spec fn application_changes(
    apps: Seq<VariableApplicationContents>,
    globals: Map<Seq<char>, String>,
    ctx: &TextContext,
) -> Map<Seq<char>, VariableChange>
    decreases apps.len(),
{
    if apps.len() == 0 {
        Map::empty()
    } else {
        let name = apps.last().name.plain(ctx);
        application_changes(apps.drop_last(), globals, ctx).insert(
            name,
            VariableChange { value: apps.last().value.plain(ctx), previous: lookup(globals, name) },
        )
    }
}

impl VariableApplicationContents {
    /// Whether resolving the name and the value calls no script.
    pub open spec fn script_free(&self, ctx: &TextContext) -> bool {
        self.name.script_free(ctx) && self.value.script_free(ctx)
    }

    /// Applications with plain names, as a list in the order of the map.
    pub fn from_static(values: StaticVariableApplications) -> (apps: VariableApplicationsInner)
        ensures
            apps.len() == values.entries().len(),
            forall|i: int|
                0 <= i < apps.len() ==> (#[trigger] apps[i]).name.content@
                    == values.entries()[i].0@ && apps[i].value == values.entries()[i].1,
    {
        let mut entries = values.into_entries();
        let ghost all = entries@;
        let mut reversed: VariableApplicationsInner = Vec::new();
        while entries.len() > 0
            invariant
                entries.len() + reversed.len() == all.len(),
                entries@ == all.take(entries.len() as int),
                forall|k: int|
                    0 <= k < reversed.len() ==> (#[trigger] reversed[k]).name.content@ == all[all.len()
                        - 1 - k].0@ && reversed[k].value == all[all.len() - 1 - k].1,
            decreases entries.len(),
        {
            let ghost n = entries.len();
            let (name, value) = entries.pop().unwrap();
            assert(entries@ =~= all.take(entries.len() as int));
            reversed.push(VariableApplicationContents { name: TemplatableString::new(name), value });
        }
        let mut apps: VariableApplicationsInner = Vec::new();
        while reversed.len() > 0
            invariant
                apps.len() + reversed.len() == all.len(),
                forall|k: int|
                    0 <= k < reversed.len() ==> (#[trigger] reversed[k]).name.content@ == all[all.len()
                        - 1 - k].0@ && reversed[k].value == all[all.len() - 1 - k].1,
                forall|k: int|
                    0 <= k < apps.len() ==> (#[trigger] apps[k]).name.content@ == all[k].0@
                        && apps[k].value == all[k].1,
            decreases reversed.len(),
        {
            let app = reversed.pop().unwrap();
            apps.push(app);
        }
        apps
    }
}

/// Whether resolving each of `apps` calls no script.
pub open spec fn applications_script_free(
    apps: Seq<VariableApplicationContents>,
    ctx: &TextContext,
) -> bool {
    forall|i: int| 0 <= i < apps.len() ==> (#[trigger] apps[i]).script_free(ctx)
}

/// Whether `names` and `values` are texts that the names and values of
/// `apps` can fill to, one by one.
pub open spec fn applications_fill(
    apps: Seq<VariableApplicationContents>,
    ctx: &TextContext,
    names: Seq<Seq<char>>,
    values: Seq<Seq<char>>,
) -> bool {
    &&& names.len() == apps.len()
    &&& values.len() == apps.len()
    &&& forall|i: int|
        0 <= i < apps.len() ==> (#[trigger] apps[i]).name.fills_to(ctx, names[i])
            && apps[i].value.fills_to(ctx, values[i])
}

/// Whether `e` is a failure that resolving `apps` can end in: a failure of
/// filling the name or the value of one of them.
pub open spec fn applications_fail(apps: Seq<VariableApplicationContents>, ctx: &TextContext, e: ResolutionError) -> bool {
    exists|i: int|
        0 <= i < apps.len() && ((#[trigger] apps[i]).name.fails_as(ctx, e) || apps[i].value.fails_as(
            ctx,
            e,
        ))
}

/// The changes that setting the first `n` of `names` to `values` makes to
/// `globals`: each remembers the text that its variable has in `globals`.
/// Of two changes to one name the later one counts.
pub open spec fn built_changes(
    names: Seq<Seq<char>>,
    values: Seq<Seq<char>>,
    globals: Map<Seq<char>, String>,
    n: int,
) -> Map<Seq<char>, VariableChange>
    decreases n,
{
    if n <= 0 {
        Map::empty()
    } else {
        built_changes(names, values, globals, n - 1).insert(
            names[n - 1],
            VariableChange { value: values[n - 1], previous: lookup(globals, names[n - 1]) },
        )
    }
}

/// Whether `changes` are records that the applications `apps` can make
/// against `globals`: the changes built from names and values that the
/// applications fill to.
pub open spec fn records_of(
    apps: Seq<VariableApplicationContents>,
    globals: Map<Seq<char>, String>,
    ctx: &TextContext,
    changes: Map<Seq<char>, VariableChange>,
) -> bool {
    exists|names: Seq<Seq<char>>, values: Seq<Seq<char>>| #[trigger]
        applications_fill(apps, ctx, names, values) && changes == built_changes(
            names,
            values,
            globals,
            apps.len() as int,
        )
}

/// The changes built from the first `n` names and values do not depend on
/// what follows them.
pub proof fn lemma_built_changes_prefix(
    names: Seq<Seq<char>>,
    values: Seq<Seq<char>>,
    more_names: Seq<Seq<char>>,
    more_values: Seq<Seq<char>>,
    globals: Map<Seq<char>, String>,
    n: int,
)
    requires
        n <= names.len(),
        n <= values.len(),
        n <= more_names.len(),
        n <= more_values.len(),
        forall|k: int| 0 <= k < n ==> names[k] == more_names[k] && values[k] == more_values[k],
    ensures
        built_changes(names, values, globals, n) == built_changes(
            more_names,
            more_values,
            globals,
            n,
        ),
    decreases n,
{
    if n > 0 {
        lemma_built_changes_prefix(names, values, more_names, more_values, globals, n - 1);
    }
}

/// Built changes remember the text that each variable has in `globals`.
pub proof fn lemma_built_changes_remember(
    names: Seq<Seq<char>>,
    values: Seq<Seq<char>>,
    globals: Map<Seq<char>, String>,
    n: int,
)
    ensures
        forall|k: Seq<char>| #[trigger]
            built_changes(names, values, globals, n).contains_key(k) ==> built_changes(
                names,
                values,
                globals,
                n,
            )[k].previous == lookup(globals, k),
    decreases n,
{
    if n > 0 {
        lemma_built_changes_remember(names, values, globals, n - 1);
    }
}

impl VariableEntry {
    /// The records of the applications `applying`, given the variables
    /// `globals` as they are before: each name and value is resolved, and
    /// each record remembers the text that its variable had in `globals`.
    pub fn from_map(applying: &VariableApplications, globals: &Variables, text_context: &TextContext) -> (r:
        Result<VariableEntries, ResolutionError>)
        ensures
            applications_script_free(applying.applications@, text_context) ==> (r matches Ok(entries)
                && variable_changes(entries@) == application_changes(
                applying.applications@,
                globals@,
                text_context,
            )),
            r matches Ok(entries) ==> records_of(
                applying.applications@,
                globals@,
                text_context,
                variable_changes(entries@),
            ),
            r matches Err(e) ==> applications_fail(applying.applications@, text_context, e),
    {
        let apps = &applying.applications;
        let mut entries: VariableEntries = StringMap::new();
        let mut i: usize = 0;
        assert(apps@.take(0) =~= Seq::<VariableApplicationContents>::empty());
        assert(variable_changes(entries@) =~= Map::<Seq<char>, VariableChange>::empty());
        let ghost mut names: Seq<Seq<char>> = Seq::empty();
        let ghost mut values: Seq<Seq<char>> = Seq::empty();
        while i < apps.len()
            invariant
                i <= apps.len(),
                apps == applying.applications,
                applications_script_free(apps@, text_context) ==> variable_changes(entries@)
                    == application_changes(apps@.take(i as int), globals@, text_context),
                names.len() == i,
                values.len() == i,
                forall|k: int|
                    0 <= k < i ==> (#[trigger] apps[k]).name.fills_to(text_context, names[k])
                        && apps[k].value.fills_to(text_context, values[k]),
                variable_changes(entries@) == built_changes(names, values, globals@, i as int),
            decreases apps.len() - i,
        {
            let ghost before = entries@;
            proof {
                assert(apps@.take(i + 1).drop_last() =~= apps@.take(i as int));
                assert(apps@.take(i + 1).last() == apps@[i as int]);
            }
            let name = match apps[i].name.fill(text_context) {
                Ok(n) => n,
                Err(e) => {
                    assert(apps@[i as int].name.fails_as(text_context, e));
                    return Err(e);
                },
            };
            let value = match apps[i].value.fill(text_context) {
                Ok(v) => v,
                Err(e) => {
                    assert(apps@[i as int].value.fails_as(text_context, e));
                    return Err(e);
                },
            };
            let named = NamedVariableEntry::new(name, value, globals);
            let ghost key = named.name@;
            let ghost entry = named.entry;
            entries.insert(named.name, named.entry);
            assert(variable_changes(entries@) =~= variable_changes(before).insert(key, entry@));
            proof {
                let longer_names = names.push(key);
                let longer_values = values.push(entry.value@);
                lemma_built_changes_prefix(
                    names,
                    values,
                    longer_names,
                    longer_values,
                    globals@,
                    i as int,
                );
                names = longer_names;
                values = longer_values;
            }
            i = i + 1;
        }
        assert(apps@.take(apps.len() as int) =~= apps@);
        assert(applications_fill(apps@, text_context, names, values));
        Ok(entries)
    }
}

/// A copy of the variables.
pub fn duplicate_variables(variables: &Variables) -> (copy: Variables)
    ensures
        copy@ == variables@,
{
    let n = variables.len();
    let mut copy: Variables = StringMap::new();
    let mut i: usize = 0;
    let ghost all = variables.entries();
    while i < n
        invariant
            i <= n,
            n == all.len(),
            all == variables.entries(),
            forall|k: Seq<char>|
                #[trigger] copy@.contains_key(k) ==> variables@.contains_key(k) && copy@[k]
                    == variables@[k],
            forall|j: int| 0 <= j < i ==> copy@.contains_key(#[trigger] all[j].0@),
        decreases n - i,
    {
        let key = variables.key_at(i);
        let value = variables.value_at(i);
        copy.insert(key.clone(), value.clone());
        i = i + 1;
    }
    proof {
        assert forall|k: Seq<char>| variables@.contains_key(k) implies copy@.contains_key(k) by {
            let j = variables.index_of(k)->0;
            assert(all[j].0@ == k);
        }
        assert(copy@ =~= variables@);
    }
    copy
}

/// Whether the name of each of `apps` is known without resolving anything.
pub open spec fn names_static(apps: Seq<VariableApplicationContents>) -> bool {
    forall|i: int| 0 <= i < apps.len() ==> !crate::templating::templatable(
        (#[trigger] apps[i]).name.content@,
    )
}

/// The map from name to value that the first `n` of `apps` give. Of two
/// applications to one name the later one counts.
pub open spec fn static_map(apps: Seq<VariableApplicationContents>, n: int) -> Map<
    Seq<char>,
    TemplatableString,
>
    decreases n,
{
    if n <= 0 {
        Map::empty()
    } else {
        static_map(apps, n - 1).insert(apps[n - 1].name.content@, apps[n - 1].value)
    }
}

impl VariableApplications {
    /// The applications as a map from name to value, if every name is
    /// known without resolving anything.
    pub fn into_static(&self) -> (r: Option<StaticVariableApplications>)
        ensures
            match r {
                Some(map) => names_static(self.applications@) && map@ == static_map(
                    self.applications@,
                    self.applications.len() as int,
                ),
                None => !names_static(self.applications@),
            },
    {
        let apps = &self.applications;
        let mut map: StaticVariableApplications = StringMap::new();
        let mut i: usize = 0;
        while i < apps.len()
            invariant
                i <= apps.len(),
                apps == &self.applications,
                forall|k: int|
                    0 <= k < i ==> !crate::templating::templatable((#[trigger] apps[k]).name.content@),
                map@ == static_map(apps@, i as int),
            decreases apps.len() - i,
        {
            match apps[i].name.content() {
                Some(name) => {
                    map.insert(name.to_owned(), apps[i].value.duplicate());
                },
                None => {
                    return None;
                },
            }
            i = i + 1;
        }
        Some(map)
    }
}

} // verus!
