use nage::audio::{Audio, SoundAction, SoundActionMode};
use nage::choice::{default_true, merge_variable_entries, Choice};
use nage::context::{StaticContext, TextContext};
use nage::discord::RichPresenceMode;
use nage::display::{Text, TextMode};
use nage::error::{
    BackError, ChoiceError, ChooseError, GameError, InfoApplicationError, InvalidInfoPage,
    LookupError, PromptError, ResolutionError, SoundError, ValidationError,
};
use nage::game::{enter_prompt, next_input_context, take_choice, take_variable};
use nage::info::{InfoApplication, InfoContents, UnlockedInfoPage};
use nage::input::InputContext;
use nage::manifest::{
    Dependencies, Entrypoint, HistorySettings, Manifest, Metadata, RichPresenceSettings, Settings,
    TextSettings,
};
use nage::notes::{note_parts, NoteActions, NoteEntry, NoteState, NoteStateContents, Notes};
use nage::path::{path_parts, Path, PathContents, PathData, PathLookup};
use nage::player::{apply_notes, apply_variables, revert_variables, HistoryEntry, Player};
use nage::prompt::{Prompt, PromptKind, PromptModel};
use nage::resources::Resources;
use nage::runtime::GameLoopResult;
use nage::scripts::Scripts;
use nage::table::StringMap;
use nage::templating::{TemplatableString, TemplatableValue};
use nage::variables::{
    NamedVariableEntry, VariableApplicationContents, VariableApplications, VariableEntry,
    VariableInput, Variables,
};

fn ts(s: &str) -> TemplatableString {
    TemplatableString::new(s.to_owned())
}

fn manifest(cap: usize, locked: bool) -> Manifest {
    Manifest {
        metadata: Metadata {
            name: "Test Game".to_owned(),
            id: None,
            authors: vec!["Ann".to_owned()],
            version: "1.0.0".to_owned(),
            contact: None,
        },
        dependencies: Dependencies { nage: None },
        settings: Settings {
            save: true,
            debug: false,
            channels: None,
            history: HistorySettings { locked, size: cap },
            text: TextSettings::default(),
            drp: RichPresenceSettings { enabled: false, icon: None, mode: RichPresenceMode::Id },
        },
        entry: Entrypoint {
            path: PathData { file: "main".to_owned(), prompt: "start".to_owned() },
            background: None,
            notes: None,
            variables: None,
            info_pages: None,
            log: None,
            sounds: None,
        },
    }
}

fn choice() -> Choice {
    Choice {
        response: None,
        tag: None,
        input: None,
        jump: None,
        display: default_true(),
        lock: None,
        notes: None,
        variables: None,
        log: None,
        info_pages: None,
        sounds: None,
        ending: None,
        drp: None,
    }
}

fn text(s: &str) -> Text {
    Text {
        content: ts(s),
        mode: TemplatableValue::value(TextMode::Action),
        speed: None,
        newline: None,
        wait: None,
        sounds: None,
    }
}

fn jump(prompt: &str) -> Option<Path> {
    Some(Path { contents: PathContents { file: None, prompt: ts(prompt) } })
}

fn jump_in(file: &str, prompt: &str) -> Option<Path> {
    Some(Path { contents: PathContents { file: Some(ts(file)), prompt: ts(prompt) } })
}

fn note_state(name: &str, state: bool) -> NoteState {
    NoteState {
        state: NoteStateContents {
            name: ts(name),
            state: Some(TemplatableValue::value(state)),
            inverse: None,
        },
    }
}

fn apply_notes_of(states: Vec<NoteState>) -> Option<NoteActions> {
    Some(NoteActions { apply: Some(states), require: None, once: None })
}

fn set_variable(name: &str, value: &str) -> Option<VariableApplications> {
    Some(VariableApplications {
        applications: vec![VariableApplicationContents { name: ts(name), value: ts(value) }],
    })
}

fn resources(prompts: Vec<(&str, Vec<(&str, Prompt)>)>) -> Resources {
    let mut all: StringMap<StringMap<Prompt>> = StringMap::new();
    for (file, list) in prompts {
        let mut f = StringMap::new();
        for (name, prompt) in list {
            f.insert(name.to_owned(), prompt);
        }
        all.insert(file.to_owned(), f);
    }
    Resources {
        prompts: all,
        translations: StringMap::new(),
        info_pages: StringMap::new(),
        scripts: Scripts::new(StringMap::new()),
        audio: None,
    }
}

fn note_names(player: &Player) -> Vec<String> {
    let mut names = player.notes.to_vec();
    names.sort();
    names
}

fn variable(player: &Player, name: &str) -> Option<String> {
    player.variables.get(name).cloned()
}

fn take(player: &mut Player, c: &Choice, config: &Manifest, res: &Resources) -> Result<(), ChooseError> {
    let stc = StaticContext::new(config, res);
    let ctx = player.text_context(&stc);
    player.make_choice(c, None, &PromptModel::Response, &stc, &ctx)
}

fn take_redirect(player: &mut Player, c: &Choice, config: &Manifest, res: &Resources) -> Result<(), ChooseError> {
    let stc = StaticContext::new(config, res);
    let ctx = player.text_context(&stc);
    player.make_choice(c, None, &PromptModel::Redirect(c), &stc, &ctx)
}

#[test]
fn choice_then_back_restores_state() {
    let config = manifest(5, false);
    let res = resources(vec![]);
    let mut player = Player::new(&config);
    player.notes.insert("old".to_owned());
    player.variables.insert("gold".to_owned(), "5".to_owned());
    let mut c = choice();
    c.jump = jump("next");
    c.notes = apply_notes_of(vec![note_state("brave", true), note_state("old", false)]);
    c.variables = Some(VariableApplications {
        applications: vec![
            VariableApplicationContents { name: ts("gold"), value: ts("<gold>0") },
            VariableApplicationContents { name: ts("name"), value: ts("Kim") },
        ],
    });
    take(&mut player, &c, &config, &res).unwrap();
    assert_eq!(note_names(&player), vec!["brave".to_owned()]);
    assert_eq!(variable(&player, "gold"), Some("50".to_owned()));
    assert_eq!(variable(&player, "name"), Some("Kim".to_owned()));
    assert_eq!(player.history.len(), 2);
    assert_eq!(player.history[1].path.prompt, "next");
    assert_eq!(player.history[1].path.file, "main");
    assert_eq!(player.back(), Ok(()));
    assert_eq!(note_names(&player), vec!["old".to_owned()]);
    assert_eq!(variable(&player, "gold"), Some("5".to_owned()));
    assert_eq!(variable(&player, "name"), None);
    assert_eq!(player.variables.len(), 1);
    assert_eq!(player.history.len(), 1);
}

#[test]
fn giving_a_note_twice_is_not_restored_by_back() {
    let config = manifest(5, false);
    let res = resources(vec![]);
    let mut player = Player::new(&config);
    player.notes.insert("brave".to_owned());
    let mut c = choice();
    c.jump = jump("next");
    c.notes = apply_notes_of(vec![note_state("brave", true)]);
    take(&mut player, &c, &config, &res).unwrap();
    assert_eq!(player.back(), Ok(()));
    assert!(!player.notes.contains("brave"));
}

#[test]
fn back_unwinds_a_redirect_chain() {
    let config = manifest(10, false);
    let res = resources(vec![]);
    let mut player = Player::new(&config);
    player.variables.insert("step".to_owned(), "0".to_owned());
    let mut first = choice();
    first.jump = jump("a");
    first.variables = set_variable("step", "1");
    first.notes = apply_notes_of(vec![note_state("one", true)]);
    take(&mut player, &first, &config, &res).unwrap();
    for (i, name) in ["b", "c", "d"].iter().enumerate() {
        let mut redirect = choice();
        redirect.jump = jump(name);
        redirect.variables = set_variable("step", &format!("{}", i + 2));
        redirect.notes = apply_notes_of(vec![note_state(name, true)]);
        take_redirect(&mut player, &redirect, &config, &res).unwrap();
        assert!(player.history[player.history.len() - 1].redirect);
    }
    assert_eq!(player.history.len(), 5);
    assert_eq!(variable(&player, "step"), Some("4".to_owned()));
    assert_eq!(player.back(), Ok(()));
    assert_eq!(player.history.len(), 1);
    assert_eq!(variable(&player, "step"), Some("0".to_owned()));
    assert!(player.notes.is_empty());
    assert_eq!(player.back(), Err(BackError::Exhausted));
}

#[test]
fn back_stops_at_the_choice_before_a_redirect_chain() {
    let config = manifest(10, false);
    let res = resources(vec![]);
    let mut player = Player::new(&config);
    let mut a = choice();
    a.jump = jump("a");
    take(&mut player, &a, &config, &res).unwrap();
    let mut b = choice();
    b.jump = jump("b");
    take(&mut player, &b, &config, &res).unwrap();
    let mut c = choice();
    c.jump = jump("c");
    take_redirect(&mut player, &c, &config, &res).unwrap();
    assert_eq!(player.history.len(), 4);
    assert_eq!(player.back(), Ok(()));
    assert_eq!(player.history.len(), 2);
    assert_eq!(player.latest_entry().unwrap().path.prompt, "a");
}

#[test]
fn unwinding_stops_in_front_of_a_locked_entry() {
    let config = manifest(10, false);
    let res = resources(vec![]);
    let mut player = Player::new(&config);
    let mut locked = choice();
    locked.jump = jump("a");
    locked.lock = Some(TemplatableValue::value(true));
    take_redirect(&mut player, &locked, &config, &res).unwrap();
    let mut c = choice();
    c.jump = jump("b");
    take_redirect(&mut player, &c, &config, &res).unwrap();
    assert_eq!(player.back(), Ok(()));
    assert_eq!(player.history.len(), 2);
    assert_eq!(player.back(), Err(BackError::Locked));
    assert_eq!(player.history.len(), 2);
}

#[test]
fn back_fails_with_one_entry_or_a_locked_entry() {
    let config = manifest(5, true);
    let res = resources(vec![]);
    let mut player = Player::new(&config);
    assert_eq!(player.back(), Err(BackError::Exhausted));
    let mut c = choice();
    c.jump = jump("next");
    c.variables = set_variable("x", "1");
    take(&mut player, &c, &config, &res).unwrap();
    assert!(player.history[1].locked);
    assert_eq!(player.back(), Err(BackError::Locked));
    assert_eq!(player.history.len(), 2);
    assert_eq!(variable(&player, "x"), Some("1".to_owned()));
    player.history.clear();
    assert_eq!(player.back(), Err(BackError::Exhausted));
    assert!(player.latest_entry().is_err());
}

#[test]
fn latest_entry_is_popped_only_where_back_is_allowed() {
    let config = manifest(5, false);
    let mut player = Player::new(&config);
    assert_eq!(player.pop_latest_entry().err(), Some(BackError::Exhausted));
    assert_eq!(player.history.len(), 1);
    let mut locked = HistoryEntry::new(&PathData { file: "main".to_owned(), prompt: "a".to_owned() });
    locked.locked = true;
    player.push_entry(locked, 5);
    assert_eq!(player.pop_latest_entry().err(), Some(BackError::Locked));
    assert_eq!(player.history.len(), 2);
    player.push_entry(HistoryEntry::new(&PathData { file: "main".to_owned(), prompt: "b".to_owned() }), 5);
    let popped = player.pop_latest_entry().unwrap();
    assert_eq!(popped.path.prompt, "b");
    assert_eq!(player.history.len(), 2);
}

#[test]
fn lock_of_the_choice_wins_over_the_setting() {
    let config = manifest(5, true);
    let res = resources(vec![]);
    let mut player = Player::new(&config);
    let mut c = choice();
    c.jump = jump("next");
    c.lock = Some(TemplatableValue::value(false));
    take(&mut player, &c, &config, &res).unwrap();
    assert!(!player.history[1].locked);
    assert_eq!(player.back(), Ok(()));
}

#[test]
fn history_never_exceeds_the_cap() {
    let config = manifest(3, false);
    let res = resources(vec![]);
    let mut player = Player::new(&config);
    for name in ["a", "b"] {
        let mut c = choice();
        c.jump = jump(name);
        take(&mut player, &c, &config, &res).unwrap();
    }
    assert_eq!(player.history.len(), 3);
    assert_eq!(player.history[0].path.prompt, "start");
    let mut c = choice();
    c.jump = jump("c");
    take(&mut player, &c, &config, &res).unwrap();
    assert_eq!(player.history.len(), 3);
    assert_eq!(player.history[0].path.prompt, "a");
    assert_eq!(player.history[2].path.prompt, "c");
    for name in ["d", "e", "f"] {
        let mut c = choice();
        c.jump = jump(name);
        take(&mut player, &c, &config, &res).unwrap();
        assert_eq!(player.history.len(), 3);
    }
    let mut backs = 0;
    while player.back().is_ok() {
        backs += 1;
    }
    assert_eq!(backs, 2);
    assert!(backs < 3);
    assert_eq!(player.history.len(), 1);
    assert_eq!(player.history[0].path.prompt, "d");
}

#[test]
fn push_entry_evicts_exactly_the_oldest() {
    let config = manifest(2, false);
    let mut player = Player::new(&config);
    player.push_entry(HistoryEntry::new(&PathData { file: "f".to_owned(), prompt: "one".to_owned() }), 2);
    assert_eq!(player.history.len(), 2);
    player.push_entry(HistoryEntry::new(&PathData { file: "f".to_owned(), prompt: "two".to_owned() }), 2);
    assert_eq!(player.history.len(), 2);
    assert_eq!(player.history[0].path.prompt, "one");
    assert_eq!(player.history[1].path.prompt, "two");
}

#[test]
fn stacked_variable_entries_chain_their_previous_values() {
    let config = manifest(5, false);
    let res = resources(vec![]);
    let mut player = Player::new(&config);
    let mut c = choice();
    c.jump = jump("next");
    c.variables = set_variable("gold", "<gold>+10");
    take(&mut player, &c, &config, &res).unwrap();
    assert_eq!(variable(&player, "gold"), Some("UNDEFINED+10".to_owned()));
    assert_eq!(player.history[1].variables.as_ref().unwrap().get("gold").unwrap().previous, None);
    take(&mut player, &c, &config, &res).unwrap();
    assert_eq!(variable(&player, "gold"), Some("UNDEFINED+10+10".to_owned()));
    assert_eq!(
        player.history[2].variables.as_ref().unwrap().get("gold").unwrap().previous,
        Some("UNDEFINED+10".to_owned())
    );
    assert_eq!(player.back(), Ok(()));
    assert_eq!(variable(&player, "gold"), Some("UNDEFINED+10".to_owned()));
    assert_eq!(player.back(), Ok(()));
    assert_eq!(variable(&player, "gold"), None);
    assert!(player.variables.is_empty());
}

#[test]
fn can_be_used_follows_requirements_and_once() {
    let config = manifest(5, false);
    let res = resources(vec![]);
    let stc = StaticContext::new(&config, &res);
    let mut held = Notes::new();
    held.insert("key".to_owned());
    held.insert("seen".to_owned());
    let ctx = TextContext::new(&stc, "en_us".to_owned(), held.snapshot(), Variables::new());
    let plain = choice();
    assert_eq!(plain.can_player_use(&held, &ctx).unwrap(), true);
    let mut needs_key = choice();
    needs_key.notes = Some(NoteActions { apply: None, require: Some(vec![note_state("key", true)]), once: None });
    assert_eq!(needs_key.can_player_use(&held, &ctx).unwrap(), true);
    assert_eq!(needs_key.can_player_use(&Notes::new(), &ctx).unwrap(), false);
    let mut forbids_key = choice();
    forbids_key.notes = Some(NoteActions { apply: None, require: Some(vec![note_state("key", false)]), once: None });
    assert_eq!(forbids_key.can_player_use(&held, &ctx).unwrap(), false);
    assert_eq!(forbids_key.can_player_use(&Notes::new(), &ctx).unwrap(), true);
    let mut once = choice();
    once.notes = Some(NoteActions { apply: None, require: None, once: Some(ts("seen")) });
    assert_eq!(once.can_player_use(&held, &ctx).unwrap(), false);
    assert_eq!(once.can_player_use(&Notes::new(), &ctx).unwrap(), true);
    let mut both = choice();
    both.notes = Some(NoteActions {
        apply: None,
        require: Some(vec![note_state("key", true), note_state("lamp", false)]),
        once: Some(ts("done")),
    });
    assert_eq!(both.can_player_use(&held, &ctx).unwrap(), true);
    let mut inverse = choice();
    inverse.notes = Some(NoteActions {
        apply: None,
        require: Some(vec![NoteState {
            state: NoteStateContents { name: ts("key"), state: None, inverse: Some(TemplatableValue::value(true)) },
        }]),
        once: None,
    });
    assert_eq!(inverse.can_player_use(&held, &ctx).unwrap(), false);
}

#[test]
fn requirement_that_fails_first_hides_later_errors() {
    let config = manifest(5, false);
    let res = resources(vec![]);
    let stc = StaticContext::new(&config, &res);
    let ctx = TextContext::new(&stc, "en_us".to_owned(), Notes::new(), Variables::new());
    let broken = NoteState {
        state: NoteStateContents {
            name: ts("x"),
            state: Some(TemplatableValue::template("<nothing>".to_owned())),
            inverse: None,
        },
    };
    let mut c = choice();
    c.notes = Some(NoteActions { apply: None, require: Some(vec![note_state("key", true), broken]), once: None });
    assert_eq!(c.can_player_use(&Notes::new(), &ctx).unwrap(), false);
    let mut held = Notes::new();
    held.insert("key".to_owned());
    assert!(matches!(c.can_player_use(&held, &ctx), Err(ResolutionError::Parse { .. })));
}

#[test]
fn once_note_is_given_when_the_choice_is_taken() {
    let config = manifest(5, false);
    let res = resources(vec![]);
    let mut player = Player::new(&config);
    let mut c = choice();
    c.jump = jump("next");
    c.notes = Some(NoteActions { apply: None, require: None, once: Some(ts("visited")) });
    let stc = StaticContext::new(&config, &res);
    let ctx = player.text_context(&stc);
    assert_eq!(c.can_player_use(&player.notes, &ctx).unwrap(), true);
    player.make_choice(&c, None, &PromptModel::Response, &stc, &ctx).unwrap();
    assert!(player.notes.contains("visited"));
    let ctx = player.text_context(&stc);
    assert_eq!(c.can_player_use(&player.notes, &ctx).unwrap(), false);
}

#[test]
fn input_takes_precedence_over_applied_variables() {
    let config = manifest(5, false);
    let res = resources(vec![]);
    let mut player = Player::new(&config);
    player.variables.insert("name".to_owned(), "Old".to_owned());
    let mut c = choice();
    c.jump = jump("next");
    c.input = Some(VariableInput { text: None, name: ts("name") });
    c.variables = set_variable("name", "Static");
    let stc = StaticContext::new(&config, &res);
    let ctx = player.text_context(&stc);
    let input = NamedVariableEntry::new("name".to_owned(), "Typed".to_owned(), &player.variables);
    assert_eq!(input.entry.previous, Some("Old".to_owned()));
    player
        .make_choice(&c, Some(input), &PromptModel::Input("name".to_owned(), None), &stc, &ctx)
        .unwrap();
    assert_eq!(variable(&player, "name"), Some("Typed".to_owned()));
    assert_eq!(player.back(), Ok(()));
    assert_eq!(variable(&player, "name"), Some("Old".to_owned()));
}

#[test]
fn merge_variable_entries_by_hand() {
    let vars = Variables::new();
    assert!(merge_variable_entries(None, None).is_none());
    let merged = merge_variable_entries(None, Some(NamedVariableEntry::new("a".to_owned(), "1".to_owned(), &vars))).unwrap();
    assert_eq!(merged.get("a").unwrap().value, "1");
    let mut applied: StringMap<VariableEntry> = StringMap::new();
    applied.insert("a".to_owned(), VariableEntry::new("a", "static".to_owned(), &vars));
    applied.insert("b".to_owned(), VariableEntry::new("b", "2".to_owned(), &vars));
    let merged = merge_variable_entries(Some(applied), Some(NamedVariableEntry::new("a".to_owned(), "typed".to_owned(), &vars))).unwrap();
    assert_eq!(merged.len(), 2);
    assert_eq!(merged.get("a").unwrap().value, "typed");
    assert_eq!(merged.get("b").unwrap().value, "2");
}

#[test]
fn choice_without_jump_makes_no_entry() {
    let config = manifest(5, false);
    let res = resources(vec![]);
    let mut player = Player::new(&config);
    let mut c = choice();
    c.ending = Some(vec![text("The end.")]);
    c.variables = set_variable("x", "1");
    take(&mut player, &c, &config, &res).unwrap();
    assert_eq!(player.history.len(), 1);
    assert!(player.variables.is_empty());
    let stc = StaticContext::new(&config, &res);
    let ctx = player.text_context(&stc);
    let latest = HistoryEntry::new(&config.entry.path);
    assert!(c.to_history_entry(&latest, None, &player.variables, &PromptModel::Response, &stc, &ctx).is_none());
}

#[test]
fn history_entry_holds_resolved_values() {
    let config = manifest(5, true);
    let res = resources(vec![]);
    let stc = StaticContext::new(&config, &res);
    let mut vars = Variables::new();
    vars.insert("where".to_owned(), "cave".to_owned());
    vars.insert("show".to_owned(), "false".to_owned());
    let ctx = TextContext::new(&stc, "en_us".to_owned(), Notes::new(), vars);
    let mut c = choice();
    c.jump = jump_in("other/<where>", "<where>_entry");
    c.display = TemplatableValue::template("<show>".to_owned());
    c.log = Some(ts("You entered <where>"));
    c.notes = Some(NoteActions {
        apply: Some(vec![note_state("in_<where>", true), note_state("outside", false)]),
        require: None,
        once: Some(ts("once_<where>")),
    });
    let latest = HistoryEntry::new(&config.entry.path);
    let entry = c
        .to_history_entry(&latest, None, &ctx.variables, &PromptModel::Redirect(&c), &stc, &ctx)
        .unwrap()
        .unwrap();
    assert_eq!(entry.path.file, "other/cave");
    assert_eq!(entry.path.prompt, "cave_entry");
    assert_eq!(entry.display, false);
    assert_eq!(entry.locked, true);
    assert_eq!(entry.redirect, true);
    assert_eq!(entry.log, true);
    assert!(entry.variables.is_none());
    let notes = entry.notes.unwrap();
    assert_eq!(notes.len(), 3);
    assert_eq!((notes[0].value.as_str(), notes[0].take), ("in_cave", false));
    assert_eq!((notes[1].value.as_str(), notes[1].take), ("outside", true));
    assert_eq!((notes[2].value.as_str(), notes[2].take), ("once_cave", false));
}

#[test]
fn unresolvable_boolean_is_a_parse_error_and_changes_nothing() {
    let config = manifest(5, false);
    let res = resources(vec![]);
    let mut player = Player::new(&config);
    let mut c = choice();
    c.jump = jump("next");
    c.display = TemplatableValue::template("<nothing>".to_owned());
    c.variables = set_variable("x", "1");
    match take(&mut player, &c, &config, &res) {
        Err(ChooseError::Resolution(ResolutionError::Parse { template, resolved })) => {
            assert_eq!(template, "<nothing>");
            assert_eq!(resolved, "UNDEFINED");
        }
        other => panic!("unexpected: {:?}", other),
    }
    assert_eq!(player.history.len(), 1);
    assert!(player.variables.is_empty());
    player.history.clear();
    assert!(matches!(take(&mut player, &c, &config, &res), Err(ChooseError::HistoryEmpty)));
}

#[test]
fn info_pages_are_unlocked_once() {
    let config = manifest(5, false);
    let res = resources(vec![]);
    let mut player = Player::new(&config);
    let mut c = choice();
    c.jump = jump("next");
    c.info_pages = Some(vec![
        InfoApplication { info: InfoContents { name: ts("map"), as_name: Some(ts("The Map")) } },
        InfoApplication { info: InfoContents { name: ts("lore"), as_name: None } },
        InfoApplication { info: InfoContents { name: ts("map"), as_name: Some(ts("Again")) } },
    ]);
    take(&mut player, &c, &config, &res).unwrap();
    assert_eq!(player.info_pages.len(), 2);
    assert_eq!(player.info_pages[0].name, "map");
    assert_eq!(player.info_pages[0].as_name, "The Map");
    assert_eq!(player.info_pages[1].name, "lore");
    assert_eq!(player.info_pages[1].as_name, "lore");
    assert!(player.is_page_unlocked("map"));
    assert!(!player.is_page_unlocked("other"));
    take(&mut player, &c, &config, &res).unwrap();
    assert_eq!(player.info_pages.len(), 2);
    player.unlock_pages(&vec![UnlockedInfoPage { name: "x".to_owned(), as_name: "X".to_owned() }]);
    assert_eq!(player.info_pages.len(), 3);
    assert_eq!(player.back(), Ok(()));
    assert_eq!(player.info_pages.len(), 3);
}

#[test]
fn log_line_is_resolved_after_the_choice_and_popped_by_back() {
    let config = manifest(5, false);
    let res = resources(vec![]);
    let mut player = Player::new(&config);
    let mut c = choice();
    c.jump = jump("next");
    c.variables = set_variable("gold", "10");
    c.log = Some(ts("You now have <gold> gold"));
    let stc = StaticContext::new(&config, &res);
    let ctx = player.text_context(&stc);
    let state = player.choose_full(&c, None, &PromptModel::Response, &stc, &ctx).unwrap();
    assert_eq!(state, Some("main/next".to_owned()));
    assert_eq!(player.log, vec!["You now have 10 gold".to_owned()]);
    assert!(player.history[1].log);
    assert_eq!(player.back(), Ok(()));
    assert!(player.log.is_empty());
    player.history.clear();
    assert!(matches!(player.after_choice(&c, &stc), Err(ChooseError::HistoryEmpty)));
}

#[test]
fn apply_and_revert_helpers() {
    let mut notes = Notes::new();
    notes.insert("a".to_owned());
    let entries = vec![NoteEntry::new("a".to_owned(), true), NoteEntry::new("b".to_owned(), false)];
    apply_notes(&mut notes, &entries, false);
    assert_eq!(notes.to_vec(), vec!["b".to_owned()]);
    apply_notes(&mut notes, &entries, true);
    assert_eq!(notes.to_vec(), vec!["a".to_owned()]);
    let mut vars = Variables::new();
    vars.insert("x".to_owned(), "1".to_owned());
    let mut changes: StringMap<VariableEntry> = StringMap::new();
    changes.insert("x".to_owned(), VariableEntry::new("x", "2".to_owned(), &vars));
    changes.insert("y".to_owned(), VariableEntry::new("y", "3".to_owned(), &vars));
    apply_variables(&mut vars, &changes);
    assert_eq!(vars.get("x"), Some(&"2".to_owned()));
    assert_eq!(vars.get("y"), Some(&"3".to_owned()));
    revert_variables(&mut vars, &changes);
    assert_eq!(vars.get("x"), Some(&"1".to_owned()));
    assert_eq!(vars.get("y"), None);
    let mut player = Player::new(&manifest(5, false));
    player.apply_note("n", false, false);
    assert!(player.notes.contains("n"));
    player.apply_note("n", false, true);
    assert!(!player.notes.contains("n"));
    player.apply_note("n", true, true);
    assert!(player.notes.contains("n"));
}

#[test]
fn prompt_with_input_and_response_is_invalid() {
    let config = manifest(5, false);
    let mut c = choice();
    c.jump = jump("start");
    c.input = Some(VariableInput { text: None, name: ts("name") });
    c.response = Some(text("Say your name"));
    let prompt = Prompt { text: None, choices: vec![c] };
    let mut target = choice();
    target.jump = jump("start");
    let res = resources(vec![("main", vec![("start", Prompt { text: None, choices: vec![target] })])]);
    let stc = StaticContext::new(&config, &res);
    assert_eq!(
        prompt.validate("main", &stc),
        Err(PromptError::Choice { index: 1, cause: ChoiceError::InputWithResponse })
    );
}

#[test]
fn multi_choice_prompt_needs_responses() {
    let config = manifest(5, false);
    let mut a = choice();
    a.jump = jump("start");
    a.response = Some(text("Go"));
    let mut b = choice();
    b.jump = jump("start");
    let prompt = Prompt { text: None, choices: vec![a, b] };
    let mut target = choice();
    target.jump = jump("start");
    let res = resources(vec![("main", vec![("start", Prompt { text: None, choices: vec![target] })])]);
    let stc = StaticContext::new(&config, &res);
    assert_eq!(
        prompt.validate("main", &stc),
        Err(PromptError::Choice { index: 2, cause: ChoiceError::MissingResponse })
    );
}

#[test]
fn choice_validation_errors() {
    let config = manifest(5, false);
    let mut target = choice();
    target.jump = jump("start");
    let mut res = resources(vec![("main", vec![("start", Prompt { text: None, choices: vec![target] })])]);
    res.info_pages.insert("map".to_owned(), "A map.".to_owned());
    res.audio = Some(Audio { channels: vec!["music".to_owned()], sounds: vec!["bell".to_owned()] });
    let stc = StaticContext::new(&config, &res);
    let c = choice();
    assert_eq!(c.validate("main", false, &stc), Err(ChoiceError::MissingJumpOrEnding));
    let mut c = choice();
    c.jump = jump("start");
    c.ending = Some(vec![text("end")]);
    assert_eq!(c.validate("main", false, &stc), Err(ChoiceError::JumpAndEnding));
    let mut c = choice();
    c.jump = jump_in("nowhere", "start");
    assert_eq!(c.validate("main", false, &stc), Err(ChoiceError::InvalidPromptFile));
    let mut c = choice();
    c.jump = jump("missing");
    assert_eq!(c.validate("main", false, &stc), Err(ChoiceError::InvalidPrompt));
    assert_eq!(c.validate("other", false, &stc), Err(ChoiceError::InvalidPromptFile));
    let mut c = choice();
    c.jump = jump("<somewhere>");
    assert_eq!(c.validate("main", false, &stc), Ok(()));
    assert_eq!(c.validate("main", true, &stc), Err(ChoiceError::MissingResponse));
    let mut c = choice();
    c.ending = Some(vec![text("end")]);
    assert_eq!(c.validate("main", false, &stc), Ok(()));
    c.info_pages = Some(vec![
        InfoApplication { info: InfoContents { name: ts("map"), as_name: None } },
        InfoApplication { info: InfoContents { name: ts("<dynamic>"), as_name: None } },
        InfoApplication { info: InfoContents { name: ts("nope"), as_name: None } },
    ]);
    assert_eq!(c.validate("main", false, &stc), Err(ChoiceError::InfoPage { index: 3 }));
    c.sounds = Some(vec![SoundAction {
        name: Some(ts("bell")),
        channel: ts("drums"),
        mode: TemplatableValue::value(SoundActionMode::Queue),
        seek: None,
        speed: None,
    }]);
    assert_eq!(
        c.validate("main", false, &stc),
        Err(ChoiceError::Sound { index: 1, cause: SoundError::InvalidChannel })
    );
    assert_eq!(
        InfoApplication::validate_all(c.info_pages.as_ref().unwrap(), &res.info_pages),
        Err(InfoApplicationError { index: 3 })
    );
    assert_eq!(c.info_pages.as_ref().unwrap()[2].validate(&res.info_pages), Err(InvalidInfoPage));
    assert_eq!(c.info_pages.as_ref().unwrap()[0].validate(&res.info_pages), Ok(()));
}

#[test]
fn validate_all_reports_the_first_invalid_prompt() {
    let config = manifest(5, false);
    let mut good = choice();
    good.jump = jump("start");
    let bad = choice();
    let res = resources(vec![
        ("main", vec![("start", Prompt { text: None, choices: vec![good] })]),
        ("side", vec![
            ("ok", Prompt { text: None, choices: vec![] }),
            ("broken", Prompt { text: None, choices: vec![bad] }),
        ]),
    ]);
    let stc = StaticContext::new(&config, &res);
    assert_eq!(
        Prompt::validate_all(&stc),
        Err(ValidationError {
            file: 1,
            prompt: 1,
            cause: PromptError::Choice { index: 1, cause: ChoiceError::MissingJumpOrEnding },
        })
    );
    let mut fine = choice();
    fine.jump = jump("start");
    let res = resources(vec![("main", vec![("start", Prompt { text: None, choices: vec![fine] })])]);
    let stc = StaticContext::new(&config, &res);
    assert_eq!(Prompt::validate_all(&stc), Ok(()));
}

#[test]
fn paths_and_notes_written_as_one_text() {
    assert_eq!(path_parts("start"), (None, "start".to_owned()));
    assert_eq!(path_parts("main/start"), (Some("main".to_owned()), "start".to_owned()));
    assert_eq!(path_parts("some/file/prompt"), (Some("some/file".to_owned()), "prompt".to_owned()));
    assert_eq!(path_parts("file/"), (Some("file".to_owned()), "".to_owned()));
    assert_eq!(path_parts("/prompt"), (Some("".to_owned()), "prompt".to_owned()));
    assert_eq!(path_parts(""), (None, "".to_owned()));
    let contents = PathContents::from_text("a/b/c");
    assert_eq!(contents.file.unwrap().content, "a/b");
    assert_eq!(contents.prompt.content, "c");
    assert!(PathContents::from_text("c").file.is_none());
    assert_eq!(note_parts("brave"), ("brave".to_owned(), true));
    assert_eq!(note_parts("brave!"), ("brave".to_owned(), false));
    assert_eq!(note_parts("!"), ("".to_owned(), false));
    assert_eq!(note_parts(""), ("".to_owned(), true));
    assert_eq!(note_parts("a!b"), ("a!b".to_owned(), true));
    let state = NoteStateContents::from_text("key!");
    assert_eq!(state.name.content, "key");
    assert_eq!(state.state.unwrap().static_value(), Some(&false));
    assert!(state.inverse.is_none());
}

#[test]
fn scripted_parts_leave_the_rest_of_a_choice_exact() {
    let config = manifest(5, false);
    let mut res = resources(vec![]);
    let mut files = StringMap::new();
    files.insert("name".to_owned(), "return 'gift'".to_owned());
    res.scripts = Scripts::new(files);
    let mut player = Player::new(&config);
    player.notes.insert("key".to_owned());
    player.variables.insert("gift".to_owned(), "old".to_owned());
    let mut c = choice();
    c.jump = jump("next");
    c.variables = Some(VariableApplications {
        applications: vec![
            VariableApplicationContents { name: ts("(name)"), value: ts("new") },
            VariableApplicationContents { name: ts("plain"), value: ts("1") },
        ],
    });
    c.notes = Some(NoteActions {
        apply: Some(vec![note_state("(name)", true), note_state("lamp", false)]),
        require: Some(vec![note_state("key", false), note_state("(missing)", true)]),
        once: Some(ts("(missing)")),
    });
    let stc = StaticContext::new(&config, &res);
    let ctx = player.text_context(&stc);
    assert_eq!(c.can_player_use(&player.notes, &ctx).unwrap(), false);
    c.notes.as_mut().unwrap().require = None;
    c.notes.as_mut().unwrap().once = Some(ts("done"));
    let latest = HistoryEntry::new(&config.entry.path);
    let entry = c
        .to_history_entry(&latest, None, &player.variables, &PromptModel::Response, &stc, &ctx)
        .unwrap()
        .unwrap();
    assert_eq!(entry.path.file, "main");
    assert_eq!(entry.path.prompt, "next");
    assert!(entry.display);
    let notes = entry.notes.unwrap();
    assert_eq!(notes.len(), 3);
    assert_eq!((notes[0].value.as_str(), notes[0].take), ("gift", false));
    assert_eq!((notes[1].value.as_str(), notes[1].take), ("lamp", true));
    assert_eq!((notes[2].value.as_str(), notes[2].take), ("done", false));
    let variables = entry.variables.unwrap();
    assert_eq!(variables.get("gift").unwrap().previous, Some("old".to_owned()));
    assert_eq!(variables.get("gift").unwrap().value, "new");
    assert_eq!(variables.get("plain").unwrap().previous, None);
    let usable = choice();
    let prompt = Prompt { text: None, choices: vec![c, usable] };
    let listed = prompt.usable_choices(&player.notes, &ctx).unwrap();
    assert_eq!(listed.iter().map(|(i, _)| *i).collect::<Vec<usize>>(), vec![1, 2]);
}

#[test]
fn input_prompt_without_jump_only_sets_the_variable() {
    let config = manifest(5, false);
    let res = resources(vec![]);
    let stc = StaticContext::new(&config, &res);
    let mut player = Player::new(&config);
    player.notes.insert("key".to_owned());
    let mut ask = choice();
    ask.ending = Some(vec![text("bye")]);
    ask.input = Some(VariableInput { text: None, name: ts("name") });
    ask.log = Some(ts("Named <name>"));
    let ctx = player.text_context(&stc);
    let usable = vec![(1usize, &ask)];
    let model = PromptModel::Input("name".to_owned(), None);
    let (result, _) =
        take_variable(&mut player, &usable, "name".to_owned(), "Kim".to_owned(), &model, &stc, &ctx).unwrap();
    assert_eq!(result, GameLoopResult::Continue);
    assert_eq!(player.history.len(), 1);
    assert_eq!(note_names(&player), vec!["key".to_owned()]);
    assert_eq!(variable(&player, "name"), Some("Kim".to_owned()));
    assert_eq!(player.log, vec!["Named Kim".to_owned()]);
    let mut jumps = choice();
    jumps.jump = jump("next");
    jumps.input = Some(VariableInput { text: None, name: ts("name") });
    jumps.notes = apply_notes_of(vec![note_state("asked", true)]);
    let usable = vec![(1usize, &jumps)];
    let ctx = player.text_context(&stc);
    take_variable(&mut player, &usable, "name".to_owned(), "Ann".to_owned(), &model, &stc, &ctx).unwrap();
    assert_eq!(player.history.len(), 2);
    assert!(player.notes.contains("asked"));
    assert_eq!(variable(&player, "name"), Some("Ann".to_owned()));
    assert_eq!(
        player.history[1].variables.as_ref().unwrap().get("name").unwrap().previous,
        Some("Kim".to_owned())
    );
    assert_eq!(player.back(), Ok(()));
    assert_eq!(variable(&player, "name"), Some("Kim".to_owned()));
    assert!(!player.notes.contains("asked"));
}

#[test]
fn failing_log_line_leaves_the_choice_made() {
    let config = manifest(5, false);
    let res = resources(vec![]);
    let stc = StaticContext::new(&config, &res);
    let mut player = Player::new(&config);
    let mut c = choice();
    c.jump = jump("next");
    c.notes = apply_notes_of(vec![note_state("seen", true)]);
    c.variables = set_variable("gold", "10");
    c.log = Some(ts("(missing)"));
    let ctx = player.text_context(&stc);
    let usable = vec![(1usize, &c)];
    let result = take_choice(&mut player, &usable, 1, &PromptModel::Response, &stc, &ctx);
    assert!(matches!(result, Err(ChooseError::Resolution(_))));
    assert_eq!(player.history.len(), 2);
    assert_eq!(player.history[1].path.prompt, "next");
    assert!(player.history[1].log);
    assert!(player.notes.contains("seen"));
    assert_eq!(variable(&player, "gold"), Some("10".to_owned()));
    assert!(player.log.is_empty());
    let mut ends = choice();
    ends.ending = Some(vec![text("bye")]);
    ends.log = Some(ts("(missing)"));
    let mut other = Player::new(&config);
    let ctx = other.text_context(&stc);
    let usable = vec![(1usize, &ends)];
    let result = take_choice(&mut other, &usable, 1, &PromptModel::Response, &stc, &ctx);
    assert!(matches!(result, Err(ChooseError::Resolution(_))));
    assert_eq!(other.history.len(), 1);
    assert!(other.log.is_empty());
    assert!(other.notes.is_empty());
}

#[test]
fn presence_state_follows_the_mode() {
    let mut config = manifest(5, false);
    let res = resources(vec![]);
    let mut c = choice();
    c.jump = jump("next");
    c.log = Some(ts("Went <where>"));
    c.variables = set_variable("where", "north");
    {
        let stc = StaticContext::new(&config, &res);
        let mut player = Player::new(&config);
        let ctx = player.text_context(&stc);
        let usable = vec![(1usize, &c)];
        let (_, state) = take_choice(&mut player, &usable, 1, &PromptModel::Response, &stc, &ctx).unwrap();
        assert_eq!(state, Some("main/next".to_owned()));
        assert_eq!(player.log, vec!["Went north".to_owned()]);
    }
    config.settings.drp.mode = RichPresenceMode::Custom { fallback: true };
    {
        let stc = StaticContext::new(&config, &res);
        let mut player = Player::new(&config);
        let ctx = player.text_context(&stc);
        let usable = vec![(1usize, &c)];
        let (_, state) = take_choice(&mut player, &usable, 1, &PromptModel::Response, &stc, &ctx).unwrap();
        assert_eq!(state, None);
        c.drp = Some(ts("Travelling"));
        let ctx = player.text_context(&stc);
        let usable = vec![(1usize, &c)];
        let (_, state) = take_choice(&mut player, &usable, 1, &PromptModel::Response, &stc, &ctx).unwrap();
        assert_eq!(state, Some("Went north".to_owned()));
    }
    config.settings.drp.mode = RichPresenceMode::Custom { fallback: false };
    {
        let stc = StaticContext::new(&config, &res);
        let mut player = Player::new(&config);
        let ctx = player.text_context(&stc);
        let usable = vec![(1usize, &c)];
        let (_, state) = take_choice(&mut player, &usable, 1, &PromptModel::Response, &stc, &ctx).unwrap();
        assert_eq!(state, None);
    }
}

#[test]
fn prompt_lookup() {
    let mut c = choice();
    c.jump = jump("start");
    let res = resources(vec![("main", vec![("start", Prompt { text: None, choices: vec![c] })])]);
    let found: PathData = PathLookup::new("main", "start").into();
    assert!(Prompt::get(&res.prompts, &found).is_ok());
    assert!(Prompt::get_file(&res.prompts, "main").is_ok());
    let missing: PathData = PathLookup::new("main", "nope").into();
    assert_eq!(Prompt::get(&res.prompts, &missing).err(), Some(LookupError::InvalidPrompt));
    let nofile: PathData = PathLookup::new("nope", "start").into();
    assert_eq!(Prompt::get(&res.prompts, &nofile).err(), Some(LookupError::InvalidPromptFile));
    assert_eq!(Prompt::get_file(&res.prompts, "nope").err(), Some(LookupError::InvalidPromptFile));
    assert_eq!(found.to_string(), "main/start");
}

#[test]
fn prompt_models() {
    let config = manifest(5, false);
    let res = resources(vec![]);
    let stc = StaticContext::new(&config, &res);
    let mut vars = Variables::new();
    vars.insert("who".to_owned(), "hero".to_owned());
    let ctx = TextContext::new(&stc, "en_us".to_owned(), Notes::new(), vars);

    let mut input = choice();
    input.jump = jump("next");
    input.input = Some(VariableInput { text: Some(ts("Name of <who>")), name: ts("<who>_name") });
    let prompt = Prompt { text: None, choices: vec![input] };
    assert_eq!(prompt.kind(), PromptKind::Input);
    match prompt.model(&ctx).unwrap() {
        PromptModel::Input(name, Some(text)) => {
            assert_eq!(name, "hero_name");
            assert_eq!(text.content, "Name of <who>");
        }
        other => panic!("unexpected: {:?}", other),
    }
    let model = prompt.model(&ctx).unwrap();
    assert_eq!(model.kind(), PromptKind::Input);
    assert_eq!(model.description(), "Input; takes user input for the variable 'hero_name'");
    match next_input_context(&model, &vec![], &ctx).unwrap() {
        Some(InputContext::Variable(name, Some(text))) => {
            assert_eq!(name, "hero_name");
            assert_eq!(text, "Name of hero");
        }
        other => panic!("unexpected: {:?}", other),
    }

    let mut ending = choice();
    ending.ending = Some(vec![text("The end.")]);
    let prompt = Prompt { text: None, choices: vec![ending] };
    assert_eq!(prompt.kind(), PromptKind::Ending);
    assert!(matches!(prompt.model(&ctx).unwrap(), PromptModel::Ending(_)));
    assert!(next_input_context(&prompt.model(&ctx).unwrap(), &vec![], &ctx).unwrap().is_none());
    assert_eq!(prompt.model(&ctx).unwrap().description(), "Ending; the game is forced to end");

    let mut redirect = choice();
    redirect.jump = jump("next");
    let prompt = Prompt { text: None, choices: vec![redirect] };
    assert_eq!(prompt.kind(), PromptKind::Redirect);
    assert!(matches!(prompt.model(&ctx).unwrap(), PromptModel::Redirect(_)));
    assert_eq!(
        prompt.model(&ctx).unwrap().description(),
        "Redirect; jumps to another prompt without input"
    );

    let mut single = choice();
    single.jump = jump("next");
    single.response = Some(text("Go"));
    let prompt = Prompt { text: None, choices: vec![single] };
    assert_eq!(prompt.kind(), PromptKind::Response);
    let mut a = choice();
    a.jump = jump("next");
    let mut b = choice();
    b.jump = jump("next");
    let prompt = Prompt { text: None, choices: vec![a, b] };
    assert_eq!(prompt.kind(), PromptKind::Response);
    let model = prompt.model(&ctx).unwrap();
    assert_eq!(model.description(), "Response; standard prompt-choice model");
    assert_eq!(model.to_string(), "Model: Response; standard prompt-choice model");
    let usable = prompt.usable_choices(&Notes::new(), &ctx).unwrap();
    assert!(matches!(
        next_input_context(&model, &usable, &ctx).unwrap(),
        Some(InputContext::Choices(2))
    ));
    assert_eq!(Prompt { text: None, choices: vec![] }.kind(), PromptKind::Response);
}

#[test]
fn usable_choices_keep_order_and_number() {
    let config = manifest(5, false);
    let res = resources(vec![]);
    let stc = StaticContext::new(&config, &res);
    let mut held = Notes::new();
    held.insert("key".to_owned());
    let ctx = TextContext::new(&stc, "en_us".to_owned(), held.snapshot(), Variables::new());
    let mut first = choice();
    first.response = Some(text("first"));
    first.notes = Some(NoteActions { apply: None, require: Some(vec![note_state("key", false)]), once: None });
    let mut second = choice();
    second.response = Some(text("second"));
    let mut third = choice();
    third.response = Some(text("third"));
    third.notes = Some(NoteActions { apply: None, require: Some(vec![note_state("key", true)]), once: None });
    let prompt = Prompt { text: None, choices: vec![first, second, third] };
    let usable = prompt.usable_choices(&held, &ctx).unwrap();
    assert_eq!(usable.len(), 2);
    assert_eq!(usable[0].0, 2);
    assert_eq!(usable[1].0, 3);
    assert_eq!(usable[0].1.response.as_ref().unwrap().content.content, "second");
    assert_eq!(usable[1].1.response.as_ref().unwrap().content.content, "third");
    let all = prompt.usable_choices(&Notes::new(), &ctx).unwrap();
    assert_eq!(all.iter().map(|(i, _)| *i).collect::<Vec<usize>>(), vec![1, 2]);
}

#[test]
fn jumps_to_a_prompt_are_found() {
    let mut a = choice();
    a.jump = jump("start");
    let mut b = choice();
    b.jump = jump_in("main", "start");
    let mut c = choice();
    c.jump = jump("<dynamic>");
    let mut d = choice();
    d.jump = jump("elsewhere");
    let target = PathData { file: "main".to_owned(), prompt: "start".to_owned() };
    assert!(a.has_jump_to("main", &target));
    assert!(!a.has_jump_to("side", &target));
    assert!(b.has_jump_to("side", &target));
    assert!(!c.has_jump_to("main", &target));
    assert!(!choice().has_jump_to("main", &target));
    assert!(a.jump.as_ref().unwrap().matches("main", &target));
    assert!(a.jump.as_ref().unwrap().is_validatable());
    assert!(!c.jump.as_ref().unwrap().is_validatable());
    assert_eq!(a.jump.as_ref().unwrap().static_file("main"), Some("main".to_owned()));
    assert_eq!(c.jump.as_ref().unwrap().static_file("main"), None);
    assert_eq!(b.jump.as_ref().unwrap().static_data("side").unwrap().file, "main");
    assert!(a.jump.as_ref().unwrap().file().is_none());
    assert_eq!(a.jump.as_ref().unwrap().prompt().content, "start");
    let prompt = Prompt { text: None, choices: vec![d, a, c, b] };
    assert_eq!(prompt.get_jumps_to("main", &target), vec![1, 3]);
    assert_eq!(prompt.get_jumps_to("side", &target), vec![3]);
    let mut e = choice();
    e.jump = jump_in("main", "start");
    let mut f = choice();
    f.jump = jump("start");
    let res = resources(vec![
        ("main", vec![("start", prompt)]),
        ("side", vec![("one", Prompt { text: None, choices: vec![e] }), ("two", Prompt { text: None, choices: vec![f] })]),
    ]);
    let jumps = Prompt::external_jumps(&target, &res.prompts);
    assert_eq!(jumps.len(), 2);
    assert_eq!(jumps.get("main/start"), Some(&vec![1, 3]));
    assert_eq!(jumps.get("side/one"), Some(&vec![0]));
    assert_eq!(jumps.get("side/two"), None);
}

#[test]
fn turn_at_the_current_prompt() {
    let config = manifest(5, false);
    let mut go = choice();
    go.jump = jump("end");
    go.response = Some(text("Go on"));
    let mut hidden = choice();
    hidden.jump = jump("end");
    hidden.response = Some(text("Secret"));
    hidden.notes = Some(NoteActions { apply: None, require: Some(vec![note_state("key", true)]), once: None });
    let mut finish = choice();
    finish.ending = Some(vec![text("Done.")]);
    let mut locked_out = choice();
    locked_out.jump = jump("start");
    locked_out.notes = Some(NoteActions { apply: None, require: Some(vec![note_state("key", true)]), once: None });
    let mut ask = choice();
    ask.jump = jump("start");
    ask.input = Some(VariableInput { text: None, name: ts("name") });
    let res = resources(vec![(
        "main",
        vec![
            ("start", Prompt { text: None, choices: vec![hidden, go] }),
            ("end", Prompt { text: None, choices: vec![finish] }),
            ("stuck", Prompt { text: None, choices: vec![locked_out] }),
            ("ask", Prompt { text: None, choices: vec![ask] }),
        ],
    )]);
    let stc = StaticContext::new(&config, &res);
    let mut player = Player::new(&config);
    let ctx = player.text_context(&stc);
    let (model_kind, numbers, shown) = {
        let turn = enter_prompt(&stc, &player, &ctx).unwrap();
        (turn.model.kind(), turn.choices.iter().map(|(i, _)| *i).collect::<Vec<usize>>(), turn.display)
    };
    assert_eq!(model_kind, PromptKind::Response);
    assert_eq!(numbers, vec![2]);
    assert!(shown);
    let turn = enter_prompt(&stc, &player, &ctx).unwrap();
    let (result, state) = take_choice(&mut player, &turn.choices, 1, &turn.model, &stc, &ctx).unwrap();
    assert_eq!(result, GameLoopResult::Continue);
    assert_eq!(state, Some("main/end".to_owned()));
    assert_eq!(player.latest_entry().unwrap().path.prompt, "end");
    let ctx = player.text_context(&stc);
    let turn = enter_prompt(&stc, &player, &ctx).unwrap();
    assert_eq!(turn.model.kind(), PromptKind::Ending);
    let (result, _) = take_choice(&mut player, &turn.choices, 1, &turn.model, &stc, &ctx).unwrap();
    assert_eq!(result, GameLoopResult::Shutdown(true));

    player.push_entry(HistoryEntry::new(&PathData { file: "main".to_owned(), prompt: "stuck".to_owned() }), 5);
    assert!(matches!(enter_prompt(&stc, &player, &ctx), Err(GameError::NoUsableChoices)));
    player.push_entry(HistoryEntry::new(&PathData { file: "main".to_owned(), prompt: "gone".to_owned() }), 5);
    assert!(matches!(enter_prompt(&stc, &player, &ctx), Err(GameError::Lookup(LookupError::InvalidPrompt))));
    player.push_entry(HistoryEntry::new(&PathData { file: "gone".to_owned(), prompt: "start".to_owned() }), 5);
    assert!(matches!(enter_prompt(&stc, &player, &ctx), Err(GameError::Lookup(LookupError::InvalidPromptFile))));

    player.push_entry(HistoryEntry::new(&PathData { file: "main".to_owned(), prompt: "ask".to_owned() }), 5);
    let ctx = player.text_context(&stc);
    let turn = enter_prompt(&stc, &player, &ctx).unwrap();
    assert_eq!(turn.model.kind(), PromptKind::Input);
    let (result, _) =
        take_variable(&mut player, &turn.choices, "name".to_owned(), "Kim".to_owned(), &turn.model, &stc, &ctx).unwrap();
    assert_eq!(result, GameLoopResult::Continue);
    assert_eq!(variable(&player, "name"), Some("Kim".to_owned()));
    assert_eq!(player.back(), Ok(()));
    assert_eq!(variable(&player, "name"), None);

    player.history.clear();
    assert!(matches!(enter_prompt(&stc, &player, &ctx), Err(GameError::HistoryEmpty)));
}

#[test]
fn resolution_errors_reach_the_turn() {
    let config = manifest(5, false);
    let mut c = choice();
    c.jump = jump("start");
    c.notes = Some(NoteActions {
        apply: None,
        require: Some(vec![NoteState {
            state: NoteStateContents {
                name: ts("(missing)"),
                state: Some(TemplatableValue::value(true)),
                inverse: None,
            },
        }]),
        once: None,
    });
    let res = resources(vec![("main", vec![("start", Prompt { text: None, choices: vec![c] })])]);
    let stc = StaticContext::new(&config, &res);
    let player = Player::new(&config);
    let ctx = player.text_context(&stc);
    assert!(matches!(
        enter_prompt(&stc, &player, &ctx),
        Err(GameError::Resolution(ResolutionError::UnknownScript { .. }))
    ));
}
