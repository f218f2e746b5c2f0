use nage::audio::{Audio, SoundAction, SoundActionMode};
use nage::choice::{default_true, Choice};
use nage::context::{StaticContext, TextContext};
use nage::discord::RichPresenceMode;
use nage::display::{Text, TextMode};
use nage::error::{
    ManifestError, PromptError, ResolutionError, SoundActionError, SoundError,
    SoundFailure,
};
use nage::game::{crash_context, handle_quit};
use nage::input::{InputContext, InputController, InputError, InputResult, VariableInputResult};
use nage::manifest::{
    Dependencies, Entrypoint, EntrypointSoundAction, HistorySettings, Manifest, Metadata,
    RichPresenceSettings, Settings, TextSettings, NAGE_VERSION,
};
use nage::notes::Notes;
use nage::parse::Templated;
use nage::path::{Path, PathContents, PathData};
use nage::player::{HistoryEntry, Player};
use nage::prompt::{Prompt, PromptModel};
use nage::resources::Resources;
use nage::runtime::{CommandError, CommandResult, GameLoopResult, RuntimeCommand};
use nage::scripts::Scripts;
use nage::table::StringMap;
use nage::templating::{TemplatableString, TemplatableValue, ValueSource};
use nage::variables::{
    VariableApplicationContents, VariableApplications, Variables,
};

fn ts(s: &str) -> TemplatableString {
    TemplatableString::new(s.to_owned())
}

fn manifest() -> Manifest {
    Manifest {
        metadata: Metadata {
            name: "Test Game".to_owned(),
            id: None,
            authors: vec!["Ann".to_owned()],
            version: "1.0.0".to_owned(),
            contact: None,
        },
        dependencies: Dependencies::default(),
        settings: Settings::default(),
        entry: Entrypoint {
            path: PathData { file: "main".to_owned(), prompt: "start".to_owned() },
            background: None,
            notes: None,
            variables: None,
            info_pages: None,
            log: None,
            sounds: None,
        },
    }
}

fn resources() -> Resources {
    Resources {
        prompts: StringMap::new(),
        translations: StringMap::new(),
        info_pages: StringMap::new(),
        scripts: Scripts::new(StringMap::new()),
        audio: None,
    }
}

fn choice() -> Choice {
    Choice {
        response: None,
        tag: None,
        input: None,
        jump: None,
        display: default_true(),
        lock: None,
        notes: None,
        variables: None,
        log: None,
        info_pages: None,
        sounds: None,
        ending: None,
        drp: None,
    }
}

fn text(s: &str, mode: TextMode) -> Text {
    Text {
        content: ts(s),
        mode: TemplatableValue::value(mode),
        speed: None,
        newline: None,
        wait: None,
        sounds: None,
    }
}

fn sound(name: Option<&str>, channel: &str, mode: SoundActionMode) -> SoundAction {
    SoundAction {
        name: name.map(ts),
        channel: ts(channel),
        mode: TemplatableValue::value(mode),
        seek: None,
        speed: None,
    }
}

fn vars(pairs: &[(&str, &str)]) -> Variables {
    let mut v = Variables::new();
    for (k, t) in pairs {
        v.insert((*k).to_owned(), (*t).to_owned());
    }
    v
}

#[test]
fn text_modes_format_text() {
    assert_eq!(TextMode::Dialogue.format("Hi"), "\"Hi\"");
    assert_eq!(TextMode::Action.format("Hi"), "Hi");
    let system = TextMode::System.format("Hi");
    assert!(system.ends_with(" Hi"));
    assert!(system.contains('▐'));
    assert_eq!(nage::display::SYSTEM_GLYPH, "▐");
    assert_eq!(TextMode::System.format_with("Hi", "#"), "# Hi");
    assert_eq!(TextMode::Dialogue.format_with("Hi", "#"), "\"Hi\"");
    assert_eq!(TextMode::Action.format_with("", "#"), "");
    assert_eq!(TextMode::default(), TextMode::Dialogue);
    assert_eq!(<TextMode as Templated>::parse_text("dialogue"), Some(TextMode::Dialogue));
    assert_eq!(<TextMode as Templated>::parse_text("action"), Some(TextMode::Action));
    assert_eq!(<TextMode as Templated>::parse_text("system"), Some(TextMode::System));
    assert_eq!(<TextMode as Templated>::parse_text("Dialogue"), None);
    assert_eq!(TextMode::System.duplicate(), TextMode::System);
}

#[test]
fn text_is_resolved_and_formatted() {
    let config = manifest();
    let res = resources();
    let stc = StaticContext::new(&config, &res);
    let ctx = TextContext::new(&stc, "en_us".to_owned(), Notes::new(), vars(&[("n", "Kim"), ("m", "action"), ("w", "250")]));
    assert_eq!(text("Hi <n>", TextMode::Dialogue).format(&ctx).unwrap(), "\"Hi Kim\"");
    let mut dynamic = text("Hi <n>", TextMode::Dialogue);
    dynamic.mode = TemplatableValue::template("<m>".to_owned());
    assert_eq!(dynamic.format(&ctx).unwrap(), "Hi Kim");
    assert!(dynamic.get(&ctx).unwrap().contains("Hi Kim"));
    dynamic.mode = TemplatableValue::template("<n>".to_owned());
    assert!(matches!(dynamic.format(&ctx), Err(ResolutionError::Parse { .. })));
    assert!(matches!(dynamic.get(&ctx), Err(ResolutionError::Parse { .. })));
    let mut waiting = text("x", TextMode::Action);
    assert_eq!(waiting.wait(&ctx).unwrap(), None);
    waiting.wait = Some(TemplatableValue::template("<w>".to_owned()));
    assert_eq!(waiting.wait(&ctx).unwrap(), Some(250));
    let mut config2 = manifest();
    config2.settings.text.wait = Some(40);
    let stc2 = StaticContext::new(&config2, &res);
    let ctx2 = TextContext::new(&stc2, "en_us".to_owned(), Notes::new(), Variables::new());
    assert_eq!(text("x", TextMode::Action).wait(&ctx2).unwrap(), Some(40));
}

#[test]
fn newlines_separate_modes() {
    let config = manifest();
    let res = resources();
    let stc = StaticContext::new(&config, &res);
    let ctx = TextContext::new(&stc, "en_us".to_owned(), Notes::new(), Variables::new());
    let mut forced = text("c", TextMode::Action);
    forced.newline = Some(TemplatableValue::value(false));
    let lines = vec![
        text("a", TextMode::Action),
        text("b", TextMode::Action),
        text("c", TextMode::Dialogue),
        forced,
        text("d", TextMode::System),
    ];
    let separated = Text::get_separated_lines(&lines, &ctx).unwrap();
    let flags: Vec<bool> = separated.iter().map(|(b, _)| *b).collect();
    assert_eq!(flags, vec![false, false, true, false, true]);
    assert_eq!(separated[2].1.content.content, "c");
    assert_eq!(lines[1].is_newline(Some(&lines[0]), &ctx).unwrap(), false);
    assert_eq!(lines[2].is_newline(Some(&lines[1]), &ctx).unwrap(), true);
    assert_eq!(lines[2].is_newline(None, &ctx).unwrap(), false);
}

#[test]
fn sound_actions_are_validated() {
    let audio = Audio { channels: vec!["music".to_owned(), "sfx".to_owned()], sounds: vec!["bell".to_owned()] };
    assert_eq!(sound(Some("bell"), "music", SoundActionMode::Queue).validate(&audio), Ok(()));
    assert_eq!(sound(Some("gong"), "music", SoundActionMode::Queue).validate(&audio), Err(SoundError::InvalidSound));
    assert_eq!(sound(Some("bell"), "drums", SoundActionMode::Queue).validate(&audio), Err(SoundError::InvalidChannel));
    assert_eq!(sound(None, "music", SoundActionMode::Overwrite).validate(&audio), Err(SoundError::MissingName));
    assert_eq!(sound(Some("bell"), "music", SoundActionMode::Pause).validate(&audio), Err(SoundError::UnusedName));
    assert_eq!(sound(None, "music", SoundActionMode::Skip).validate(&audio), Ok(()));
    assert_eq!(sound(Some("<any>"), "<some>", SoundActionMode::Passive).validate(&audio), Ok(()));
    let mut dynamic = sound(None, "music", SoundActionMode::Queue);
    dynamic.mode = TemplatableValue::template("<mode>".to_owned());
    assert_eq!(dynamic.validate(&audio), Ok(()));
    let list = vec![
        sound(Some("bell"), "music", SoundActionMode::Queue),
        sound(None, "sfx", SoundActionMode::Play),
        sound(Some("gong"), "sfx", SoundActionMode::Queue),
    ];
    assert_eq!(
        SoundAction::validate_all(&list, &audio),
        Err(SoundActionError { index: 3, cause: SoundError::InvalidSound })
    );
    assert_eq!(audio.get_player("sfx"), Ok(1));
    assert_eq!(audio.get_player("none"), Err(SoundError::InvalidChannel));
    assert_eq!(audio.get_sound("bell"), Ok(0));
    assert_eq!(audio.get_sound("none"), Err(SoundError::InvalidSound));
    let mut line = text("x", TextMode::Action);
    line.sounds = Some(list);
    assert_eq!(
        Text::validate_all(&vec![text("a", TextMode::Action), line], &audio),
        Err(PromptError::Text { line: 2, sound: 3, fault: SoundError::InvalidSound })
    );
    for mode in [SoundActionMode::Queue, SoundActionMode::Overwrite, SoundActionMode::Passive] {
        assert!(mode.is_specific());
    }
    for mode in [SoundActionMode::Skip, SoundActionMode::Pause, SoundActionMode::Play] {
        assert!(!mode.is_specific());
    }
    assert_eq!(SoundActionMode::default(), SoundActionMode::Passive);
    for (name, mode) in [
        ("queue", SoundActionMode::Queue),
        ("overwrite", SoundActionMode::Overwrite),
        ("passive", SoundActionMode::Passive),
        ("skip", SoundActionMode::Skip),
        ("pause", SoundActionMode::Pause),
        ("play", SoundActionMode::Play),
    ] {
        assert_eq!(<SoundActionMode as Templated>::parse_text(name), Some(mode));
        assert_eq!(mode.duplicate(), mode);
    }
    assert_eq!(<SoundActionMode as Templated>::parse_text("loud"), None);
}

#[test]
fn sound_actions_become_commands() {
    let config = manifest();
    let res = resources();
    let stc = StaticContext::new(&config, &res);
    let ctx = TextContext::new(&stc, "en_us".to_owned(), Notes::new(), vars(&[("c", "sfx"), ("at", "1500")]));
    let audio = Audio { channels: vec!["music".to_owned(), "sfx".to_owned()], sounds: vec!["bell".to_owned()] };
    let mut enabled = Notes::new();
    enabled.insert("sfx".to_owned());
    let mut action = sound(Some("bell"), "<c>", SoundActionMode::Queue);
    action.seek = Some(TemplatableValue::template("<at>".to_owned()));
    action.speed = Some(ts("1.5"));
    let command = audio.accept(&enabled, &action, &ctx).unwrap().unwrap();
    assert_eq!(command.channel, 1);
    assert_eq!(command.sound, Some(0));
    assert_eq!(command.seek, Some(1500));
    assert_eq!(command.mode, SoundActionMode::Queue);
    assert_eq!(command.speed, Some("1.5".to_owned()));
    assert!(audio.accept(&enabled, &sound(None, "music", SoundActionMode::Pause), &ctx).unwrap().is_none());
    assert!(matches!(
        audio.accept(&enabled, &sound(None, "drums", SoundActionMode::Pause), &ctx),
        Err(SoundFailure::Sound(SoundError::InvalidChannel))
    ));
    assert!(matches!(
        audio.accept(&enabled, &sound(Some("gong"), "sfx", SoundActionMode::Queue), &ctx),
        Err(SoundFailure::Sound(SoundError::InvalidSound))
    ));
    let mut broken = sound(None, "sfx", SoundActionMode::Pause);
    broken.seek = Some(TemplatableValue::template("<c>".to_owned()));
    assert!(matches!(
        audio.accept(&enabled, &broken, &ctx),
        Err(SoundFailure::Resolution(ResolutionError::Parse { .. }))
    ));
    assert_eq!(
        audio.channel_statuses(&enabled),
        vec![("music".to_owned(), false), ("sfx".to_owned(), true)]
    );
    let entry = EntrypointSoundAction {
        name: "bell".to_owned(),
        channel: "sfx".to_owned(),
        seek: Some(5),
        speed: None,
    };
    let action = entry.into();
    assert_eq!(action.name.as_ref().unwrap().content, "bell");
    assert_eq!(action.channel.content, "sfx");
    assert!(matches!(action.mode.source, ValueSource::Value(SoundActionMode::Passive)));
    assert!(matches!(action.seek.as_ref().unwrap().source, ValueSource::Value(5)));
    assert!(action.speed.is_none());
}

#[test]
fn input_lines_are_read_in_context() {
    let choices = InputContext::Choices(3);
    let variable = InputContext::Variable("name".to_owned(), Some("Your name".to_owned()));
    assert_eq!(choices.prompt(), "> ");
    assert_eq!(variable.prompt(), "Your name: ");
    assert_eq!(InputContext::Variable("name".to_owned(), None).prompt(), "> ");
    assert_eq!(InputContext::PROMPT, "> ");
    assert!(matches!(InputController::handle_line("2".to_owned(), &choices), Ok(InputResult::Choice(2))));
    assert!(matches!(InputController::handle_line("3".to_owned(), &choices), Ok(InputResult::Choice(3))));
    assert!(matches!(InputController::handle_line("".to_owned(), &choices), Err(InputError::Empty)));
    assert!(matches!(InputController::handle_line("".to_owned(), &variable), Err(InputError::Empty)));
    assert!(matches!(InputController::handle_line("two".to_owned(), &choices), Err(InputError::NotANumber)));
    assert!(matches!(InputController::handle_line("0".to_owned(), &choices), Err(InputError::OutOfRange)));
    assert!(matches!(InputController::handle_line("4".to_owned(), &choices), Err(InputError::OutOfRange)));
    match InputController::handle_line("Kim".to_owned(), &variable) {
        Ok(InputResult::Variable(VariableInputResult(name, value))) => {
            assert_eq!(name, "name");
            assert_eq!(value, "Kim");
        }
        other => panic!("unexpected: {:?}", other),
    }
    match InputController::handle_line(".lang en us".to_owned(), &choices) {
        Ok(InputResult::Command(words)) => {
            assert_eq!(words, vec!["lang".to_owned(), "en".to_owned(), "us".to_owned()]);
        }
        other => panic!("unexpected: {:?}", other),
    }
    assert_eq!(InputController::parse_command(".back"), vec!["back".to_owned()]);
    let result = VariableInputResult("gold".to_owned(), "7".to_owned());
    let (name, entry) = result.to_variable_entry(&vars(&[("gold", "3")]));
    assert_eq!(name, "gold");
    assert_eq!(entry.value, "7");
    assert_eq!(entry.previous, Some("3".to_owned()));
}

#[test]
fn input_controller_tracks_the_quit_signal() {
    let mut controller = InputController::new();
    let choices = InputContext::Choices(3);
    assert!(matches!(controller.take(None, &choices), Ok(InputResult::Quit(false))));
    assert!(controller.quit);
    assert!(matches!(controller.take(None, &choices), Ok(InputResult::Quit(true))));
    assert!(matches!(controller.take(Some("  2 \n".to_owned()), &choices), Ok(InputResult::Choice(2))));
    assert!(!controller.quit);
    assert!(matches!(controller.take(Some("   ".to_owned()), &choices), Err(InputError::Empty)));
    assert!(matches!(controller.take(None, &choices), Ok(InputResult::Quit(false))));
    assert_eq!(handle_quit(true), GameLoopResult::Shutdown(false));
    assert_eq!(handle_quit(false), GameLoopResult::Retry(true));
}

#[test]
fn runtime_commands() {
    for command in [
        RuntimeCommand::Back,
        RuntimeCommand::Lang,
        RuntimeCommand::Info,
        RuntimeCommand::Log,
        RuntimeCommand::Sound,
        RuntimeCommand::Save,
        RuntimeCommand::Quit,
    ] {
        assert!(command.is_normal());
        assert_eq!(command.check_allowed(false), Ok(()));
    }
    for command in [RuntimeCommand::Prompt, RuntimeCommand::Notes, RuntimeCommand::Variables] {
        assert!(!command.is_normal());
        assert_eq!(command.check_allowed(false), Err(CommandError::DebugOnly));
        assert_eq!(command.check_allowed(true), Ok(()));
    }
    assert!(matches!(CommandResult::retry(), CommandResult::Submit(GameLoopResult::Retry(true))));
    let config = manifest();
    let mut player = Player::new(&config);
    assert!(matches!(RuntimeCommand::back(&mut player), Err(CommandError::CannotGoBack)));
    assert!(matches!(RuntimeCommand::notes(&player), Err(CommandError::NoNotes)));
    assert!(matches!(RuntimeCommand::variables(&player), Err(CommandError::NoVariables)));
    player.notes.insert("brave".to_owned());
    player.notes.insert("kind".to_owned());
    player.variables.insert("gold".to_owned(), "7".to_owned());
    player.variables.insert("name".to_owned(), "Kim".to_owned());
    match RuntimeCommand::notes(&player) {
        Ok(CommandResult::Output(text)) => assert_eq!(text, "brave, kind"),
        other => panic!("unexpected: {:?}", other),
    }
    match RuntimeCommand::variables(&player) {
        Ok(CommandResult::Output(text)) => assert_eq!(text, "\ngold: 7\nname: Kim"),
        other => panic!("unexpected: {:?}", other),
    }
    player.push_entry(HistoryEntry::new(&PathData { file: "main".to_owned(), prompt: "next".to_owned() }), 5);
    assert!(matches!(
        RuntimeCommand::back(&mut player),
        Ok(CommandResult::Submit(GameLoopResult::Continue))
    ));
    assert_eq!(player.history.len(), 1);
}

#[test]
fn manifest_is_validated() {
    let mut config = manifest();
    assert_eq!(config.validate(), Ok(()));
    config.settings.history.size = 0;
    assert_eq!(config.validate(), Err(ManifestError::ZeroHistorySize));
    config.settings.history.size = 1;
    config.dependencies.nage = Some(">=0.1.0".to_owned());
    assert_eq!(config.validate(), Ok(()));
    config.dependencies.nage = Some("^0.1".to_owned());
    assert_eq!(config.validate(), Ok(()));
    config.dependencies.nage = Some(">=99.0.0".to_owned());
    assert_eq!(config.validate(), Err(ManifestError::UnmetDependency));
    config.dependencies.nage = Some("not a requirement".to_owned());
    assert_eq!(config.validate(), Err(ManifestError::InvalidRequirement));
    assert_eq!(config.dependencies.check("not a version"), Err(ManifestError::InvalidEngineVersion));
    assert_eq!(config.dependencies.check("1.0.0"), Err(ManifestError::InvalidRequirement));
    assert_eq!(Dependencies { nage: None }.check("not a version"), Ok(()));
    assert_eq!(Dependencies { nage: Some("<2".to_owned()) }.check("1.5.0"), Ok(()));
    assert_eq!(Dependencies { nage: Some("<2".to_owned()) }.check("2.5.0"), Err(ManifestError::UnmetDependency));
    assert_eq!(NAGE_VERSION, "0.1.0");
    assert_eq!(Manifest::FILE, "nage.yml");
    assert_eq!(RichPresenceSettings::APP_ID, "1086477002770489417");
}

#[test]
fn manifest_defaults_and_metadata() {
    let settings = Settings::default();
    assert!(settings.save);
    assert!(!settings.debug);
    assert_eq!(settings.history.size, 5);
    assert!(!settings.history.locked);
    assert_eq!(HistorySettings::default().size, 5);
    assert_eq!(TextSettings::default().lang(), "en_us");
    assert_eq!(TextSettings { lang: Some("de_de".to_owned()), ..TextSettings::default() }.lang(), "de_de");
    assert_eq!(TextSettings::DEFAULT_LANG, "en_us");
    assert!(RichPresenceSettings::default().enabled);
    assert_eq!(RichPresenceSettings::default().mode, RichPresenceMode::Id);
    let mut config = manifest();
    assert_eq!(config.metadata.game_id(), "Test Game");
    assert_eq!(config.metadata.game_contact(), None);
    assert_eq!(crash_context(&config), "The game has crashed; it's not your fault!");
    config.metadata.id = Some("test".to_owned());
    config.metadata.contact = Some(vec!["mail@example.org".to_owned(), "the forum".to_owned()]);
    assert_eq!(config.metadata.game_id(), "test");
    assert_eq!(
        config.metadata.game_contact(),
        Some("Contact the developers:\n- mail@example.org\n- the forum".to_owned())
    );
    assert_eq!(
        crash_context(&config),
        "The game has crashed; it's not your fault!\n\nContact the developers:\n- mail@example.org\n- the forum"
    );
    let mut channels = StringMap::new();
    channels.insert("music".to_owned(), true);
    channels.insert("sfx".to_owned(), false);
    channels.insert("voice".to_owned(), true);
    config.settings.channels = Some(channels);
    assert_eq!(config.settings.enabled_audio_channels().to_vec(), vec!["music".to_owned(), "voice".to_owned()]);
    assert!(Settings::default().enabled_audio_channels().is_empty());
}

#[test]
fn new_player_starts_at_the_entrypoint() {
    let mut config = manifest();
    let mut notes = Notes::new();
    notes.insert("fresh".to_owned());
    config.entry.notes = Some(notes);
    config.entry.variables = Some(vars(&[("gold", "3")]));
    config.entry.log = Some(vec!["You wake up.".to_owned()]);
    config.settings.text.lang = Some("de_de".to_owned());
    let player = Player::new(&config);
    assert!(!player.began);
    assert_eq!(player.lang, "de_de");
    assert_eq!(player.notes.to_vec(), vec!["fresh".to_owned()]);
    assert_eq!(player.variables.get("gold"), Some(&"3".to_owned()));
    assert_eq!(player.log, vec!["You wake up.".to_owned()]);
    assert!(player.info_pages.is_empty());
    assert_eq!(player.history.len(), 1);
    let entry = player.latest_entry().unwrap();
    assert_eq!(entry.path.to_string(), "main/start");
    assert!(entry.display);
    assert!(!entry.locked);
    assert!(!entry.redirect);
    assert!(!entry.log);
    assert!(entry.notes.is_none());
    assert!(entry.variables.is_none());
}

#[test]
fn rich_presence_state() {
    let config = manifest();
    let res = resources();
    let stc = StaticContext::new(&config, &res);
    let ctx = TextContext::new(&stc, "en_us".to_owned(), Notes::new(), Variables::new());
    let latest = HistoryEntry::new(&PathData { file: "main".to_owned(), prompt: "cave".to_owned() });
    let detail = ts("In the cave");
    assert_eq!(
        RichPresenceMode::Id.get_state(&latest, None, None, &ctx).unwrap(),
        Some("main/cave".to_owned())
    );
    let with = RichPresenceMode::Custom { fallback: true };
    let without = RichPresenceMode::Custom { fallback: false };
    assert_eq!(with.get_state(&latest, Some(&detail), Some("a line"), &ctx).unwrap(), Some("a line".to_owned()));
    assert_eq!(with.get_state(&latest, Some(&detail), None, &ctx).unwrap(), None);
    assert_eq!(with.get_state(&latest, None, Some("a line"), &ctx).unwrap(), None);
    assert_eq!(without.get_state(&latest, Some(&detail), Some("a line"), &ctx).unwrap(), None);
    let failing = ts("(missing)");
    assert!(matches!(
        with.get_state(&latest, Some(&failing), None, &ctx),
        Err(ResolutionError::UnknownScript { .. })
    ));
    assert_eq!(
        config.rich_presence_state(&latest, None, None, &ctx).unwrap(),
        Some("main/cave".to_owned())
    );
}

#[test]
fn log_is_paged() {
    let config = manifest();
    let mut player = Player::new(&config);
    assert!(player.log_pages().is_empty());
    for i in 0..12 {
        player.log.push(format!("Line number {} of the log, which is rather long", i));
    }
    let pages = player.log_pages();
    assert_eq!(pages.len(), 3);
    assert_eq!(pages[0].len(), 5);
    assert_eq!(pages[1].len(), 5);
    assert_eq!(pages[2].len(), 2);
    assert_eq!(pages[1][0], "Line number 5 of the log, which is rather long");
    let fronts = Player::log_page_fronts(&pages);
    assert_eq!(
        fronts,
        vec![
            "Line number 0 of the log,...".to_owned(),
            "Line number 5 of the log,...".to_owned(),
            "Line number 10 of the log...".to_owned(),
        ]
    );
    player.log.truncate(5);
    assert_eq!(player.log_pages().len(), 1);
    player.log = vec!["short".to_owned()];
    assert_eq!(Player::log_page_fronts(&player.log_pages()), vec!["short...".to_owned()]);
    player.log = vec!["\u{644}\u{627} is a ligature of two letters that counts as one column".to_owned()];
    assert_eq!(
        Player::log_page_fronts(&player.log_pages()),
        vec!["\u{644}\u{627} is a ligature of two l...".to_owned()]
    );
    player.log = vec!["\u{644}\u{627}".to_owned()];
    assert_eq!(Player::log_page_fronts(&player.log_pages()), vec!["\u{644}\u{627}...".to_owned()]);
}

#[test]
fn choices_are_displayed_by_number() {
    let config = manifest();
    let res = resources();
    let stc = StaticContext::new(&config, &res);
    let ctx = TextContext::new(&stc, "en_us".to_owned(), Notes::new(), vars(&[("class", "ROGUE")]));
    let mut first = choice();
    first.tag = Some(ts("<class>"));
    first.response = Some(text("Steal it", TextMode::Action));
    let silent = choice();
    let mut third = choice();
    third.response = Some(text("Leave", TextMode::Action));
    assert_eq!(first.tag(&ctx).unwrap(), "[ROGUE] ");
    assert_eq!(third.tag(&ctx).unwrap(), "");
    assert_eq!(Choice::response_line_of(12, "[A] ", "text"), "12) [A] text");
    let line = first.response_line(1, &ctx).unwrap();
    assert!(line.starts_with("1) [ROGUE] "));
    assert!(line.contains("Steal it"));
    let shown = Choice::display(&vec![&first, &silent, &third], &ctx).unwrap();
    let lines: Vec<&str> = shown.split('\n').collect();
    assert_eq!(lines.len(), 2);
    assert!(lines[0].starts_with("1) [ROGUE] "));
    assert!(lines[1].starts_with("3) "));
    assert!(lines[1].contains("Leave"));
}

#[test]
fn static_variable_applications() {
    let apps = VariableApplications {
        applications: vec![
            VariableApplicationContents { name: ts("a"), value: ts("<x>") },
            VariableApplicationContents { name: ts("b"), value: ts("2") },
            VariableApplicationContents { name: ts("a"), value: ts("3") },
        ],
    };
    let map = apps.into_static().unwrap();
    assert_eq!(map.len(), 2);
    assert_eq!(map.get("a").unwrap().content, "3");
    assert_eq!(map.get("b").unwrap().content, "2");
    let list = VariableApplicationContents::from_static(map);
    assert_eq!(list.len(), 2);
    assert_eq!((list[0].name.content.as_str(), list[0].value.content.as_str()), ("a", "3"));
    assert_eq!((list[1].name.content.as_str(), list[1].value.content.as_str()), ("b", "2"));
    let dynamic = VariableApplications {
        applications: vec![VariableApplicationContents { name: ts("<n>"), value: ts("1") }],
    };
    assert!(dynamic.into_static().is_none());
}

#[test]
fn debug_text_of_a_prompt() {
    let config = manifest();
    let mut go = choice();
    go.jump = Some(Path { contents: PathContents { file: None, prompt: ts("start") } });
    go.response = Some(text("Again", TextMode::Action));
    let mut leave = choice();
    leave.ending = Some(vec![text("Bye", TextMode::Action)]);
    leave.response = Some(text("Leave", TextMode::Action));
    let mut prompts: StringMap<StringMap<Prompt>> = StringMap::new();
    let mut file = StringMap::new();
    file.insert("start".to_owned(), Prompt { text: None, choices: vec![go, leave] });
    prompts.insert("main".to_owned(), file);
    let res = Resources {
        prompts,
        translations: StringMap::new(),
        info_pages: StringMap::new(),
        scripts: Scripts::new(StringMap::new()),
        audio: None,
    };
    let stc = StaticContext::new(&config, &res);
    let ctx = TextContext::new(&stc, "en_us".to_owned(), Notes::new(), Variables::new());
    let path = PathData { file: "main".to_owned(), prompt: "start".to_owned() };
    let prompt = Prompt::get(&res.prompts, &path).unwrap();
    assert_eq!(
        prompt.debug_info(&path, &res.prompts, &Notes::new(), &ctx).unwrap(),
        "\nID: main/start\nModel: Response; standard prompt-choice model\n\n2 choice(s)\n2 of them accessible\n\nPrompts that jump here:\n- main/start: #1"
    );
    let none: StringMap<Vec<usize>> = StringMap::new();
    assert_eq!(
        Prompt::debug_text(&path, &PromptModel::Response, 3, 1, &none),
        "\nID: main/start\nModel: Response; standard prompt-choice model\n\n3 choice(s)\n1 of them accessible"
    );
    let mut jumps: StringMap<Vec<usize>> = StringMap::new();
    jumps.insert("a/b".to_owned(), vec![0, 2]);
    jumps.insert("c/d".to_owned(), vec![4]);
    assert!(Prompt::debug_text(&path, &PromptModel::Response, 3, 1, &jumps)
        .ends_with("\n\nPrompts that jump here:\n- a/b: #1, #3\n- c/d: #5"));
}
