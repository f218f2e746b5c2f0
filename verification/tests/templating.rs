use nage::context::{StaticContext, TextContext};
use nage::discord::RichPresenceMode;
use nage::error::ResolutionError;
use nage::manifest::{
    Dependencies, Entrypoint, HistorySettings, Manifest, Metadata, RichPresenceSettings, Settings,
    TextSettings,
};
use nage::notes::Notes;
use nage::parse::{number_text, Templated};
use nage::path::PathData;
use nage::resources::Resources;
use nage::scripts::Scripts;
use nage::spans::{span_names_of, splice_spans};
use nage::strings::{join, split, str_eq, strip_prefix, trim, white_space};
use nage::table::StringMap;
use nage::templating::{TemplatableString, TemplatableValue};
use nage::variables::Variables;

fn ts(s: &str) -> TemplatableString {
    TemplatableString::new(s.to_owned())
}

fn manifest() -> Manifest {
    Manifest {
        metadata: Metadata {
            name: "Test Game".to_owned(),
            id: None,
            authors: vec!["Ann".to_owned(), "Bob".to_owned()],
            version: "1.2.3".to_owned(),
            contact: None,
        },
        dependencies: Dependencies { nage: None },
        settings: Settings {
            save: true,
            debug: false,
            channels: None,
            history: HistorySettings { locked: false, size: 5 },
            text: TextSettings::default(),
            drp: RichPresenceSettings { enabled: false, icon: None, mode: RichPresenceMode::Id },
        },
        entry: Entrypoint {
            path: PathData { file: "main".to_owned(), prompt: "start".to_owned() },
            background: None,
            notes: None,
            variables: None,
            info_pages: None,
            log: None,
            sounds: None,
        },
    }
}

fn resources(scripts: &[(&str, &str)], translations: &[(&str, &str, &str)]) -> Resources {
    let mut files = StringMap::new();
    for (name, source) in scripts {
        files.insert((*name).to_owned(), (*source).to_owned());
    }
    let mut langs: StringMap<StringMap<String>> = StringMap::new();
    for (lang, key, text) in translations {
        let mut file = match langs.remove(lang) {
            Some(f) => f,
            None => StringMap::new(),
        };
        file.insert((*key).to_owned(), (*text).to_owned());
        langs.insert((*lang).to_owned(), file);
    }
    Resources {
        prompts: StringMap::new(),
        translations: langs,
        info_pages: StringMap::new(),
        scripts: Scripts::new(files),
        audio: None,
    }
}

fn variables(pairs: &[(&str, &str)]) -> Variables {
    let mut v = Variables::new();
    for (k, t) in pairs {
        v.insert((*k).to_owned(), (*t).to_owned());
    }
    v
}

fn notes(names: &[&str]) -> Notes {
    let mut n = Notes::new();
    for name in names {
        n.insert((*name).to_owned());
    }
    n
}

fn fill(raw: &str, config: &Manifest, res: &Resources, vars: &[(&str, &str)]) -> Result<String, ResolutionError> {
    let stc = StaticContext::new(config, res);
    let ctx = TextContext::new(&stc, "en_us".to_owned(), Notes::new(), variables(vars));
    ts(raw).fill(&ctx)
}

#[test]
fn plain_text_is_not_templatable() {
    assert!(!TemplatableString::is_str_templatable("plain text"));
    assert!(TemplatableString::is_str_templatable("hello <name>"));
    assert!(TemplatableString::is_str_templatable("roll (dice)"));
    assert!(!ts("plain").is_templatable());
    assert!(ts("plain").is_validatable());
    assert_eq!(ts("plain").content(), Some("plain"));
    assert_eq!(ts("<x>").content(), None);
}

#[test]
fn spans_are_replaced_in_order() {
    let fills = vec!["one".to_owned(), "two".to_owned()];
    assert_eq!(splice_spans("a <x> b <y> c", '<', '>', &fills), "a one b two c");
    assert_eq!(
        TemplatableString::template("a <x> b <y> c", '<', '>', &fills),
        "a one b two c"
    );
}

#[test]
fn span_names_are_listed_in_order() {
    assert_eq!(span_names_of("a <x> b <yy> c", '<', '>'), vec!["x".to_owned(), "yy".to_owned()]);
    assert_eq!(span_names_of("(a)(b:c)", '(', ')'), vec!["a".to_owned(), "b:c".to_owned()]);
    assert!(span_names_of("no spans here", '<', '>').is_empty());
    assert_eq!(TemplatableString::template_names("<>", '<', '>'), vec!["".to_owned()]);
}

#[test]
fn span_without_fill_is_undefined() {
    let fills: Vec<String> = Vec::new();
    assert_eq!(splice_spans("<x>", '<', '>', &fills), "UNDEFINED");
    assert_eq!(TemplatableString::DEFAULT_VALUE, "UNDEFINED");
}

#[test]
fn unmatched_opener_is_plain_text() {
    let fills = vec!["v".to_owned()];
    assert_eq!(splice_spans("a <b", '<', '>', &fills), "a <b");
    assert_eq!(splice_spans("a <b <c> d", '<', '>', &fills), "a <b v d");
    assert_eq!(splice_spans("<", '<', '>', &fills), "<");
}

#[test]
fn stray_closer_is_plain_text() {
    let fills = vec!["v".to_owned()];
    assert_eq!(splice_spans("a > b", '<', '>', &fills), "a > b");
    assert_eq!(splice_spans("<x>> y", '<', '>', &fills), "v> y");
}

#[test]
fn resolve_undefined_variable() {
    let config = manifest();
    let res = resources(&[], &[]);
    assert_eq!(fill("<undefined_var>", &config, &res, &[]).unwrap(), "UNDEFINED");
}

#[test]
fn resolve_plain_text_unchanged() {
    let config = manifest();
    let res = resources(&[], &[]);
    assert_eq!(fill("plain text", &config, &res, &[]).unwrap(), "plain text");
}

#[test]
fn resolve_language_global() {
    let config = manifest();
    let res = resources(&[], &[]);
    assert_eq!(fill("<nage:lang>", &config, &res, &[]).unwrap(), "en_us");
}

#[test]
fn resolve_globals_ignore_case_and_win_over_variables() {
    let config = manifest();
    let res = resources(&[], &[]);
    assert_eq!(fill("<NAGE:Game_Name>", &config, &res, &[]).unwrap(), "Test Game");
    assert_eq!(fill("<nage:game_authors>", &config, &res, &[]).unwrap(), "Ann, Bob");
    assert_eq!(fill("<nage:game_version>", &config, &res, &[]).unwrap(), "1.2.3");
    assert_eq!(
        fill("<nage:lang>", &config, &res, &[("nage:lang", "shadowed")]).unwrap(),
        "en_us"
    );
    assert_eq!(fill("<nage:other>", &config, &res, &[]).unwrap(), "UNDEFINED");
    assert_eq!(fill("<nage:other>", &config, &res, &[("nage:other", "x")]).unwrap(), "x");
}

#[test]
fn reserved_names_by_their_lower_case_form() {
    let config = manifest();
    let res = resources(&[], &[]);
    let stc = StaticContext::new(&config, &res);
    let ctx = TextContext::new(&stc, "de_de".to_owned(), Notes::new(), variables(&[("x", "1")]));
    assert_eq!(ctx.global_of("nage:lang"), Some("de_de".to_owned()));
    assert_eq!(ctx.global_of("nage:game_name"), Some("Test Game".to_owned()));
    assert_eq!(ctx.global_of("nage:game_authors"), Some("Ann, Bob".to_owned()));
    assert_eq!(ctx.global_of("nage:game_version"), Some("1.2.3".to_owned()));
    assert_eq!(ctx.global_of("nage:LANG"), None);
    assert_eq!(ctx.global_of("lang"), None);
    assert_eq!(ctx.global_of("undefined_var"), None);
    assert_eq!(ctx.variable_or_undefined(None, "undefined_var"), "UNDEFINED");
    assert_eq!(ctx.variable_or_undefined(None, "x"), "1");
    assert_eq!(ctx.variable_or_undefined(Some("g".to_owned()), "x"), "g");
}

#[test]
fn resolve_player_variable() {
    let config = manifest();
    let res = resources(&[], &[]);
    assert_eq!(
        fill("Hello, <name>! You have <gold> gold.", &config, &res, &[("name", "Kim"), ("gold", "10")])
            .unwrap(),
        "Hello, Kim! You have 10 gold."
    );
}

#[test]
fn translation_happens_before_spans() {
    let config = manifest();
    let res = resources(&[], &[("en_us", "greeting.key", "Hi <name>")]);
    assert_eq!(fill("greeting.key", &config, &res, &[("name", "Kim")]).unwrap(), "Hi Kim");
    assert_eq!(fill("other.key", &config, &res, &[("name", "Kim")]).unwrap(), "other.key");
    let other = resources(&[], &[("de_de", "greeting.key", "Hallo")]);
    assert_eq!(fill("greeting.key", &config, &other, &[]).unwrap(), "greeting.key");
}

#[test]
fn script_call_is_replaced_by_its_output() {
    let config = manifest();
    let res = resources(&[("greet", "return 'hello'")], &[]);
    assert_eq!(fill("(greet), world", &config, &res, &[]).unwrap(), "hello, world");
}

#[test]
fn script_output_is_interpolated_afterwards() {
    let config = manifest();
    let res = resources(&[("pick", "return '<name>'")], &[]);
    assert_eq!(fill("(pick)", &config, &res, &[("name", "Kim")]).unwrap(), "Kim");
}

#[test]
fn script_function_suffix_selects_a_function() {
    let config = manifest();
    let res = resources(
        &[("sheet", "return { roll = function() return 'six' end, name = function() return 'Kim' end }")],
        &[],
    );
    assert_eq!(fill("(sheet:roll) (sheet:name)", &config, &res, &[]).unwrap(), "six Kim");
    assert_eq!(
        Scripts::file_components("sheet:roll"),
        ("sheet".to_owned(), Some("roll".to_owned()))
    );
    assert_eq!(Scripts::file_components("sheet"), ("sheet".to_owned(), None));
    assert_eq!(Scripts::file_components("a:b:c"), ("a".to_owned(), Some("b:c".to_owned())));
}

#[test]
fn script_sees_snapshots_of_state() {
    let config = manifest();
    let res = resources(
        &[
            ("vars", "return variables.gold"),
            ("notes", "return notes[1]"),
            ("meta", "return nage.game_name .. '/' .. nage.lang .. '/' .. nage.game_version .. '/' .. nage.game_authors[2]"),
        ],
        &[],
    );
    let stc = StaticContext::new(&config, &res);
    let ctx = TextContext::new(&stc, "en_us".to_owned(), notes(&["brave"]), variables(&[("gold", "12")]));
    assert_eq!(ts("(vars)").fill(&ctx).unwrap(), "12");
    assert_eq!(ts("(notes)").fill(&ctx).unwrap(), "brave");
    assert_eq!(ts("(meta)").fill(&ctx).unwrap(), "Test Game/en_us/1.2.3/Bob");
}

#[test]
fn script_sees_the_sound_channels() {
    let config = manifest();
    let mut res = resources(
        &[("status", "local m = audio.music; return tostring(m.is_playing) .. '/' .. tostring(m.has_sound) .. '/' .. tostring(m.has_sound_queued) .. '/' .. m.position .. '/' .. m.sound_duration .. '/' .. tostring(audio.sfx.position)")],
        &[],
    );
    res.audio = Some(nage::audio::Audio { channels: vec!["music".to_owned(), "sfx".to_owned()], sounds: vec![] });
    let stc = StaticContext::new(&config, &res);
    let ctx = TextContext::new(&stc, "en_us".to_owned(), Notes::new(), Variables::new()).with_channels(vec![
        nage::audio::ChannelStatus {
            name: "music".to_owned(),
            is_playing: true,
            has_sound: true,
            has_sound_queued: false,
            position: Some((1500, 90000)),
        },
        nage::audio::ChannelStatus {
            name: "sfx".to_owned(),
            is_playing: false,
            has_sound: false,
            has_sound_queued: false,
            position: None,
        },
    ]);
    assert_eq!(ts("(status)").fill(&ctx).unwrap(), "true/true/false/1500/90000/nil");
}

#[test]
fn script_can_draw_random_numbers() {
    let config = manifest();
    let res = resources(&[("roll", "return tostring(math.random(1, 6))")], &[]);
    for _ in 0..5 {
        let rolled: u32 = fill("(roll)", &config, &res, &[]).unwrap().parse().unwrap();
        assert!((1..=6).contains(&rolled));
    }
}

#[test]
fn unknown_script_is_an_error() {
    let config = manifest();
    let res = resources(&[], &[]);
    match fill("Hello (world)", &config, &res, &[]) {
        Err(ResolutionError::UnknownScript { name }) => assert_eq!(name, "world"),
        other => panic!("unexpected: {:?}", other),
    }
}

#[test]
fn failing_script_is_an_error() {
    let config = manifest();
    let res = resources(&[("bad", "error('boom')")], &[]);
    match fill("(bad)", &config, &res, &[]) {
        Err(ResolutionError::ScriptFailed { name, message }) => {
            assert_eq!(name, "bad");
            assert!(!message.is_empty());
        }
        other => panic!("unexpected: {:?}", other),
    }
}

#[test]
fn fill_with_takes_script_outputs() {
    let config = manifest();
    let res = resources(&[], &[]);
    let stc = StaticContext::new(&config, &res);
    let ctx = TextContext::new(&stc, "en_us".to_owned(), Notes::new(), variables(&[("n", "Kim")]));
    let s = ts("(a) and (b) for <n>");
    assert_eq!(s.script_calls(&ctx), vec!["a".to_owned(), "b".to_owned()]);
    let outputs = vec!["x".to_owned(), "y".to_owned()];
    assert_eq!(s.fill_with(&outputs, &ctx), "x and y for Kim");
    assert_eq!(TemplatableString::interpolate("<n>!", &ctx), "Kim!");
}

#[test]
fn templatable_value_is_value_or_template() {
    let config = manifest();
    let res = resources(&[], &[]);
    let stc = StaticContext::new(&config, &res);
    let ctx = TextContext::new(
        &stc,
        "en_us".to_owned(),
        Notes::new(),
        variables(&[("flag", "true"), ("count", "42"), ("word", "maybe")]),
    );
    assert_eq!(TemplatableValue::value(true).get_value(&ctx).unwrap(), true);
    assert_eq!(TemplatableValue::<bool>::template("<flag>".to_owned()).get_value(&ctx).unwrap(), true);
    assert_eq!(TemplatableValue::<u64>::template("<count>".to_owned()).get_value(&ctx).unwrap(), 42);
    assert_eq!(TemplatableValue::<usize>::template("<count>0".to_owned()).get_value(&ctx).unwrap(), 420);
    assert_eq!(TemplatableValue::value(7u64).static_value(), Some(&7u64));
    assert_eq!(TemplatableValue::<u64>::template("<count>".to_owned()).static_value(), None);
    match TemplatableValue::<bool>::template("<word>".to_owned()).get_value(&ctx) {
        Err(ResolutionError::Parse { template, resolved }) => {
            assert_eq!(template, "<word>");
            assert_eq!(resolved, "maybe");
        }
        other => panic!("unexpected: {:?}", other),
    }
}

#[test]
fn values_are_parsed_like_the_standard_library_does() {
    for text in ["0", "7", "+7", "007", "18446744073709551615", "18446744073709551616", "", "+", "-1", " 1", "1 ", "1a"] {
        assert_eq!(<u64 as Templated>::parse_text(text), text.parse::<u64>().ok(), "{:?}", text);
        assert_eq!(<usize as Templated>::parse_text(text), text.parse::<usize>().ok(), "{:?}", text);
    }
    for text in ["true", "false", "True", "", "1", " true"] {
        assert_eq!(<bool as Templated>::parse_text(text), text.parse::<bool>().ok(), "{:?}", text);
    }
    assert_eq!(<u64 as Templated>::parse_text("42"), Some(42));
    assert_eq!(true.duplicate(), true);
    assert_eq!(5u64.duplicate(), 5);
    assert_eq!(5usize.duplicate(), 5);
}

#[test]
fn numbers_are_written_in_decimal() {
    for n in [0usize, 1, 9, 10, 11, 99, 100, 12345, usize::MAX] {
        assert_eq!(number_text(n), n.to_string());
    }
}

#[test]
fn string_helpers() {
    assert_eq!(join(&vec!["a".to_owned(), "b".to_owned(), "c".to_owned()], ", "), "a, b, c");
    assert_eq!(join(&vec!["a".to_owned()], ", "), "a");
    assert_eq!(join(&Vec::new(), ", "), "");
    assert_eq!(strip_prefix("nage:lang", "nage:"), Some("lang".to_owned()));
    assert_eq!(strip_prefix("nage", "nage:"), None);
    assert_eq!(strip_prefix("xnage:lang", "nage:"), None);
    assert_eq!(split("a b  c", ' '), vec!["a".to_owned(), "b".to_owned(), "".to_owned(), "c".to_owned()]);
    assert_eq!(split("", ' '), vec!["".to_owned()]);
    assert_eq!(split("a ", ' '), vec!["a".to_owned(), "".to_owned()]);
}

#[test]
fn white_space_is_what_the_standard_library_takes_for_it() {
    for code in 0u32..=0x10FFFF {
        if let Some(c) = char::from_u32(code) {
            assert_eq!(white_space(c), c.is_whitespace(), "{:x}", code);
        }
    }
    for text in ["", " ", "  a b  ", "\t\na\r\n", "a", "\u{3000}x\u{a0}", " \u{2003} ", "x  ", "  x"] {
        assert_eq!(trim(text), text.trim(), "{:?}", text);
    }
}

#[test]
fn strings_are_compared_by_their_characters() {
    assert!(str_eq("", ""));
    assert!(str_eq("abc", "abc"));
    assert!(!str_eq("abc", "abd"));
    assert!(!str_eq("abc", "ab"));
    assert!(!str_eq("ab", "abc"));
    assert!(str_eq("\u{644}\u{627}", "\u{644}\u{627}"));
}

#[test]
fn string_map_keeps_one_value_per_key() {
    let mut m: StringMap<u32> = StringMap::new();
    assert!(m.is_empty());
    assert_eq!(m.insert("a".to_owned(), 1), None);
    assert_eq!(m.insert("b".to_owned(), 2), None);
    assert_eq!(m.insert("a".to_owned(), 3), Some(1));
    assert_eq!(m.len(), 2);
    assert_eq!(m.get("a"), Some(&3));
    assert_eq!(m.get("c"), None);
    assert!(m.contains_key("b"));
    assert_eq!(m.position("b"), Some(1));
    assert_eq!(m.key_at(0), "a");
    assert_eq!(*m.value_at(1), 2);
    assert_eq!(m.remove("a"), Some(3));
    assert_eq!(m.remove("a"), None);
    assert_eq!(m.into_entries(), vec![("b".to_owned(), 2)]);
}

#[test]
fn notes_are_a_set() {
    let mut n = Notes::new();
    assert!(n.is_empty());
    assert!(n.insert("a".to_owned()));
    assert!(!n.insert("a".to_owned()));
    assert!(n.insert("b".to_owned()));
    assert_eq!(n.len(), 2);
    assert!(n.contains("a"));
    assert!(n.remove("a"));
    assert!(!n.remove("a"));
    assert!(!n.contains("a"));
    assert_eq!(n.to_vec(), vec!["b".to_owned()]);
    let copy = n.snapshot();
    assert_eq!(copy.to_vec(), vec!["b".to_owned()]);
}
