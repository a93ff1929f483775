use engine::actions::Action;
use engine::config::{Config, Platform, ShortcutConfig};
use engine::shortcuts::{extract_slots, CommandModeState, CommandSlot, ShortcutEngine};

fn engine_for(p: Platform) -> ShortcutEngine {
    ShortcutEngine::new(&Config::for_platform(p), p)
}

fn url_of(a: &Action) -> String {
    match a {
        Action::OpenUrl(u) => u.clone(),
        other => panic!("not a URL: {:?}", other),
    }
}

fn command_of(a: &Action) -> String {
    match a {
        Action::RunCommand(c) => c.clone(),
        other => panic!("not a command: {:?}", other),
    }
}

fn shortcut(trigger: &str, action_type: &str, command: Option<&str>) -> ShortcutConfig {
    ShortcutConfig {
        trigger: trigger.to_string(),
        name: format!("{} shortcut", trigger),
        action_type: action_type.to_string(),
        command: command.map(|c| c.to_string()),
        icon: None,
        key: None,
    }
}

fn state(action_type: &str, template: Option<&str>, slots: &[(&str, &str)], active: usize) -> CommandModeState {
    CommandModeState {
        trigger: "t".to_string(),
        shortcut_name: "T".to_string(),
        slots: slots
            .iter()
            .map(|(n, v)| CommandSlot { name: n.to_string(), value: v.to_string() })
            .collect(),
        active_slot: active,
        action_type: action_type.to_string(),
        template: template.map(|t| t.to_string()),
    }
}

#[test]
fn detect_fills_the_url_template_verbatim() {
    let e = engine_for(Platform::Linux);
    let d = e.detect("  youtube cute cats ").unwrap();
    assert_eq!(d.name, "YouTube");
    assert_eq!(d.trigger, "youtube");
    assert_eq!(url_of(&d.action), "https://youtube.com/results?search_query=cute cats");
    let g = e.detect("google rust").unwrap();
    assert_eq!(url_of(&g.action), "https://google.com/search?q=rust");
}

#[test]
fn detect_after_prompt_sign() {
    let e = engine_for(Platform::Linux);
    let d = e.detect(">youtube   dogs").unwrap();
    assert_eq!(url_of(&d.action), "https://youtube.com/results?search_query=dogs");
}

#[test]
fn detect_calculator_and_misses() {
    let e = engine_for(Platform::Linux);
    let d = e.detect("calc 1+2").unwrap();
    assert_eq!(command_of(&d.action), "echo 'Calculate: 1+2'");
    assert!(e.detect("   ").is_none());
    assert!(e.detect("").is_none());
    assert!(e.detect("nothing here").is_none());
    assert!(e.detect("you").is_none());
}

#[test]
fn parse_trigger_splits_at_first_space() {
    assert_eq!(
        ShortcutEngine::parse_trigger("> yt  x y "),
        ("yt".to_string(), "x y".to_string())
    );
    assert_eq!(
        ShortcutEngine::parse_trigger("  google  a b"),
        ("google".to_string(), "a b".to_string())
    );
    assert_eq!(ShortcutEngine::parse_trigger("calc"), ("calc".to_string(), String::new()));
    assert_eq!(ShortcutEngine::parse_trigger(">"), (String::new(), String::new()));
}

#[test]
fn create_action_for_each_kind() {
    let e = engine_for(Platform::Linux);
    let cmd = shortcut("ls", "command", Some("ls"));
    assert_eq!(command_of(&e.create_action(&cmd, "-la")), "ls -la");
    let tmpl = shortcut("say", "script", Some("echo {query}!"));
    assert_eq!(command_of(&e.create_action(&tmpl, "hi")), "echo hi!");
    let bare = shortcut("run", "command", None);
    assert_eq!(command_of(&e.create_action(&bare, "make")), "make");
    let q = shortcut("ddg", "web_search", Some("https://ddg.gg/?q={q}"));
    assert_eq!(url_of(&e.create_action(&q, "a b")), "https://ddg.gg/?q=a b");
    let fixed = shortcut("home", "open_url", Some("https://example.org"));
    assert_eq!(url_of(&e.create_action(&fixed, "ignored")), "https://example.org");
    let web = shortcut("w", "web_search", None);
    assert_eq!(url_of(&e.create_action(&web, "a b&c")), "https://google.com/search?q=a%20b%26c");
}

#[test]
fn unknown_action_type_does_nothing_in_the_shell() {
    let odd = shortcut("x", "teleport", None);
    match engine_for(Platform::Linux).create_action(&odd, "q") {
        Action::Custom(p, args) => {
            assert_eq!(p, "sh");
            assert_eq!(args, vec!["-c".to_string(), "echo Do Nothing".to_string()]);
        }
        other => panic!("{:?}", other),
    }
    match engine_for(Platform::Windows).create_action(&odd, "q") {
        Action::Custom(p, args) => {
            assert_eq!(p, "cmd");
            assert_eq!(args, vec!["/C".to_string(), "echo Do Nothing".to_string()]);
        }
        other => panic!("{:?}", other),
    }
}

#[test]
fn detect_key_runs_with_empty_query() {
    let e = engine_for(Platform::Linux);
    let (a, name) = e.detect_key("ctrl+y").unwrap();
    assert_eq!(name, "YouTube");
    assert_eq!(url_of(&a), "https://youtube.com/results?search_query=");
    let (g, gname) = e.detect_key("alt+q").unwrap();
    assert_eq!(gname, "Google Search");
    assert_eq!(url_of(&g), "https://google.com/search?q=");
    assert!(e.detect_key("ctrl+z").is_none());
}

#[test]
fn matching_and_all_shortcuts() {
    let e = engine_for(Platform::Linux);
    let m = e.matching_shortcuts("y");
    assert_eq!(m.len(), 1);
    assert_eq!(m[0].trigger, "youtube");
    assert_eq!(e.matching_shortcuts("").len(), 3);
    assert!(e.matching_shortcuts("zz").is_empty());
    let all: Vec<&str> = e.all_shortcuts().iter().map(|s| s.trigger.as_str()).collect();
    assert_eq!(all, vec!["youtube", "calc", "google"]);
}

#[test]
fn slots_are_distinct_named_placeholders() {
    let names: Vec<String> = extract_slots("go {a} then {b} and {a} {}").into_iter().map(|s| s.name).collect();
    assert_eq!(names, vec!["a".to_string(), "b".to_string()]);
    let fallback = extract_slots("no placeholders");
    assert_eq!(fallback.len(), 1);
    assert_eq!(fallback[0].name, "query");
    assert_eq!(fallback[0].value, "");
    let open = extract_slots("{unclosed");
    assert_eq!(open.len(), 1);
    assert_eq!(open[0].name, "query");
    assert_eq!(extract_slots("").len(), 1);
}

#[test]
fn command_mode_starts_on_first_slot() {
    let e = engine_for(Platform::Linux);
    let c = e.detect_command_mode("  > youtube cats and dogs").unwrap();
    assert_eq!(c.trigger, "youtube");
    assert_eq!(c.shortcut_name, "YouTube");
    assert_eq!(c.action_type, "open_url");
    assert_eq!(c.template.as_deref(), Some("https://youtube.com/results?search_query={query}"));
    assert_eq!(c.active_slot, 0);
    assert_eq!(c.slots.len(), 1);
    assert_eq!(c.slots[0].name, "query");
    assert_eq!(c.slots[0].value, "cats and dogs");
    assert_eq!(c.active_value(), "cats and dogs");
    let calc = e.detect_command_mode(">calc").unwrap();
    assert_eq!(calc.slots[0].value, "");
    assert!(e.detect_command_mode("youtube cats").is_none());
    assert!(e.detect_command_mode(">").is_none());
    assert!(e.detect_command_mode("> nope x").is_none());
}

#[test]
fn command_mode_actions() {
    let e = engine_for(Platform::Linux);
    let yt = e.detect_command_mode("> youtube a b").unwrap();
    assert_eq!(url_of(&yt.build_action(Platform::Linux)), "https://youtube.com/results?search_query=a%20b");
    let calc = e.detect_command_mode("> calc 2+2").unwrap();
    assert_eq!(command_of(&calc.build_action(Platform::Linux)), "echo 'Calculate: 2+2'");
    let web = state("web_search", None, &[("query", "x y")], 0);
    assert_eq!(url_of(&web.build_action(Platform::Linux)), "https://google.com/search?q=x%20y");
    let two = state("command", Some("cp {src} {dst} {src}"), &[("src", "a"), ("dst", "b")], 0);
    assert_eq!(command_of(&two.build_action(Platform::Linux)), "cp a b a");
    let bare = state("script", None, &[("query", "ls -l")], 0);
    assert_eq!(command_of(&bare.build_action(Platform::Linux)), "ls -l");
    let none = state("command", None, &[], 0);
    assert_eq!(command_of(&none.build_action(Platform::Linux)), "");
    match state("other", None, &[], 0).build_action(Platform::MacOS) {
        Action::Custom(p, _) => assert_eq!(p, "sh"),
        other => panic!("{:?}", other),
    }
}

#[test]
fn tab_moves_through_slots_and_stops_at_last() {
    let mut c = state("command", Some("{a} {b}"), &[("a", ""), ("b", "")], 0);
    assert!(c.tab_next());
    assert_eq!(c.active_slot, 1);
    assert!(!c.tab_next());
    assert_eq!(c.active_slot, 1);
    let mut one = state("command", None, &[("query", "")], 0);
    assert!(!one.tab_next());
    assert_eq!(one.active_slot, 0);
}

#[test]
fn set_then_read_active_value() {
    let mut c = state("command", Some("{a} {b}"), &[("a", ""), ("b", "")], 1);
    c.set_active_value("hello".to_string());
    assert_eq!(c.active_value(), "hello");
    assert_eq!(c.slots[0].value, "");
    assert_eq!(c.slots[1].value, "hello");
    let mut out = state("command", None, &[("a", "x")], 5);
    out.set_active_value("ignored".to_string());
    assert_eq!(out.slots[0].value, "x");
    assert_eq!(out.active_value(), "");
}

#[test]
fn slot_hint_marks_active_and_empty_slots() {
    let c = state("command", None, &[("a", "x"), ("b", ""), ("c", "z")], 0);
    assert_eq!(c.slot_hint(), "> a: \"x\" [b] c: \"z\"");
    let d = state("command", None, &[("a", ""), ("b", "")], 1);
    assert_eq!(d.slot_hint(), "[a] > b: \"\"");
    assert_eq!(state("command", None, &[], 0).slot_hint(), "");
}

#[test]
fn command_mode_query_also_names_the_shortcut() {
    let e = engine_for(Platform::Linux);
    let c = e.detect_command_mode("> youtube cats").unwrap();
    let d = e.detect("> youtube cats").unwrap();
    assert_eq!(d.trigger, c.trigger);
    assert_eq!(d.name, c.shortcut_name);
    assert_eq!(url_of(&d.action), "https://youtube.com/results?search_query=cats");
    // A tab before the first space splits the two apart.
    assert!(e.detect_command_mode(">youtube\t dogs").is_some());
    assert!(e.detect(">youtube\t dogs").is_none());
}
