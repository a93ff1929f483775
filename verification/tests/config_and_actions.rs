use engine::actions::{create_special_item, Action, ActionHandler, CalculatorEngine};
use engine::config::{Config, HotkeyConfig, IndexConfig, Platform, ShortcutConfig};
use engine::hotkey::{key_from_name, modifier_from_name, HotkeyKey, HotkeyModifier};
use engine::models::{ItemType, LauncherItem};

#[test]
fn platform_from_system_name() {
    assert_eq!(Platform::current("macos"), Platform::MacOS);
    assert_eq!(Platform::current("windows"), Platform::Windows);
    assert_eq!(Platform::current("linux"), Platform::Linux);
    assert_eq!(Platform::current("freebsd"), Platform::Linux);
}

#[test]
fn default_configuration() {
    let c = Config::for_platform(Platform::Linux);
    assert_eq!(c.max_results, 50);
    assert_eq!(c.hotkey.modifiers, "Control");
    assert_eq!(c.hotkey.key, "Space");
    assert_eq!(c.index.applications_paths[0], "/usr/share/applications");
    assert_eq!(c.index.file_paths[4], "~/Videos");
    assert_eq!(c.index.ignored_patterns.len(), 9);
    assert!(c.index.index_applications && c.index.index_files && !c.index.index_folders);
    let m = Config::for_platform(Platform::MacOS);
    assert_eq!(m.hotkey.modifiers, "Meta");
    assert_eq!(m.index.file_paths[4], "~/Movies");
    assert_eq!(m.index.applications_paths.len(), 4);
    let w = IndexConfig::for_platform(Platform::Windows);
    assert!(w.applications_paths.is_empty() && w.file_paths.is_empty());
    let g = ShortcutConfig::default();
    assert_eq!(g.trigger, "google");
    assert_eq!(g.command.as_deref(), Some("https://google.com/search?q={query}"));
    assert_eq!(g.key.as_deref(), Some("alt+q"));
}

#[test]
fn hotkey_names_are_case_blind() {
    let hk = HotkeyConfig { modifiers: "CTRL".to_string(), key: "Slash".to_string() };
    assert_eq!(hk.binding(), (HotkeyModifier::Control, HotkeyKey::Slash));
    let alt = HotkeyConfig { modifiers: "ALT".to_string(), key: "ENTER".to_string() };
    assert_eq!(alt.binding(), (HotkeyModifier::Alt, HotkeyKey::Enter));
    let mac = HotkeyConfig::for_platform(Platform::MacOS);
    assert_eq!(mac.binding(), (HotkeyModifier::Meta, HotkeyKey::Space));
    let odd = HotkeyConfig { modifiers: "Hyper".to_string(), key: "F13".to_string() };
    assert_eq!(odd.binding(), (HotkeyModifier::Control, HotkeyKey::Space));
    assert_eq!(modifier_from_name("super"), HotkeyModifier::Meta);
    assert_eq!(modifier_from_name("alt"), HotkeyModifier::Alt);
    assert_eq!(modifier_from_name("shift"), HotkeyModifier::Shift);
    assert_eq!(key_from_name("/"), HotkeyKey::Slash);
    assert_eq!(key_from_name("j"), HotkeyKey::J);
    assert_eq!(key_from_name("K"), HotkeyKey::Space);
}

fn typed(item_type: ItemType, path: Option<&str>) -> LauncherItem {
    LauncherItem {
        title: "The Title".to_string(),
        path: path.map(|p| p.to_string()),
        item_type,
        ..Default::default()
    }
}

#[test]
fn actions_by_kind() {
    let show = |a: Action| format!("{:?}", a);
    assert_eq!(show(ActionHandler::determine_action(&typed(ItemType::Application, Some("/bin/x")))), "LaunchApp(\"/bin/x\")");
    assert_eq!(show(ActionHandler::determine_action(&typed(ItemType::Folder, Some("/d")))), "OpenFile(\"/d\")");
    assert_eq!(
        show(ActionHandler::determine_action(&typed(ItemType::File, None))),
        "RunCommand(\"echo No Path Available\")"
    );
    assert_eq!(show(ActionHandler::determine_action(&typed(ItemType::Script, Some("./s.sh")))), "RunCommand(\"./s.sh\")");
    assert_eq!(show(ActionHandler::determine_action(&typed(ItemType::Command, None))), "RunCommand(\"The Title\")");
    assert_eq!(show(ActionHandler::determine_action(&typed(ItemType::Url, Some("https://a.b")))), "OpenUrl(\"https://a.b\")");
    assert_eq!(show(ActionHandler::determine_action(&typed(ItemType::Url, None))), "RunCommand(\"The Title\")");
    assert_eq!(
        show(ActionHandler::determine_action(&typed(ItemType::Application, None))),
        "OpenUrl(\"https://www.google.com/search?q=The%20Title\")"
    );
    assert_eq!(show(ActionHandler::copy_action_for(&typed(ItemType::File, Some("/p")))), "CopyToClipboard(\"/p\")");
    assert_eq!(show(ActionHandler::copy_action_for(&typed(ItemType::File, None))), "CopyToClipboard(\"The Title\")");
}

#[test]
fn launch_parts_drop_field_codes() {
    let (prog, args) = ActionHandler::launch_parts("  firefox %u --new-window  %F ").unwrap();
    assert_eq!(prog, "firefox");
    assert_eq!(args, vec!["--new-window".to_string()]);
    let (p2, a2) = ActionHandler::launch_parts("code %%x").unwrap();
    assert_eq!(p2, "code");
    assert_eq!(a2, vec!["%%x".to_string()]);
    assert!(ActionHandler::launch_parts("   ").is_none());
    assert!(ActionHandler::launch_parts("%U %f").is_none());
}

#[test]
fn math_detection_edges() {
    assert!(CalculatorEngine::looks_like_math("sqrt 9"));
    assert!(CalculatorEngine::looks_like_math(" 3x4 "));
    assert!(CalculatorEngine::looks_like_math("2 pi"));
    assert!(!CalculatorEngine::looks_like_math("12"));
    assert!(!CalculatorEngine::looks_like_math("a+b"));
    assert!(!CalculatorEngine::looks_like_math(" 1 "));
    assert!(CalculatorEngine::looks_like_math("10÷2"));
}

#[test]
fn normalising_expressions() {
    assert_eq!(CalculatorEngine::normalise("2^3").unwrap(), "2**3");
    assert_eq!(CalculatorEngine::normalise("10÷4").unwrap(), "10/4");
    assert_eq!(CalculatorEngine::normalise("2 * pi").unwrap(), "2 * 3.141592653589793");
    assert_eq!(CalculatorEngine::normalise("tau").unwrap(), "6.283185307179586");
    assert!(CalculatorEngine::normalise("   ").is_none());
}

#[test]
fn special_items() {
    let calc = create_special_item("1+1", Some("2".to_string())).unwrap();
    assert_eq!(calc.id, "calc:1+1");
    assert_eq!(calc.title, "= 2");
    assert_eq!(calc.subtitle.as_deref(), Some("1+1 -> 2"));
    assert_eq!(calc.path.as_deref(), Some("2"));
    assert_eq!(calc.tags, vec!["calc".to_string(), "calculator".to_string()]);
    let pending = create_special_item("1+", None).unwrap();
    assert_eq!(pending.title, "...");
    assert_eq!(pending.subtitle.as_deref(), Some("Calculating: 1+"));
    assert!(pending.path.is_none());
    let site = create_special_item("docs.rs/serde.org", None).unwrap();
    assert_eq!(site.id, "web:docs.rs/serde.org");
    let deep = create_special_item("http://a//b", None).unwrap();
    assert_eq!(deep.title, "Open b");
    assert!(create_special_item("hello", None).is_none());
}
