use engine::actions::{create_special_item, Action, ActionHandler, CalculatorEngine};
use engine::models::{FilterMode, ItemType, LauncherItem};

#[test]
fn filter_mode_cycles() {
    let m = FilterMode::All;
    assert_eq!(m.next(), FilterMode::Applications);
    assert_eq!(m.next().next().next().next(), FilterMode::All);
    assert_eq!(FilterMode::Files.label(), "Files");
}

#[test]
fn math_detection() {
    assert!(CalculatorEngine::looks_like_math("2+2"));
    assert!(!CalculatorEngine::looks_like_math("2"));
    assert!(!CalculatorEngine::looks_like_math("hello"));
    assert_eq!(CalculatorEngine::normalise(" 2x3 ").unwrap(), "2*3");
}

#[test]
fn special_url_item() {
    let item = create_special_item("https://example.com", None).unwrap();
    assert_eq!(item.id, "web:example.com");
    assert_eq!(item.title, "Open example.com");
    assert_eq!(item.item_type, ItemType::Url);
}

#[test]
fn application_without_path_searches_web() {
    let item = LauncherItem {
        title: "a b".to_string(),
        item_type: ItemType::Application,
        ..Default::default()
    };
    match ActionHandler::determine_action(&item) {
        Action::OpenUrl(u) => assert_eq!(u, "https://www.google.com/search?q=a%20b"),
        other => panic!("{:?}", other),
    }
}
