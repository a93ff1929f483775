use engine::actions::Action;
use engine::config::{Config, Platform};
use engine::index::IndexBuilder;
use engine::launcher::{Effect, InputMode, Launcher, Message};
use engine::screen::{icon_of, message_for_key, Icon, Key, Row};

fn launcher() -> Launcher {
    let config = Config::for_platform(Platform::Linux);
    Launcher::new(IndexBuilder::demo_items(), &config, Platform::Linux)
}

/// Sends `msg`, and recomputes the list when asked to, with the answer
/// `evaluation` for a sum.
fn send(l: &mut Launcher, msg: Message, evaluation: Option<&str>) -> Effect {
    let out = l.update(msg);
    if out.refresh {
        let ev = match l.calculation_request() {
            Some(_) => evaluation.map(|e| e.to_string()),
            None => None,
        };
        l.update_results(ev);
    }
    out.effect
}

#[test]
fn starts_hidden_listing_everything() {
    let l = launcher();
    assert!(!l.is_visible);
    assert_eq!(l.query, "");
    assert_eq!(l.selected, 0);
    assert_eq!(l.mode, InputMode::Normal);
    let ids: Vec<&str> = l.results.iter().map(|s| s.item_id()).collect();
    assert_eq!(ids, vec!["1", "2", "3"]);
    assert!(l.results.iter().all(|s| s.score == 0));
}

#[test]
fn selection_moves_and_stays_in_range() {
    let mut l = launcher();
    assert!(matches!(send(&mut l, Message::SelectUp, None), Effect::Scroll));
    assert_eq!(l.selected, 0);
    send(&mut l, Message::SelectDown, None);
    send(&mut l, Message::SelectDown, None);
    assert_eq!(l.selected, 2);
    send(&mut l, Message::SelectDown, None);
    assert_eq!(l.selected, 2);
    send(&mut l, Message::SelectUp, None);
    assert_eq!(l.selected, 1);
    send(&mut l, Message::ClickSelect(7), None);
    assert_eq!(l.selected, 2);
    send(&mut l, Message::ClickSelect(0), None);
    assert_eq!(l.selected, 0);
}

#[test]
fn typed_shortcut_is_pending_and_runs_on_enter() {
    let mut l = launcher();
    send(&mut l, Message::QueryChanged("youtube cats".to_string()), None);
    assert_eq!(l.results.len(), 1);
    assert_eq!(l.results[0].item.id, "shortcut:youtube");
    assert_eq!(l.results[0].item.title, "> YouTube - youtube");
    assert_eq!(l.results[0].score, 100);
    match send(&mut l, Message::Execute, None) {
        Effect::PerformAndHide(Some(Action::OpenUrl(u))) => {
            assert_eq!(u, "https://youtube.com/results?search_query=cats")
        }
        other => panic!("{:?}", other),
    }
}

#[test]
fn sums_show_the_answer_first() {
    let mut l = launcher();
    send(&mut l, Message::QueryChanged(" 2+3 ".to_string()), Some("5"));
    assert_eq!(l.calc_result.as_deref(), Some("5"));
    assert_eq!(l.results[0].item.id, "calc:2+3");
    assert_eq!(l.results[0].item.title, "= 5");
    assert_eq!(l.results[0].item.subtitle.as_deref(), Some("2+3 -> 5"));
    assert_eq!(l.results[0].score, 100);
    match send(&mut l, Message::Execute, None) {
        Effect::PerformAndHide(Some(Action::CopyToClipboard(t))) => assert_eq!(t, "5"),
        other => panic!("{:?}", other),
    }
}

#[test]
fn prompt_sign_lists_matching_shortcuts() {
    let mut l = launcher();
    send(&mut l, Message::QueryChanged(">go".to_string()), None);
    assert_eq!(l.results.len(), 1);
    assert_eq!(l.results[0].item.id, "shortcut:google");
    assert_eq!(l.results[0].item.title, "> Google Search (google)");
    assert_eq!(l.results[0].item.subtitle.as_deref(), Some("Tab to fill slots · action: open_url"));
    assert_eq!(l.results[0].score, 90);
}

#[test]
fn tab_on_a_shortcut_enters_command_mode() {
    let mut l = launcher();
    send(&mut l, Message::QueryChanged(">yo".to_string()), None);
    send(&mut l, Message::Tab, None);
    assert_eq!(l.mode, InputMode::Command);
    assert_eq!(l.query, "");
    assert_eq!(l.results.len(), 1);
    assert_eq!(l.results[0].item.id, "cmd:youtube");
    assert_eq!(l.results[0].item.title, "⌘ YouTube - youtube");
    assert_eq!(l.results[0].item.subtitle.as_deref(), Some("Enter to run | > query: \"\""));
    send(&mut l, Message::QueryChanged("lofi beats".to_string()), None);
    assert_eq!(l.command_state.as_ref().unwrap().active_value(), "lofi beats");
    match send(&mut l, Message::Execute, None) {
        Effect::PerformAndHide(Some(Action::OpenUrl(u))) => {
            assert_eq!(u, "https://youtube.com/results?search_query=lofi%20beats")
        }
        other => panic!("{:?}", other),
    }
}

#[test]
fn typing_a_command_with_a_space_enters_command_mode() {
    let mut l = launcher();
    send(&mut l, Message::QueryChanged("> calc 1+1".to_string()), None);
    assert_eq!(l.mode, InputMode::Command);
    assert_eq!(l.query, "1+1");
    let c = l.command_state.as_ref().unwrap();
    assert_eq!(c.trigger, "calc");
    send(&mut l, Message::Hide, None);
    assert_eq!(l.mode, InputMode::Normal);
    assert!(l.command_state.is_none());
}

#[test]
fn hide_and_show_reset_the_query() {
    let mut l = launcher();
    assert!(matches!(send(&mut l, Message::Show, None), Effect::ShowWindow));
    assert!(l.is_visible);
    send(&mut l, Message::QueryChanged("fire".to_string()), None);
    send(&mut l, Message::SelectDown, None);
    assert!(matches!(send(&mut l, Message::Hide, None), Effect::HideWindow));
    assert!(!l.is_visible);
    assert_eq!(l.query, "");
    assert_eq!(l.selected, 0);
    assert!(l.pending_shortcut.is_none());
    assert_eq!(l.results.len(), 3);
}

#[test]
fn losing_focus_hides_unless_just_shown() {
    let mut l = launcher();
    send(&mut l, Message::Show, None);
    assert!(matches!(send(&mut l, Message::WindowUnfocused(true), None), Effect::Nothing));
    assert!(matches!(send(&mut l, Message::WindowUnfocused(false), None), Effect::RequestHide));
    send(&mut l, Message::Hide, None);
    assert!(matches!(send(&mut l, Message::WindowUnfocused(false), None), Effect::Nothing));
}

#[test]
fn copy_and_run_the_selected_item() {
    let mut l = launcher();
    send(&mut l, Message::SelectDown, None);
    match send(&mut l, Message::CopySelected, None) {
        Effect::Perform(Action::CopyToClipboard(t)) => assert_eq!(t, "/opt/firefox/firefox"),
        other => panic!("{:?}", other),
    }
    match send(&mut l, Message::Execute, None) {
        Effect::PerformAndHide(Some(Action::LaunchApp(p))) => assert_eq!(p, "/opt/firefox/firefox"),
        other => panic!("{:?}", other),
    }
}

#[test]
fn urls_become_one_item() {
    let mut l = launcher();
    send(&mut l, Message::QueryChanged("https://rust-lang.org".to_string()), None);
    assert_eq!(l.results.len(), 1);
    assert_eq!(l.results[0].item.id, "web:rust-lang.org");
    assert_eq!(l.results[0].score, 100);
}

#[test]
fn screen_texts_follow_the_mode() {
    let mut l = launcher();
    let (ph, badge) = l.prompt();
    assert_eq!(ph, "Search or type > for commands...");
    assert!(badge.is_none());
    assert_eq!(l.footer(), "↑↓ select  |  Enter execute  | Ctrl+C copy |  Tab → command mode  |  Esc hide");
    let rows = l.rows();
    assert_eq!(rows.len(), 3);
    match &rows[0] {
        Row::Item { index, title, subtitle, icon, selected } => {
            assert_eq!(*index, 0);
            assert_eq!(title, "Zed");
            assert_eq!(subtitle.as_deref(), Some("Code Editor"));
            assert!(matches!(icon, Icon::Blank));
            assert!(*selected);
        }
        other => panic!("{:?}", other),
    }
    send(&mut l, Message::QueryChanged(" 6*7".to_string()), Some("42"));
    assert_eq!(l.footer(), "↑↓ select | Enter -> copy result | Ctrl+C copy path | Esc hide");
    match &l.rows()[0] {
        Row::Answer { value, sum, hint, selected } => {
            assert_eq!(value, "42");
            assert_eq!(sum, "6*7 = 42");
            assert_eq!(hint, "⏎ copied to clipboard");
            assert!(*selected);
        }
        other => panic!("{:?}", other),
    }
    send(&mut l, Message::QueryChanged("> youtube lo fi".to_string()), None);
    let (ph, badge) = l.prompt();
    assert_eq!(ph, "query");
    assert_eq!(badge.as_deref(), Some("⌘ YouTube > query (1/1)"));
    assert_eq!(l.footer(), "Tab -> next slot | Enter -> execute | Esc cancel");
    assert!(matches!(message_for_key(&Key::Escape, false), Some(Message::Hide)));
    assert!(matches!(message_for_key(&Key::Character("c".to_string()), true), Some(Message::CopySelected)));
    assert!(message_for_key(&Key::Character("c".to_string()), false).is_none());
    assert!(matches!(message_for_key(&Key::Tab, false), Some(Message::Tab)));
    assert!(message_for_key(&Key::Other, true).is_none());
}

#[test]
fn icons_by_file_kind() {
    assert!(matches!(icon_of(&Some("/i/a.svg".to_string())), Icon::Svg(p) if p == "/i/a.svg"));
    assert!(matches!(icon_of(&Some("/i/a.png".to_string())), Icon::Picture(_)));
    assert!(matches!(icon_of(&Some("svg".to_string())), Icon::Picture(_)));
    assert!(matches!(icon_of(&None), Icon::Blank));
}

#[test]
fn enter_copies_the_answer_even_after_a_shortcut() {
    let mut l = launcher();
    send(&mut l, Message::QueryChanged("google".to_string()), None);
    assert!(l.pending_shortcut.is_some());
    send(&mut l, Message::QueryChanged("1+1".to_string()), Some("2"));
    assert!(l.pending_shortcut.is_none());
    assert_eq!(l.calc_result.as_deref(), Some("2"));
    assert_eq!(l.results[0].item.id, "calc:1+1");
    match send(&mut l, Message::Execute, None) {
        Effect::PerformAndHide(Some(Action::CopyToClipboard(t))) => assert_eq!(t, "2"),
        other => panic!("{:?}", other),
    }
}
