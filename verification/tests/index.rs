use engine::config::{Config, Platform, ShortcutConfig};
use engine::index::{
    bundle_item, decimal_string, dedup_by_path, demo_document, demo_file_item, file_item, BundleInfo,
    DesktopApp, DesktopEntryInfo, IndexBuilder,
};
use engine::models::{ItemType, LauncherItem};
use engine::search::{filter_results, SearchEngine};
use engine::models::FilterMode;

fn item(id: &str, path: Option<&str>) -> LauncherItem {
    LauncherItem { id: id.to_string(), title: id.to_string(), path: path.map(|p| p.to_string()), ..Default::default() }
}

fn entry() -> DesktopEntryInfo {
    DesktopEntryInfo {
        is_application: true,
        name: "Editor".to_string(),
        command: None,
        try_command: None,
        icon: None,
        generic_name: None,
        no_display: None,
        hidden: None,
    }
}

#[test]
fn dedup_sorts_by_path_and_keeps_the_first_of_each() {
    let items = vec![
        item("a", Some("/z")),
        item("b", None),
        item("c", Some("/a")),
        item("d", Some("/z")),
        item("e", None),
        item("f", Some("/m")),
    ];
    let ids: Vec<String> = dedup_by_path(items).into_iter().map(|i| i.id).collect();
    assert_eq!(ids, vec!["b", "c", "f", "a"]);
    assert!(dedup_by_path(Vec::new()).is_empty());
}

#[test]
fn dedup_twice_is_dedup_once() {
    let items = vec![item("x", Some("/b")), item("y", Some("/a")), item("z", Some("/b"))];
    let once: Vec<String> = dedup_by_path(items).into_iter().map(|i| i.id).collect();
    let again_in: Vec<LauncherItem> = once.iter().map(|id| item(id, Some(if id == "x" { "/b" } else { "/a" }))).collect();
    let twice: Vec<String> = dedup_by_path(again_in).into_iter().map(|i| i.id).collect();
    assert_eq!(once, vec!["y", "x"]);
    assert_eq!(once, twice);
}

#[test]
fn build_keeps_one_shortcut_item_since_they_have_no_path() {
    let builder = IndexBuilder::new(Config::for_platform(Platform::Linux));
    let shortcuts = builder.shortcut_items();
    let titles: Vec<&str> = shortcuts.iter().map(|i| i.title.as_str()).collect();
    assert_eq!(titles, vec!["youtube -> YouTube", "calc -> Calculator", "google -> Google Search"]);
    assert_eq!(shortcuts[0].id, "shortcut:youtube");
    assert_eq!(shortcuts[0].subtitle.as_deref(), Some("Shortcut: open_url"));
    assert_eq!(shortcuts[0].tags, vec!["shortcut".to_string()]);
    assert_eq!(shortcuts[0].item_type, ItemType::Command);
    let found = vec![file_item("/home/u/b.txt", "b.txt", "/home/u"), file_item("/home/u/a.txt", "a.txt", "/home/u")];
    let built = builder.build_from(found);
    let ids: Vec<&str> = built.iter().map(|i| i.id.as_str()).collect();
    assert_eq!(ids, vec!["shortcut:youtube", "file:/home/u/a.txt", "file:/home/u/b.txt"]);
}

#[test]
fn ignored_names() {
    let builder = IndexBuilder::new(Config::for_platform(Platform::Linux));
    assert!(builder.should_ignore("repo.git"));
    assert!(builder.should_ignore("x/node_modules/y"));
    assert!(!builder.should_ignore("notes.txt"));
}

#[test]
fn file_and_demo_items() {
    let f = file_item("/d/x.pdf", "x.pdf", "/d");
    assert_eq!(f.id, "file:/d/x.pdf");
    assert_eq!(f.subtitle.as_deref(), Some("/d"));
    assert_eq!(f.item_type, ItemType::File);
    assert_eq!(decimal_string(0), "0");
    assert_eq!(decimal_string(1207), "1207");
    assert!(demo_document("a.pdf"));
    assert!(demo_document("b.txt"));
    assert!(!demo_document(".md"));
    assert!(!demo_document("pdf"));
    let d = demo_file_item(12, "r.txt", "/dl/r.txt");
    assert_eq!(d.id, "file=12");
    assert_eq!(d.subtitle.as_deref(), Some("File"));
}

#[test]
fn demo_index_takes_documents_in_order() {
    let entries = vec![
        ("Downloads".to_string(), "/h/Downloads".to_string()),
        ("code review.pdf".to_string(), "/h/Downloads/code review.pdf".to_string()),
        ("song.mp3".to_string(), "/h/Downloads/song.mp3".to_string()),
        ("notes.txt".to_string(), "/h/Downloads/a/notes.txt".to_string()),
    ];
    let items = IndexBuilder::build_demo_index(entries);
    let ids: Vec<&str> = items.iter().map(|i| i.id.as_str()).collect();
    assert_eq!(ids, vec!["1", "2", "3", "file=3", "file=4"]);
    assert_eq!(items[3].title, "code review.pdf");
    assert_eq!(items[4].path.as_deref(), Some("/h/Downloads/a/notes.txt"));
    assert_eq!(IndexBuilder::build_demo_index(Vec::new()).len(), 3);
}

#[test]
fn search_finds_a_demo_document_by_title() {
    let mut search = SearchEngine::new();
    search.set_items(IndexBuilder::build_demo_index(vec![(
        "code_review.pdf".to_string(),
        "/h/Downloads/code_review.pdf".to_string(),
    )]));
    let results = search.search("code");
    assert!(results.iter().any(|r| r.title == "code_review.pdf"));
    let all = search.search("   ");
    assert_eq!(all.len(), 4);
    let files = search.search_filtered("", &FilterMode::Files);
    assert_eq!(files.len(), 1);
    assert_eq!(files[0].id, "file=3");
    assert_eq!(search.get_all_items().len(), 4);
}

#[test]
fn filters_keep_their_kind() {
    let mut sc = item("shortcut:g", None);
    sc.item_type = ItemType::Command;
    let mut app = item("app", None);
    app.item_type = ItemType::Application;
    let file = file_item("/f", "f", "/");
    let all = vec![sc, app, file];
    assert_eq!(filter_results(&all, FilterMode::All).len(), 3);
    assert_eq!(filter_results(&all, FilterMode::Applications)[0].id, "app");
    assert_eq!(filter_results(&all, FilterMode::Files)[0].id, "file:/f");
    let s = filter_results(&all, FilterMode::Shortcuts);
    assert_eq!(s.len(), 1);
    assert_eq!(s[0].id, "shortcut:g");
}

#[test]
fn desktop_entries_become_applications() {
    let mut e = entry();
    e.try_command = Some("editor --new".to_string());
    let app = DesktopApp::from_entry(&e).unwrap();
    assert_eq!(app.command, "editor --new");
    assert_eq!(app.icon_name, "assets/icons/icon.png");
    assert_eq!(app.tag, "Editor");
    let mut hidden = entry();
    hidden.hidden = Some(true);
    assert!(DesktopApp::from_entry(&hidden).is_none());
    let mut nodisplay = entry();
    nodisplay.no_display = Some(true);
    assert!(DesktopApp::from_entry(&nodisplay).is_none());
    let mut link = entry();
    link.is_application = false;
    assert!(DesktopApp::from_entry(&link).is_none());
    let mut full = entry();
    full.command = Some("ed %U".to_string());
    full.generic_name = Some("Text Editor".to_string());
    full.icon = Some("ed".to_string());
    let a = DesktopApp::from_entry(&full).unwrap();
    let it = a.item("/usr/share/applications/ed.desktop", Some("/icons/ed.png".to_string()));
    assert_eq!(it.id, "app:/usr/share/applications/ed.desktop");
    assert_eq!(it.title, "Editor");
    assert_eq!(it.path.as_deref(), Some("ed %U"));
    assert_eq!(it.tags, vec!["Text Editor".to_string()]);
    assert_eq!(it.icon_path.as_deref(), Some("/icons/ed.png"));
}

#[test]
fn desktop_files_are_parsed() {
    let text = "[Desktop Entry]\nType=Application\nName=Calc\nExec=gnome-calculator %U\nGenericName=Calculator\nIcon=calc\n";
    let app = DesktopApp::from_desktop_file(text).unwrap();
    assert_eq!(app.name, "Calc");
    assert_eq!(app.command, "gnome-calculator %U");
    assert_eq!(app.tag, "Calculator");
    assert_eq!(app.icon_name, "calc");
    let hidden = "[Desktop Entry]\nType=Application\nName=Calc\nExec=c\nNoDisplay=true\n";
    assert!(DesktopApp::from_desktop_file(hidden).is_none());
    assert!(DesktopApp::from_desktop_file("not a desktop file").is_none());
}

#[test]
fn bundles_are_titled_and_iconed() {
    let b = BundleInfo {
        display_name: None,
        bundle_name: Some(Some("Notes".to_string())),
        icon_file: Some(Some("AppIcon".to_string())),
    };
    assert_eq!(b.title_and_icon(), (Some("Notes".to_string()), Some("AppIcon.icns".to_string())));
    let c = BundleInfo {
        display_name: Some(None),
        bundle_name: Some(Some("Ignored".to_string())),
        icon_file: Some(Some("x.icns".to_string())),
    };
    assert_eq!(c.title_and_icon(), (None, Some("x.icns".to_string())));
    let it = bundle_item("/Applications/Notes.app", None, Some("Notes".to_string()), None);
    assert_eq!(it.id, "app:/Applications/Notes.app");
    assert_eq!(it.title, "Notes");
    assert_eq!(it.tags, vec!["app".to_string()]);
    assert_eq!(bundle_item("/x.app", None, None, None).title, "Unknown");
}

#[test]
fn merge_adds_missing_defaults_after_the_users() {
    let mut config = Config::for_platform(Platform::Linux);
    config.shortcuts = vec![ShortcutConfig {
        trigger: "google".to_string(),
        name: "Mine".to_string(),
        action_type: "open_url".to_string(),
        command: None,
        icon: None,
        key: None,
    }];
    let defaults = Config::for_platform(Platform::Linux).shortcuts;
    config.merge_default_shortcuts(defaults);
    let names: Vec<&str> = config.shortcuts.iter().map(|s| s.name.as_str()).collect();
    assert_eq!(names, vec!["Mine", "YouTube", "Calculator"]);
    let again = Config::for_platform(Platform::Linux).shortcuts;
    config.merge_default_shortcuts(again);
    assert_eq!(config.shortcuts.len(), 3);
}

#[test]
fn info_plist_bytes_give_title_and_icon() {
    let xml = r#"<?xml version="1.0" encoding="UTF-8"?>
<!DOCTYPE plist PUBLIC "-//Apple//DTD PLIST 1.0//EN" "http://www.apple.com/DTDs/PropertyList-1.0.dtd">
<plist version="1.0">
<dict>
    <key>CFBundleName</key><string>Notes</string>
    <key>CFBundleIconFile</key><string>AppIcon</string>
</dict>
</plist>"#;
    assert_eq!(
        engine::index::parse_info_plist(xml.as_bytes()),
        (Some("Notes".to_string()), Some("AppIcon.icns".to_string()))
    );
    assert_eq!(engine::index::parse_info_plist(b"not a plist"), (None, None));
}

#[test]
fn icns_icons_become_png() {
    let mut family = icns::IconFamily::new();
    let image = icns::Image::new(icns::PixelFormat::RGBA, 32, 32);
    family.add_icon_with_type(&image, icns::IconType::RGBA32_32x32).unwrap();
    let mut bytes = Vec::new();
    family.write(&mut bytes).unwrap();
    let png = engine::index::icns_to_png(&bytes).unwrap();
    assert_eq!(&png[..8], &[0x89, b'P', b'N', b'G', 0x0D, 0x0A, 0x1A, 0x0A]);
    assert!(engine::index::icns_to_png(b"junk").is_none());
}
