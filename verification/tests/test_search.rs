use engine::config::{Config, Platform};
use engine::index::{file_item, IndexBuilder};
use engine::models::LauncherItem;

#[test]
fn test_index() {
    let config = Config::for_platform(Platform::Linux);
    let file_paths = config.index.file_paths.clone();
    let builder = IndexBuilder::new(config);

    println!("Building index...");
    let mut found: Vec<LauncherItem> = Vec::new();
    for base in &file_paths {
        let expanded = shellexpand::tilde(base).into_owned();
        for entry in walkdir::WalkDir::new(&expanded)
            .max_depth(4)
            .follow_links(false)
            .into_iter()
            .filter_map(|e| e.ok())
        {
            let p = entry.path();
            if p.is_file() {
                let name = p.file_name().and_then(|s| s.to_str()).unwrap_or("");
                if builder.should_ignore(name) {
                    continue;
                }
                let parent = p.parent().map(|q| q.to_string_lossy().to_string()).unwrap_or_default();
                found.push(file_item(&p.to_string_lossy(), name, &parent));
            }
        }
    }
    let items = builder.build_from(found);

    println!("Indexed {} items", items.len());
    for item in items.iter().take(10) {
        println!("* {} ({:?})", item.title, item.item_type);
    }
}
