//! The launcher's settings: what to index, the global hotkey and the
//! keyword shortcuts, with the defaults for each platform.
use vstd::prelude::*;

use crate::text::{copy_opt_string, copy_string, opt_view, str_eq};

verus! {

/// The operating systems the launcher knows.
#[derive(Clone, Copy, Debug, PartialEq, Eq, Structural)]
pub enum Platform {
    MacOS,
    Linux,
    Windows,
}

/// The platform named `os`, spelled as `std::env::consts::OS` spells it;
/// any other system counts as Linux.
pub open spec fn platform_named(os: Seq<char>) -> Platform {
    if os == "macos"@ {
        Platform::MacOS
    } else if os == "windows"@ {
        Platform::Windows
    } else {
        Platform::Linux
    }
}

impl Platform {
    /// The platform of the running system, given its name (`std::env::consts::OS`).
    pub fn current(os: &str) -> (r: Platform)
        ensures
            r == platform_named(os@),
    {
        if str_eq(os, "macos") {
            Platform::MacOS
        } else if str_eq(os, "windows") {
            Platform::Windows
        } else {
            Platform::Linux
        }
    }
}

/// A keyword shortcut: typing its trigger runs its action.
#[derive(Debug)]
pub struct ShortcutConfig {
    pub trigger: String,
    pub name: String,
    pub action_type: String,
    pub command: Option<String>,
    pub icon: Option<String>,
    pub key: Option<String>,
}

/// A shortcut as values.
pub struct ShortcutView {
    pub trigger: Seq<char>,
    pub name: Seq<char>,
    pub action_type: Seq<char>,
    pub command: Option<Seq<char>>,
    pub icon: Option<Seq<char>>,
    pub key: Option<Seq<char>>,
}

impl View for ShortcutConfig {
    type V = ShortcutView;

    open spec fn view(&self) -> ShortcutView {
        ShortcutView {
            trigger: self.trigger@,
            name: self.name@,
            action_type: self.action_type@,
            command: opt_view(self.command),
            icon: opt_view(self.icon),
            key: opt_view(self.key),
        }
    }
}

/// The views of a sequence of shortcuts.
pub open spec fn view_shortcuts(s: Seq<ShortcutConfig>) -> Seq<ShortcutView> {
    s.map_values(|c: ShortcutConfig| c@)
}

impl Clone for ShortcutConfig {
    fn clone(&self) -> (r: Self)
        ensures
            r@ == self@,
    {
        ShortcutConfig {
            trigger: copy_string(&self.trigger),
            name: copy_string(&self.name),
            action_type: copy_string(&self.action_type),
            command: copy_opt_string(&self.command),
            icon: copy_opt_string(&self.icon),
            key: copy_opt_string(&self.key),
        }
    }
}

/// A copy of the shortcuts `v`.
pub fn copy_shortcuts(v: &Vec<ShortcutConfig>) -> (r: Vec<ShortcutConfig>)
    ensures
        view_shortcuts(r@) == view_shortcuts(v@),
{
    let mut r: Vec<ShortcutConfig> = Vec::new();
    for i in 0..v.len()
        invariant
            r@.len() == i,
            forall|j: int| 0 <= j < i ==> #[trigger] r@[j]@ == v@[j]@,
    {
        r.push(v[i].clone());
    }
    assert(view_shortcuts(r@) =~= view_shortcuts(v@));
    r
}

/// The shortcut that a fresh configuration ends with: a Google search.
pub open spec fn google_shortcut() -> ShortcutView {
    ShortcutView {
        trigger: "google"@,
        name: "Google Search"@,
        action_type: "open_url"@,
        command: Some("https://google.com/search?q={query}"@),
        icon: None,
        key: Some("alt+q"@),
    }
}

/// The YouTube search shortcut of a fresh configuration.
pub open spec fn youtube_shortcut() -> ShortcutView {
    ShortcutView {
        trigger: "youtube"@,
        name: "YouTube"@,
        action_type: "open_url"@,
        command: Some("https://youtube.com/results?search_query={query}"@),
        icon: None,
        key: Some("ctrl+y"@),
    }
}

/// The calculator shortcut of a fresh configuration.
pub open spec fn calc_shortcut() -> ShortcutView {
    ShortcutView {
        trigger: "calc"@,
        name: "Calculator"@,
        action_type: "calculator"@,
        command: None,
        icon: None,
        key: None,
    }
}

impl Default for ShortcutConfig {
    fn default() -> (r: Self)
        ensures
            r@ == google_shortcut(),
    {
        ShortcutConfig {
            trigger: String::from_str("google"),
            name: String::from_str("Google Search"),
            action_type: String::from_str("open_url"),
            command: Some(String::from_str("https://google.com/search?q={query}")),
            icon: None,
            key: Some(String::from_str("alt+q")),
        }
    }
}

/// What to index.
#[derive(Debug)]
pub struct IndexConfig {
    pub index_applications: bool,
    pub index_files: bool,
    pub index_folders: bool,
    pub applications_paths: Vec<String>,
    pub file_paths: Vec<String>,
    pub ignored_patterns: Vec<String>,
}

/// The global hotkey that shows the launcher.
#[derive(Debug)]
pub struct HotkeyConfig {
    pub modifiers: String,
    pub key: String,
}

/// The settings the engine reads. The window geometry and the fuzzy
/// threshold, which are floating-point values, stay with the application.
#[derive(Debug)]
pub struct Config {
    pub max_results: usize,
    pub index: IndexConfig,
    pub hotkey: HotkeyConfig,
    pub shortcuts: Vec<ShortcutConfig>,
}

/// The directories searched for applications by default.
pub open spec fn default_application_paths(p: Platform) -> Seq<Seq<char>> {
    match p {
        Platform::MacOS => seq![
            "/Applications"@,
            "~/Applications"@,
            "/System/Applications"@,
            "/System/Library/CoreServices"@,
        ],
        Platform::Linux => seq![
            "/usr/share/applications"@,
            "/usr/local/share/applications"@,
            "~/.local/share/applications"@,
        ],
        Platform::Windows => Seq::empty(),
    }
}

/// The directories searched for files by default.
pub open spec fn default_file_paths(p: Platform) -> Seq<Seq<char>> {
    match p {
        Platform::MacOS => seq![
            "~/Downloads"@,
            "~/Documents"@,
            "~/Desktop"@,
            "~/Pictures"@,
            "~/Movies"@,
            "~/Music"@,
        ],
        Platform::Linux => seq![
            "~/Downloads"@,
            "~/Documents"@,
            "~/Desktop"@,
            "~/Pictures"@,
            "~/Videos"@,
            "~/Music"@,
        ],
        Platform::Windows => Seq::empty(),
    }
}

/// The name fragments whose files are never indexed, by default.
pub open spec fn default_ignored_patterns() -> Seq<Seq<char>> {
    seq![
        "/sys"@,
        "/tmp"@,
        "/sbin"@,
        "/proc"@,
        "/boot"@,
        ".git"@,
        "node_modules"@,
        "Library/Caches"@,
        "Library/Logs"@,
    ]
}

/// The strings `items`, as a vector.
fn strings_of(items: &[&str]) -> (r: Vec<String>)
    ensures
        r.deep_view() == items@.map_values(|s: &str| s@),
{
    let mut r: Vec<String> = Vec::new();
    for i in 0..items.len()
        invariant
            r@.len() == i,
            forall|j: int| 0 <= j < i ==> #[trigger] r@[j]@ == items@[j]@,
    {
        r.push(String::from_str(items[i]));
    }
    assert(r.deep_view() =~= items@.map_values(|s: &str| s@));
    r
}

impl IndexConfig {
    /// The default index settings on platform `p`.
    pub fn for_platform(p: Platform) -> (r: IndexConfig)
        ensures
            r.index_applications,
            r.index_files,
            !r.index_folders,
            r.applications_paths.deep_view() == default_application_paths(p),
            r.file_paths.deep_view() == default_file_paths(p),
            r.ignored_patterns.deep_view() == default_ignored_patterns(),
    {
        let apps: [&str; 4] = [
            "/Applications",
            "~/Applications",
            "/System/Applications",
            "/System/Library/CoreServices",
        ];
        let linux_apps: [&str; 3] = [
            "/usr/share/applications",
            "/usr/local/share/applications",
            "~/.local/share/applications",
        ];
        let mac_files: [&str; 6] = [
            "~/Downloads",
            "~/Documents",
            "~/Desktop",
            "~/Pictures",
            "~/Movies",
            "~/Music",
        ];
        let linux_files: [&str; 6] = [
            "~/Downloads",
            "~/Documents",
            "~/Desktop",
            "~/Pictures",
            "~/Videos",
            "~/Music",
        ];
        let ignored: [&str; 9] = [
            "/sys",
            "/tmp",
            "/sbin",
            "/proc",
            "/boot",
            ".git",
            "node_modules",
            "Library/Caches",
            "Library/Logs",
        ];
        let applications_paths = match p {
            Platform::MacOS => strings_of(&apps),
            Platform::Linux => strings_of(&linux_apps),
            Platform::Windows => {
                let v: Vec<String> = Vec::new();
                assert(v.deep_view() =~= Seq::<Seq<char>>::empty());
                v
            },
        };
        let file_paths = match p {
            Platform::MacOS => strings_of(&mac_files),
            Platform::Linux => strings_of(&linux_files),
            Platform::Windows => {
                let v: Vec<String> = Vec::new();
                assert(v.deep_view() =~= Seq::<Seq<char>>::empty());
                v
            },
        };
        let ignored_patterns = strings_of(&ignored);
        proof {
            assert(apps@.map_values(|s: &str| s@) =~= default_application_paths(Platform::MacOS));
            assert(linux_apps@.map_values(|s: &str| s@) =~= default_application_paths(
                Platform::Linux,
            ));
            assert(mac_files@.map_values(|s: &str| s@) =~= default_file_paths(Platform::MacOS));
            assert(linux_files@.map_values(|s: &str| s@) =~= default_file_paths(Platform::Linux));
            assert(ignored@.map_values(|s: &str| s@) =~= default_ignored_patterns());
        }
        IndexConfig {
            index_applications: true,
            index_files: true,
            index_folders: false,
            applications_paths,
            file_paths,
            ignored_patterns,
        }
    }
}

impl HotkeyConfig {
    /// The default hotkey on platform `p`: Meta+Space on macOS, Control+Space elsewhere.
    pub fn for_platform(p: Platform) -> (r: HotkeyConfig)
        ensures
            r.modifiers@ == (if p == Platform::MacOS {
                "Meta"@
            } else {
                "Control"@
            }),
            r.key@ == "Space"@,
    {
        let modifiers = match p {
            Platform::MacOS => String::from_str("Meta"),
            _ => String::from_str("Control"),
        };
        HotkeyConfig { modifiers, key: String::from_str("Space") }
    }
}

/// The shortcuts of a fresh configuration, in order.
pub open spec fn default_shortcuts() -> Seq<ShortcutView> {
    seq![youtube_shortcut(), calc_shortcut(), google_shortcut()]
}

/// Whether some shortcut in `s` has the trigger `t`.
pub open spec fn has_trigger(s: Seq<ShortcutView>, t: Seq<char>) -> bool {
    exists|i: int| 0 <= i < s.len() && (#[trigger] s[i]).trigger == t
}

/// `user` followed by each of `defaults` whose trigger is not yet present,
/// taken in order.
pub open spec fn merged(user: Seq<ShortcutView>, defaults: Seq<ShortcutView>) -> Seq<ShortcutView>
    decreases defaults.len(),
{
    if defaults.len() == 0 {
        user
    } else {
        let m = merged(user, defaults.drop_last());
        if has_trigger(m, defaults.last().trigger) {
            m
        } else {
            m.push(defaults.last())
        }
    }
}

impl Config {
    /// The configuration written on first start on platform `p`.
    pub fn for_platform(p: Platform) -> (r: Config)
        ensures
            r.max_results == 50,
            r.index.index_applications,
            r.index.index_files,
            !r.index.index_folders,
            r.index.applications_paths.deep_view() == default_application_paths(p),
            r.index.file_paths.deep_view() == default_file_paths(p),
            r.index.ignored_patterns.deep_view() == default_ignored_patterns(),
            r.hotkey.modifiers@ == (if p == Platform::MacOS {
                "Meta"@
            } else {
                "Control"@
            }),
            r.hotkey.key@ == "Space"@,
            view_shortcuts(r.shortcuts@) == default_shortcuts(),
    {
        let mut shortcuts: Vec<ShortcutConfig> = Vec::new();
        shortcuts.push(
            ShortcutConfig {
                trigger: String::from_str("youtube"),
                name: String::from_str("YouTube"),
                action_type: String::from_str("open_url"),
                command: Some(String::from_str("https://youtube.com/results?search_query={query}")),
                icon: None,
                key: Some(String::from_str("ctrl+y")),
            },
        );
        shortcuts.push(
            ShortcutConfig {
                trigger: String::from_str("calc"),
                name: String::from_str("Calculator"),
                action_type: String::from_str("calculator"),
                command: None,
                icon: None,
                key: None,
            },
        );
        shortcuts.push(ShortcutConfig::default());
        assert(view_shortcuts(shortcuts@) =~= default_shortcuts());
        Config {
            max_results: 50,
            index: IndexConfig::for_platform(p),
            hotkey: HotkeyConfig::for_platform(p),
            shortcuts,
        }
    }

    /// Adds, in order, each of `defaults` whose trigger no shortcut has yet
    /// (the shortcuts added before it included).
    pub fn merge_default_shortcuts(&mut self, defaults: Vec<ShortcutConfig>)
        ensures
            view_shortcuts(final(self).shortcuts@) == merged(
                view_shortcuts(old(self).shortcuts@),
                view_shortcuts(defaults@),
            ),
            final(self).max_results == old(self).max_results,
            final(self).index == old(self).index,
            final(self).hotkey == old(self).hotkey,
    {
        let ghost user = view_shortcuts(self.shortcuts@);
        let ghost dv = view_shortcuts(defaults@);
        let mut defaults = defaults;
        let mut rest: Vec<ShortcutConfig> = Vec::new();
        // Reverse so that popping takes the defaults in their order.
        while defaults.len() > 0
            invariant
                view_shortcuts(defaults@) + view_shortcuts(rest@).reverse() == dv,
            decreases defaults.len(),
        {
            let d = defaults.pop().unwrap();
            rest.push(d);
            proof {
                assert(view_shortcuts(defaults@) + view_shortcuts(rest@).reverse() =~= dv);
            }
        }
        assert(view_shortcuts(rest@).reverse() =~= dv);
        let n = rest.len();
        let mut k: usize = 0;
        while rest.len() > 0
            invariant
                k + rest@.len() == n == dv.len(),
                view_shortcuts(rest@).reverse() == dv.skip(k as int),
                view_shortcuts(self.shortcuts@) == merged(user, dv.take(k as int)),
                self.max_results == old(self).max_results,
                self.index == old(self).index,
                self.hotkey == old(self).hotkey,
            decreases rest.len(),
        {
            let ghost before = view_shortcuts(rest@);
            let d = rest.pop().unwrap();
            proof {
                assert(before.reverse()[0] == d@);
                assert(dv[k as int] == d@) by {
                    assert(dv.skip(k as int)[0] == dv[k as int]);
                }
                assert(view_shortcuts(rest@) =~= before.drop_last());
                assert(before.drop_last().reverse() =~= before.reverse().drop_first());
                assert(dv.skip(k as int).drop_first() =~= dv.skip(k + 1 as int));
                assert(dv.take(k + 1 as int).drop_last() =~= dv.take(k as int));
            }
            let mut present = false;
            let mut i: usize = 0;
            while i < self.shortcuts.len()
                invariant
                    i <= self.shortcuts@.len(),
                    present == exists|j: int|
                        0 <= j < i && (#[trigger] self.shortcuts@[j]).trigger@ == d.trigger@,
                decreases self.shortcuts.len() - i,
            {
                if str_eq(self.shortcuts[i].trigger.as_str(), d.trigger.as_str()) {
                    present = true;
                }
                i = i + 1;
            }
            proof {
                let m = view_shortcuts(self.shortcuts@);
                if present {
                    let j = choose|j: int|
                        0 <= j < i && (#[trigger] self.shortcuts@[j]).trigger@ == d.trigger@;
                    assert(m[j].trigger == d@.trigger);
                } else {
                    assert forall|j: int| 0 <= j < m.len() implies (#[trigger] m[j]).trigger
                        != d@.trigger by {
                        assert(m[j] == self.shortcuts@[j]@);
                    }
                }
            }
            if !present {
                self.shortcuts.push(d);
                proof {
                    assert(view_shortcuts(self.shortcuts@) =~= merged(user, dv.take(k as int)).push(
                        dv[k as int],
                    ));
                }
            }
            k = k + 1;
        }
        assert(dv.take(n as int) =~= dv);
    }
}

/// Merging keeps the user's shortcuts, in order, at the front.
pub proof fn lemma_merge_keeps_user(user: Seq<ShortcutView>, defaults: Seq<ShortcutView>)
    ensures
        merged(user, defaults).len() >= user.len(),
        merged(user, defaults).take(user.len() as int) == user,
    decreases defaults.len(),
{
    if defaults.len() > 0 {
        lemma_merge_keeps_user(user, defaults.drop_last());
        let m = merged(user, defaults.drop_last());
        assert(m.push(defaults.last()).take(user.len() as int) =~= m.take(user.len() as int));
    }
    assert(user.take(user.len() as int) =~= user);
}

/// After merging, every default's trigger is present.
pub proof fn lemma_merge_covers_defaults(user: Seq<ShortcutView>, defaults: Seq<ShortcutView>)
    ensures
        forall|j: int|
            0 <= j < defaults.len() ==> has_trigger(merged(user, defaults), #[trigger] defaults[j].trigger),
    decreases defaults.len(),
{
    if defaults.len() > 0 {
        let d = defaults.drop_last();
        lemma_merge_covers_defaults(user, d);
        let m = merged(user, d);
        assert forall|j: int| 0 <= j < defaults.len() implies has_trigger(
            merged(user, defaults),
            #[trigger] defaults[j].trigger,
        ) by {
            if j < d.len() {
                assert(d[j] == defaults[j]);
                assert(has_trigger(m, d[j].trigger));
                let i = choose|i: int| 0 <= i < m.len() && (#[trigger] m[i]).trigger == d[j].trigger;
                if !has_trigger(m, defaults.last().trigger) {
                    assert(m.push(defaults.last())[i] == m[i]);
                }
            } else {
                if !has_trigger(m, defaults.last().trigger) {
                    assert(m.push(defaults.last())[m.len() as int] == defaults.last());
                }
            }
        }
    }
}

/// Merging shortcuts whose triggers are all present already changes nothing.
pub proof fn lemma_merge_present(m: Seq<ShortcutView>, e: Seq<ShortcutView>)
    requires
        forall|j: int| 0 <= j < e.len() ==> has_trigger(m, #[trigger] e[j].trigger),
    ensures
        merged(m, e) == m,
    decreases e.len(),
{
    if e.len() > 0 {
        assert forall|j: int| 0 <= j < e.drop_last().len() implies has_trigger(
            m,
            #[trigger] e.drop_last()[j].trigger,
        ) by {
            assert(e.drop_last()[j] == e[j]);
        }
        lemma_merge_present(m, e.drop_last());
        assert(has_trigger(m, e[e.len() - 1].trigger));
    }
}

/// Merging the same defaults a second time changes nothing: loading a
/// configuration twice adds each default at most once.
pub proof fn lemma_merge_idempotent(user: Seq<ShortcutView>, defaults: Seq<ShortcutView>)
    ensures
        merged(merged(user, defaults), defaults) == merged(user, defaults),
{
    lemma_merge_covers_defaults(user, defaults);
    lemma_merge_present(merged(user, defaults), defaults);
}

} // verus!
