//! Building the list of items: the items made from shortcuts, application
//! entries and files, and the final list ordered by path with one item per
//! path.
use vstd::prelude::*;

use crate::config::{Config, ShortcutView, view_shortcuts};
use crate::models::{ItemType, ItemView, LauncherItem, view_items};
use crate::order::{key_lt, lemma_key_irreflexive, lemma_key_total, lemma_key_transitive, lex_lt_exec};
use crate::text::{
    chars_of, concat3, concat_str, contains, copy_opt_string, copy_string, opt_view, push_char,
    str_contains, str_eq, string_of,
};

verus! {

/// The item a shortcut adds to the list.
pub open spec fn shortcut_item(sc: ShortcutView) -> ItemView {
    ItemView {
        id: "shortcut:"@ + sc.trigger,
        title: sc.trigger + " -> "@ + sc.name,
        subtitle: Some("Shortcut: "@ + sc.action_type),
        path: None,
        icon_path: sc.icon,
        item_type: ItemType::Command,
        tags: seq!["shortcut"@],
    }
}

/// `m` is the first position in `s` with the path of `s[m]`.
pub open spec fn first_with_its_path(s: Seq<ItemView>, m: int) -> bool {
    0 <= m < s.len() && forall|k: int| 0 <= k < m ==> (#[trigger] s[k]).path != s[m].path
}

/// `v` is the first item of `s` with its path.
pub open spec fn is_first_of_its_path(s: Seq<ItemView>, v: ItemView) -> bool {
    exists|m: int| first_with_its_path(s, m) && s[m] == v
}

/// `r` is `s` ordered by path with one item per path: the paths of `r` are
/// strictly increasing, each item of `r` is the first item of `s` with its
/// path, and every path of `s` is in `r`.
pub open spec fn deduplicated_by_path(s: Seq<ItemView>, r: Seq<ItemView>) -> bool {
    &&& forall|i: int, j: int| 0 <= i < j < r.len() ==> key_lt(r[i].path, r[j].path)
    &&& forall|i: int| 0 <= i < r.len() ==> is_first_of_its_path(s, #[trigger] r[i])
    &&& forall|m: int| 0 <= m < s.len() ==> #[trigger] path_keys(r).contains(s[m].path)
}

/// The paths of the items, in order.
pub open spec fn path_keys(r: Seq<ItemView>) -> Seq<Option<Seq<char>>> {
    r.map_values(|v: ItemView| v.path)
}

/// The keys are in strictly increasing order.
pub open spec fn strictly_sorted(k: Seq<Option<Seq<char>>>) -> bool {
    forall|i: int, j: int| 0 <= i < j < k.len() ==> key_lt(k[i], k[j])
}

/// In a list ordered by path, no two items share a path.
pub proof fn lemma_dedup_distinct_paths(s: Seq<ItemView>, r: Seq<ItemView>)
    requires
        deduplicated_by_path(s, r),
    ensures
        forall|i: int, j: int| 0 <= i < j < r.len() ==> r[i].path != r[j].path,
{
    assert forall|i: int, j: int| 0 <= i < j < r.len() implies r[i].path != r[j].path by {
        lemma_key_irreflexive(r[i].path);
    }
}

/// Ordering by path with one item per path leaves such a list as it is.
pub proof fn lemma_dedup_idempotent(s: Seq<ItemView>, r: Seq<ItemView>)
    requires
        deduplicated_by_path(s, r),
    ensures
        deduplicated_by_path(r, r),
{
    lemma_dedup_distinct_paths(s, r);
    assert forall|i: int| 0 <= i < r.len() implies is_first_of_its_path(r, #[trigger] r[i]) by {
        assert(first_with_its_path(r, i));
    }
    assert forall|m: int| 0 <= m < r.len() implies #[trigger] path_keys(r).contains(r[m].path) by {
        assert(path_keys(r)[m] == r[m].path);
    }
}

/// Two strictly sorted key sequences with the same keys are equal.
pub proof fn lemma_sorted_same_keys(a: Seq<Option<Seq<char>>>, b: Seq<Option<Seq<char>>>)
    requires
        strictly_sorted(a),
        strictly_sorted(b),
        forall|i: int| 0 <= i < a.len() ==> b.contains(#[trigger] a[i]),
        forall|j: int| 0 <= j < b.len() ==> a.contains(#[trigger] b[j]),
    ensures
        a == b,
    decreases a.len(),
{
    if a.len() == 0 {
        if b.len() > 0 {
            assert(a.contains(b[0]));
        }
        assert(a =~= b);
    } else if b.len() == 0 {
        assert(b.contains(a[0]));
    } else {
        assert(b.contains(a[0]));
        assert(a.contains(b[0]));
        let j0 = choose|j: int| 0 <= j < b.len() && b[j] == a[0];
        let i0 = choose|i: int| 0 <= i < a.len() && a[i] == b[0];
        if j0 > 0 {
            if i0 > 0 {
                lemma_key_transitive(b[0], a[0], a[i0]);
            }
            lemma_key_irreflexive(b[0]);
        }
        let a1 = a.drop_first();
        let b1 = b.drop_first();
        assert forall|i: int| 0 <= i < a1.len() implies b1.contains(#[trigger] a1[i]) by {
            assert(a1[i] == a[i + 1]);
            assert(b.contains(a[i + 1]));
            let j = choose|j: int| 0 <= j < b.len() && b[j] == a[i + 1];
            if j == 0 {
                lemma_key_irreflexive(a[0]);
            }
            assert(b1[j - 1] == b[j]);
        }
        assert forall|j: int| 0 <= j < b1.len() implies a1.contains(#[trigger] b1[j]) by {
            assert(b1[j] == b[j + 1]);
            assert(a.contains(b[j + 1]));
            let i = choose|i: int| 0 <= i < a.len() && a[i] == b[j + 1];
            if i == 0 {
                lemma_key_irreflexive(b[0]);
            }
            assert(a1[i - 1] == a[i]);
        }
        lemma_sorted_same_keys(a1, b1);
        assert(a =~= seq![a[0]] + a1);
        assert(b =~= seq![b[0]] + b1);
    }
}

/// The list ordered by path with one item per path is determined by the
/// items it is made from.
pub proof fn lemma_dedup_unique(s: Seq<ItemView>, r1: Seq<ItemView>, r2: Seq<ItemView>)
    requires
        deduplicated_by_path(s, r1),
        deduplicated_by_path(s, r2),
    ensures
        r1 == r2,
{
    let k1 = path_keys(r1);
    let k2 = path_keys(r2);
    assert forall|i: int| 0 <= i < k1.len() implies k2.contains(#[trigger] k1[i]) by {
        assert(is_first_of_its_path(s, r1[i]));
        let m = choose|m: int| first_with_its_path(s, m) && s[m] == r1[i];
        assert(path_keys(r2).contains(s[m].path));
    }
    assert forall|j: int| 0 <= j < k2.len() implies k1.contains(#[trigger] k2[j]) by {
        assert(is_first_of_its_path(s, r2[j]));
        let m = choose|m: int| first_with_its_path(s, m) && s[m] == r2[j];
        assert(path_keys(r1).contains(s[m].path));
    }
    assert(strictly_sorted(k1));
    assert(strictly_sorted(k2));
    lemma_sorted_same_keys(k1, k2);
    assert forall|i: int| 0 <= i < r1.len() implies r1[i] == r2[i] by {
        assert(k1[i] == k2[i]);
        assert(is_first_of_its_path(s, r1[i]));
        assert(is_first_of_its_path(s, r2[i]));
        let m1 = choose|m: int| first_with_its_path(s, m) && s[m] == r1[i];
        let m2 = choose|m: int| first_with_its_path(s, m) && s[m] == r2[i];
        if m1 < m2 {
            assert(s[m1].path == s[m2].path);
        } else if m2 < m1 {
            assert(s[m2].path == s[m1].path);
        }
    }
    assert(r1 =~= r2);
}

/// Whether path `a` sorts before path `b`.
pub fn path_lt(a: &Option<String>, b: &Option<String>) -> (r: bool)
    ensures
        r == key_lt(opt_view(*a), opt_view(*b)),
{
    match (a, b) {
        (None, Some(_)) => true,
        (Some(x), Some(y)) => {
            let xv = chars_of(x.as_str());
            let yv = chars_of(y.as_str());
            lex_lt_exec(xv.as_slice(), yv.as_slice())
        },
        _ => false,
    }
}

/// Whether paths `a` and `b` are the same.
pub fn path_eq(a: &Option<String>, b: &Option<String>) -> (r: bool)
    ensures
        r == (opt_view(*a) == opt_view(*b)),
{
    match (a, b) {
        (None, None) => true,
        (Some(x), Some(y)) => str_eq(x.as_str(), y.as_str()),
        _ => false,
    }
}

/// `items` ordered by path with one item per path: of the items that share
/// a path, the first stays.
pub fn dedup_by_path(items: Vec<LauncherItem>) -> (r: Vec<LauncherItem>)
    ensures
        deduplicated_by_path(view_items(items@), view_items(r@)),
{
    let ghost s = view_items(items@);
    let ghost n = items@.len();
    let mut pending = items;
    let mut out: Vec<LauncherItem> = Vec::new();
    let ghost mut origin: Seq<int> = Seq::empty();
    while pending.len() > 0
        invariant
            n == s.len(),
            pending@.len() <= n,
            view_items(pending@) == s.take(pending@.len() as int),
            origin.len() == out@.len(),
            forall|i: int, j: int|
                0 <= i < j < out@.len() ==> key_lt(out@[i]@.path, out@[j]@.path),
            forall|i: int|
                0 <= i < out@.len() ==> pending@.len() <= #[trigger] origin[i] < n && s[origin[i]]
                    == out@[i]@ && forall|k: int|
                    pending@.len() <= k < origin[i] ==> (#[trigger] s[k]).path != s[origin[i]].path,
            forall|m: int|
                pending@.len() <= m < n ==> exists|i: int|
                    0 <= i < out@.len() && #[trigger] out@[i]@.path == (#[trigger] s[m]).path,
        decreases pending@.len(),
    {
        let ghost before = out@;
        let ghost before_origin = origin;
        let item = pending.pop().unwrap();
        let ghost k = pending@.len() as int;
        proof {
            assert(view_items(pending@) =~= s.take(k));
            assert(s[k] == item@) by {
                assert(s.take(k + 1)[k] == s[k]);
            }
        }
        let mut j: usize = 0;
        while j < out.len() && path_lt(&out[j].path, &item.path)
            invariant
                j <= out@.len(),
                forall|i: int| 0 <= i < j ==> key_lt(out@[i]@.path, item@.path),
            decreases out.len() - j,
        {
            j = j + 1;
        }
        if j < out.len() && path_eq(&out[j].path, &item.path) {
            out.set(j, item);
            proof {
                origin = origin.update(j as int, k);
                assert forall|i: int| 0 <= i < out@.len() && i != j implies out@[i]@.path != s[k].path by {
                    if i < j {
                        lemma_key_irreflexive(s[k].path);
                    } else {
                        lemma_key_irreflexive(s[k].path);
                        assert(key_lt(before[j as int]@.path, before[i]@.path));
                    }
                }
                assert forall|i: int, i2: int|
                    0 <= i < i2 < out@.len() implies key_lt(out@[i]@.path, out@[i2]@.path) by {
                    assert(out@[i]@.path == before[i]@.path);
                    assert(out@[i2]@.path == before[i2]@.path);
                }
                assert forall|i: int| 0 <= i < out@.len() implies k <= #[trigger] origin[i] < n
                    && s[origin[i]] == out@[i]@ && forall|k2: int|
                    k <= k2 < origin[i] ==> (#[trigger] s[k2]).path != s[origin[i]].path by {
                    if i != j {
                        assert(origin[i] == before_origin[i]);
                        assert(out@[i] == before[i]);
                    }
                }
                assert forall|m: int| k <= m < n implies exists|i: int|
                    0 <= i < out@.len() && #[trigger] out@[i]@.path == (#[trigger] s[m]).path by {
                    if m == k {
                        assert(out@[j as int]@.path == s[m].path);
                    } else {
                        let i = choose|i: int|
                            0 <= i < before.len() && #[trigger] before[i]@.path == (#[trigger] s[m]).path;
                        assert(out@[i]@.path == s[m].path);
                    }
                }
            }
        } else {
            proof {
                if j < before.len() {
                    lemma_key_total(before[j as int]@.path, item@.path);
                    assert(key_lt(item@.path, before[j as int]@.path));
                }
                assert forall|i: int| 0 <= i < before.len() implies before[i]@.path != item@.path by {
                    if i < j {
                        lemma_key_irreflexive(item@.path);
                    } else {
                        if i > j {
                            lemma_key_transitive(item@.path, before[j as int]@.path, before[i]@.path);
                        }
                        lemma_key_irreflexive(item@.path);
                    }
                }
            }
            out.insert(j, item);
            proof {
                origin = origin.insert(j as int, k);
                assert forall|i: int, i2: int|
                    0 <= i < i2 < out@.len() implies key_lt(out@[i]@.path, out@[i2]@.path) by {
                    if i2 < j {
                        assert(out@[i] == before[i]);
                        assert(out@[i2] == before[i2]);
                    } else if i < j && i2 == j {
                        assert(out@[i] == before[i]);
                    } else if i < j {
                        assert(out@[i] == before[i]);
                        assert(out@[i2] == before[i2 - 1]);
                    } else if i == j {
                        assert(out@[i2] == before[i2 - 1]);
                        if i2 - 1 > j {
                            lemma_key_transitive(item@.path, before[j as int]@.path, before[i2 - 1]@.path);
                        }
                    } else {
                        assert(out@[i] == before[i - 1]);
                        assert(out@[i2] == before[i2 - 1]);
                    }
                }
                assert forall|i: int| 0 <= i < out@.len() implies k <= #[trigger] origin[i] < n
                    && s[origin[i]] == out@[i]@ && forall|k2: int|
                    k <= k2 < origin[i] ==> (#[trigger] s[k2]).path != s[origin[i]].path by {
                    if i < j {
                        assert(origin[i] == before_origin[i]);
                        assert(out@[i] == before[i]);
                    } else if i > j {
                        assert(origin[i] == before_origin[i - 1]);
                        assert(out@[i] == before[i - 1]);
                    }
                }
                assert forall|m: int| k <= m < n implies exists|i: int|
                    0 <= i < out@.len() && #[trigger] out@[i]@.path == (#[trigger] s[m]).path by {
                    if m == k {
                        assert(out@[j as int]@.path == s[m].path);
                    } else {
                        let i = choose|i: int|
                            0 <= i < before.len() && #[trigger] before[i]@.path == (#[trigger] s[m]).path;
                        if i < j {
                            assert(out@[i]@.path == s[m].path);
                        } else {
                            assert(out@[i + 1]@.path == s[m].path);
                        }
                    }
                }
            }
        }
    }
    proof {
        let r = view_items(out@);
        assert forall|i: int, j: int| 0 <= i < j < r.len() implies key_lt(r[i].path, r[j].path) by {
            assert(r[i] == out@[i]@);
            assert(r[j] == out@[j]@);
        }
        assert forall|i: int| 0 <= i < r.len() implies is_first_of_its_path(s, #[trigger] r[i]) by {
            let m = origin[i];
            assert(s[m] == r[i]);
            assert(first_with_its_path(s, m));
        }
        assert forall|m: int| 0 <= m < s.len() implies #[trigger] path_keys(r).contains(s[m].path) by {
            let i = choose|i: int| 0 <= i < out@.len() && #[trigger] out@[i]@.path == (#[trigger] s[m]).path;
            assert(path_keys(r)[i] == s[m].path);
        }
        assert(deduplicated_by_path(s, r));
    }
    out
}

/// Builds the list of items from what was found on disk and the shortcuts.
pub struct IndexBuilder {
    config: Config,
}

impl IndexBuilder {
    /// The configuration the builder follows.
    pub closed spec fn config(&self) -> Config {
        self.config
    }

    pub fn new(config: Config) -> (r: Self)
        ensures
            r.config() == config,
    {
        IndexBuilder { config }
    }

    /// The items that the shortcuts add, in order.
    pub fn shortcut_items(&self) -> (r: Vec<LauncherItem>)
        ensures
            view_items(r@) == view_shortcuts(self.config().shortcuts@).map_values(
                |sc: ShortcutView| shortcut_item(sc),
            ),
    {
        let shortcuts = &self.config.shortcuts;
        let ghost sv = view_shortcuts(shortcuts@);
        let mut r: Vec<LauncherItem> = Vec::new();
        for i in 0..shortcuts.len()
            invariant
                sv == view_shortcuts(shortcuts@),
                r@.len() == i,
                forall|j: int| 0 <= j < i ==> (#[trigger] r@[j])@ == shortcut_item(sv[j]),
        {
            let sc = &shortcuts[i];
            let mut tags: Vec<String> = Vec::new();
            tags.push(String::from_str("shortcut"));
            let item = LauncherItem {
                id: concat_str("shortcut:", sc.trigger.as_str()),
                title: concat3(sc.trigger.as_str(), " -> ", sc.name.as_str()),
                subtitle: Some(concat_str("Shortcut: ", sc.action_type.as_str())),
                path: None,
                icon_path: copy_opt_string(&sc.icon),
                item_type: ItemType::Command,
                tags,
            };
            assert(item@.tags =~= seq!["shortcut"@]);
            assert(sv[i as int] == sc@);
            r.push(item);
        }
        assert(view_items(r@) =~= sv.map_values(|sc: ShortcutView| shortcut_item(sc)));
        r
    }

    /// The final list: the items found, then those of the shortcuts,
    /// ordered by path with one item per path.
    pub fn build_from(&self, found: Vec<LauncherItem>) -> (r: Vec<LauncherItem>)
        ensures
            deduplicated_by_path(
                view_items(found@) + view_shortcuts(self.config().shortcuts@).map_values(
                    |sc: ShortcutView| shortcut_item(sc),
                ),
                view_items(r@),
            ),
    {
        let mut all = found;
        let ghost f = view_items(all@);
        let mut extra = self.shortcut_items();
        let ghost e = view_items(extra@);
        all.append(&mut extra);
        assert(view_items(all@) =~= f + e);
        dedup_by_path(all)
    }

    /// Whether a file named `name` is left out: its name contains one of the
    /// ignored patterns.
    pub fn should_ignore(&self, name: &str) -> (r: bool)
        ensures
            r == exists|i: int|
                0 <= i < self.config().index.ignored_patterns@.len() && contains(
                    name@,
                    (#[trigger] self.config().index.ignored_patterns@[i])@,
                ),
    {
        let pats = &self.config.index.ignored_patterns;
        for i in 0..pats.len()
            invariant
                pats == &self.config().index.ignored_patterns,
                forall|j: int| 0 <= j < i ==> !contains(name@, (#[trigger] pats@[j])@),
        {
            if str_contains(name, pats[i].as_str()) {
                return true;
            }
        }
        false
    }
}

/// The item for a file at `path` named `name` in the directory `parent`.
pub open spec fn file_item_view(path: Seq<char>, name: Seq<char>, parent: Seq<char>) -> ItemView {
    ItemView {
        id: "file:"@ + path,
        title: name,
        subtitle: Some(parent),
        path: Some(path),
        icon_path: None,
        item_type: ItemType::File,
        tags: Seq::empty(),
    }
}

/// The item for a file at `path` named `name` in the directory `parent`.
pub fn file_item(path: &str, name: &str, parent: &str) -> (r: LauncherItem)
    ensures
        r@ == file_item_view(path@, name@, parent@),
{
    let r = LauncherItem {
        id: concat_str("file:", path),
        title: String::from_str(name),
        subtitle: Some(String::from_str(parent)),
        path: Some(String::from_str(path)),
        icon_path: None,
        item_type: ItemType::File,
        tags: Vec::new(),
    };
    assert(r@.tags =~= Seq::<Seq<char>>::empty());
    r
}

/// The decimal digits of `n`.
pub open spec fn decimal(n: nat) -> Seq<char>
    decreases n,
{
    if n < 10 {
        seq![(48 + n) as char]
    } else {
        decimal(n / 10).push((48 + n % 10) as char)
    }
}

/// `n` written in decimal.
pub fn decimal_string(n: usize) -> (r: String)
    ensures
        r@ == decimal(n as nat),
    decreases n,
{
    if n < 10 {
        let mut s = String::new();
        push_char(&mut s, ((48 + n) as u8) as char);
        assert(s@ =~= decimal(n as nat));
        s
    } else {
        let mut s = decimal_string(n / 10);
        push_char(&mut s, ((48 + n % 10) as u8) as char);
        s
    }
}

/// A name the demo list picks up from the downloads folder: a PDF or text file.
pub open spec fn is_demo_document(name: Seq<char>) -> bool {
    let n = name.len();
    (n >= 4 && name.skip(n - 4) == ".pdf"@) || (n >= 4 && name.skip(n - 4) == ".txt"@)
}

/// Whether `name` ends in `.pdf` or `.txt`.
pub fn demo_document(name: &str) -> (r: bool)
    ensures
        r == is_demo_document(name@),
{
    let v = chars_of(name);
    let n = v.len();
    proof {
        reveal_strlit(".pdf");
        reveal_strlit(".txt");
    }
    if n < 4 {
        return false;
    }
    let pdf = chars_of(".pdf");
    let txt = chars_of(".txt");
    let tail = crate::text::slice_chars(v.as_slice(), n - 4, n);
    assert(tail@ =~= v@.skip(n - 4));
    crate::text::eq_chars(tail.as_slice(), pdf.as_slice()) || crate::text::eq_chars(
        tail.as_slice(),
        txt.as_slice(),
    )
}

/// The demo item for a document found at `path`, named `name`, numbered
/// `count` (the length of the list so far).
pub fn demo_file_item(count: usize, name: &str, path: &str) -> (r: LauncherItem)
    ensures
        r@ == (ItemView {
            id: "file="@ + decimal(count as nat),
            title: name@,
            subtitle: Some("File"@),
            path: Some(path@),
            icon_path: None,
            item_type: ItemType::File,
            tags: Seq::empty(),
        }),
{
    let num = decimal_string(count);
    let r = LauncherItem {
        id: concat_str("file=", num.as_str()),
        title: String::from_str(name),
        subtitle: Some(String::from_str("File")),
        path: Some(String::from_str(path)),
        icon_path: None,
        item_type: ItemType::File,
        tags: Vec::new(),
    };
    assert(r@.tags =~= Seq::<Seq<char>>::empty());
    r
}

/// The fields of a desktop entry (`.desktop` file) that the index reads.
#[derive(Debug)]
pub struct DesktopEntryInfo {
    pub is_application: bool,
    pub name: String,
    pub command: Option<String>,
    pub try_command: Option<String>,
    pub icon: Option<String>,
    pub generic_name: Option<String>,
    pub no_display: Option<bool>,
    pub hidden: Option<bool>,
}

/// A desktop entry's fields as values.
pub struct DesktopEntryView {
    pub is_application: bool,
    pub name: Seq<char>,
    pub command: Option<Seq<char>>,
    pub try_command: Option<Seq<char>>,
    pub icon: Option<Seq<char>>,
    pub generic_name: Option<Seq<char>>,
    pub no_display: Option<bool>,
    pub hidden: Option<bool>,
}

impl View for DesktopEntryInfo {
    type V = DesktopEntryView;

    open spec fn view(&self) -> DesktopEntryView {
        DesktopEntryView {
            is_application: self.is_application,
            name: self.name@,
            command: opt_view(self.command),
            try_command: opt_view(self.try_command),
            icon: opt_view(self.icon),
            generic_name: opt_view(self.generic_name),
            no_display: self.no_display,
            hidden: self.hidden,
        }
    }
}

/// What `freedesktop_file_parser::parse` reads from the text of a desktop
/// file, as far as the index uses it; nothing when it rejects the text.
pub uninterp spec fn desktop_parse(content: Seq<char>) -> Option<DesktopEntryView>;

/// `freedesktop_file_parser::parse`: parses the text of a desktop file and
/// keeps, from its main entry, whether its type is Application, its default
/// name, the Exec and TryExec keys of an application, the icon, the default
/// generic name and the NoDisplay and Hidden flags. Claimed: the result is
/// `desktop_parse` of the text, which depends on the text alone; what that
/// is is not stated.
#[verifier::external_body]
fn parse_desktop_file(content: &str) -> (r: Option<DesktopEntryInfo>)
    ensures
        match r {
            Some(e) => desktop_parse(content@) == Some(e@),
            None => desktop_parse(content@) is None,
        },
{
    let e = freedesktop_file_parser::parse(content).ok()?.entry;
    let (is_application, command, try_command) = match e.entry_type {
        freedesktop_file_parser::EntryType::Application(a) => (true, a.exec, a.try_exec),
        _ => (false, None, None),
    };
    Some(DesktopEntryInfo {
        is_application, name: e.name.default, command, try_command, icon: e.icon.map(|i| i.content),
        generic_name: e.generic_name.map(|g| g.default), no_display: e.no_display, hidden: e.hidden,
    })
}

/// An application found in a desktop file, as the list shows it.
#[derive(Debug)]
pub struct DesktopApp {
    pub name: String,
    pub command: String,
    pub icon_name: String,
    pub tag: String,
}

/// A desktop application as values.
pub struct DesktopAppView {
    pub name: Seq<char>,
    pub command: Seq<char>,
    pub icon_name: Seq<char>,
    pub tag: Seq<char>,
}

impl View for DesktopApp {
    type V = DesktopAppView;

    open spec fn view(&self) -> DesktopAppView {
        DesktopAppView {
            name: self.name@,
            command: self.command@,
            icon_name: self.icon_name@,
            tag: self.tag@,
        }
    }
}

/// The application a desktop entry describes: only an entry of type
/// Application that is neither NoDisplay nor Hidden; its command is Exec,
/// else TryExec, else empty; its icon defaults to the bundled one; its tag
/// is the generic name, else the name.
pub open spec fn desktop_app_of(e: DesktopEntryView) -> Option<DesktopAppView> {
    if !e.is_application || e.no_display == Some(true) || e.hidden == Some(true) {
        None
    } else {
        Some(
            DesktopAppView {
                name: e.name,
                command: match e.command {
                    Some(x) => x,
                    None => match e.try_command {
                        Some(t) => t,
                        None => Seq::empty(),
                    },
                },
                icon_name: match e.icon {
                    Some(i) => i,
                    None => "assets/icons/icon.png"@,
                },
                tag: match e.generic_name {
                    Some(g) => g,
                    None => e.name,
                },
            },
        )
    }
}

/// The item for the desktop file at `file` describing `app`, with the icon found at `icon_path`.
pub open spec fn desktop_item_view(file: Seq<char>, app: DesktopAppView, icon_path: Option<Seq<char>>) -> ItemView {
    ItemView {
        id: "app:"@ + file,
        title: app.name,
        subtitle: Some("Application"@),
        path: Some(app.command),
        icon_path: icon_path,
        item_type: ItemType::Application,
        tags: seq![app.tag],
    }
}

impl DesktopApp {
    /// The application that the entry `e` describes, if it is one to list.
    pub fn from_entry(e: &DesktopEntryInfo) -> (r: Option<DesktopApp>)
        ensures
            match r {
                Some(a) => desktop_app_of(e@) == Some(a@),
                None => desktop_app_of(e@) is None,
            },
    {
        let hidden = match e.hidden {
            Some(h) => h,
            None => false,
        };
        let no_display = match e.no_display {
            Some(h) => h,
            None => false,
        };
        if !e.is_application || no_display || hidden {
            return None;
        }
        let command = match &e.command {
            Some(x) => copy_string(x),
            None => match &e.try_command {
                Some(t) => copy_string(t),
                None => String::new(),
            },
        };
        let icon_name = match &e.icon {
            Some(i) => copy_string(i),
            None => String::from_str("assets/icons/icon.png"),
        };
        let tag = match &e.generic_name {
            Some(g) => copy_string(g),
            None => copy_string(&e.name),
        };
        Some(DesktopApp { name: copy_string(&e.name), command, icon_name, tag })
    }

    /// The application that the text of a desktop file describes, if it
    /// parses and is one to list.
    pub fn from_desktop_file(content: &str) -> (r: Option<DesktopApp>)
        ensures
            match desktop_parse(content@) {
                Some(e) => match r {
                    Some(a) => desktop_app_of(e) == Some(a@),
                    None => desktop_app_of(e) is None,
                },
                None => r is None,
            },
    {
        match parse_desktop_file(content) {
            Some(e) => DesktopApp::from_entry(&e),
            None => None,
        }
    }

    /// The item for this application, read from the desktop file at `file`,
    /// with the icon found at `icon_path`.
    pub fn item(&self, file: &str, icon_path: Option<String>) -> (r: LauncherItem)
        ensures
            r@ == desktop_item_view(file@, self@, opt_view(icon_path)),
    {
        let mut tags: Vec<String> = Vec::new();
        tags.push(copy_string(&self.tag));
        let r = LauncherItem {
            id: concat_str("app:", file),
            title: copy_string(&self.name),
            subtitle: Some(String::from_str("Application")),
            path: Some(copy_string(&self.command)),
            icon_path,
            item_type: ItemType::Application,
            tags,
        };
        assert(r@.tags =~= seq![self.tag@]);
        r
    }
}

/// What an application bundle's `Info.plist` holds under a key: absent
/// (`None`), present but not a string (`Some(None)`), or a string.
pub open spec fn plist_string(v: Option<Option<String>>) -> Option<Option<Seq<char>>> {
    match v {
        None => None,
        Some(None) => Some(None),
        Some(Some(s)) => Some(Some(s@)),
    }
}

/// The keys of an application bundle's `Info.plist` that the index reads.
#[derive(Debug)]
pub struct BundleInfo {
    pub display_name: Option<Option<String>>,
    pub bundle_name: Option<Option<String>>,
    pub icon_file: Option<Option<String>>,
}

/// A bundle's keys as values.
pub struct BundleInfoView {
    pub display_name: Option<Option<Seq<char>>>,
    pub bundle_name: Option<Option<Seq<char>>>,
    pub icon_file: Option<Option<Seq<char>>>,
}

impl View for BundleInfo {
    type V = BundleInfoView;

    open spec fn view(&self) -> BundleInfoView {
        BundleInfoView {
            display_name: plist_string(self.display_name),
            bundle_name: plist_string(self.bundle_name),
            icon_file: plist_string(self.icon_file),
        }
    }
}

/// `CFBundleDisplayName` if the key is present, else `CFBundleName`; a name
/// only if that value is a string.
pub open spec fn bundle_title(b: BundleInfoView) -> Option<Seq<char>> {
    match b.display_name {
        Some(v) => v,
        None => match b.bundle_name {
            Some(v) => v,
            None => None,
        },
    }
}

/// The icon file a bundle names: `CFBundleIconFile`, with `.icns` added
/// when it does not end so.
pub open spec fn bundle_icon(b: BundleInfoView) -> Option<Seq<char>> {
    match b.icon_file {
        Some(Some(n)) => Some(
            if n.len() >= 5 && n.skip(n.len() - 5) == ".icns"@ {
                n
            } else {
                n + ".icns"@
            },
        ),
        _ => None,
    }
}

/// What `plist` reads from the bytes of an `Info.plist` under the three
/// keys; all absent when the bytes are not a property list holding a
/// dictionary.
pub uninterp spec fn info_plist(content: Seq<u8>) -> BundleInfoView;

/// `plist::Value::from_reader` on the bytes, then, from the dictionary it
/// holds, `get` of `CFBundleDisplayName`, `CFBundleName` and
/// `CFBundleIconFile` with `as_string`. Claimed: the result is
/// `info_plist` of the bytes, which depends on them alone; what that is is
/// not stated.
#[verifier::external_body]
fn read_info_plist(content: &[u8]) -> (r: BundleInfo)
    ensures
        r@ == info_plist(content@),
{
    let value = plist::Value::from_reader(std::io::Cursor::new(content)).ok();
    let dict = value.as_ref().and_then(|v| v.as_dictionary());
    let key = |k: &str| dict.and_then(|d| d.get(k)).map(|v| v.as_string().map(|s| s.to_string()));
    BundleInfo {
        display_name: key("CFBundleDisplayName"),
        bundle_name: key("CFBundleName"),
        icon_file: key("CFBundleIconFile"),
    }
}

/// The display name and icon file name that the bytes of an application
/// bundle's `Info.plist` give.
pub fn parse_info_plist(content: &[u8]) -> (r: (Option<String>, Option<String>))
    ensures
        opt_view(r.0) == bundle_title(info_plist(content@)),
        opt_view(r.1) == bundle_icon(info_plist(content@)),
{
    read_info_plist(content).title_and_icon()
}

impl BundleInfo {
    /// The bundle's display name and icon file name.
    pub fn title_and_icon(&self) -> (r: (Option<String>, Option<String>))
        ensures
            opt_view(r.0) == bundle_title(self@),
            opt_view(r.1) == bundle_icon(self@),
    {
        let chosen = match &self.display_name {
            Some(v) => v,
            None => match &self.bundle_name {
                Some(v) => v,
                None => &None,
            },
        };
        let title = copy_opt_string(chosen);
        let icon = match &self.icon_file {
            Some(Some(n)) => {
                let v = chars_of(n.as_str());
                let len = v.len();
                proof {
                    reveal_strlit(".icns");
                }
                let ends = if len >= 5 {
                    let tail = crate::text::slice_chars(v.as_slice(), len - 5, len);
                    let suffix = chars_of(".icns");
                    assert(tail@ =~= v@.skip(len - 5));
                    crate::text::eq_chars(tail.as_slice(), suffix.as_slice())
                } else {
                    false
                };
                if ends {
                    Some(copy_string(n))
                } else {
                    Some(concat_str(n.as_str(), ".icns"))
                }
            },
            _ => None,
        };
        (title, icon)
    }
}

/// The icon of `size` pixels square in the bytes of an `.icns` file, as
/// its width and RGBA pixels; nothing when the file has no such icon.
pub uninterp spec fn icns_icon(content: Seq<u8>, size: u32) -> Option<(u32, Seq<u8>)>;

/// The PNG encoding of the square RGBA image of side `side`; nothing when
/// the pixels do not fill it.
pub uninterp spec fn png_of(side: u32, rgba: Seq<u8>) -> Option<Seq<u8>>;

/// `icns::IconFamily::read` of the bytes, then `get_icon_with_type` with
/// the RGBA32 type of `size` pixels (128, 64 or 32), `width` and
/// `into_data`. Claimed: the result is `icns_icon` of the bytes and size,
/// which depends on them alone; what that is is not stated.
#[verifier::external_body]
fn read_icns_icon(content: &[u8], size: u32) -> (r: Option<(u32, Vec<u8>)>)
    requires
        size == 128 || size == 64 || size == 32,
    ensures
        match r {
            Some((w, d)) => icns_icon(content@, size) == Some((w, d@)),
            None => icns_icon(content@, size) is None,
        },
{
    let kind = match size {
        128 => icns::IconType::RGBA32_128x128,
        64 => icns::IconType::RGBA32_64x64,
        _ => icns::IconType::RGBA32_32x32,
    };
    let family = icns::IconFamily::read(std::io::Cursor::new(content)).ok()?;
    let image = family.get_icon_with_type(kind).ok()?;
    Some((image.width(), image.into_data().to_vec()))
}

/// `image::RgbaImage::from_raw(side, side, rgba)` and `write_to` with the
/// PNG format into a byte buffer. Claimed: the result is `png_of` of the
/// side and pixels, which depends on them alone; what that is is not stated.
#[verifier::external_body]
fn encode_png(side: u32, rgba: Vec<u8>) -> (r: Option<Vec<u8>>)
    ensures
        match r {
            Some(b) => png_of(side, rgba@) == Some(b@),
            None => png_of(side, rgba@) is None,
        },
{
    let image = image::RgbaImage::from_raw(side, side, rgba)?;
    let mut out = std::io::Cursor::new(Vec::new());
    image.write_to(&mut out, image::ImageFormat::Png).ok()?;
    Some(out.into_inner())
}

/// The icon an `.icns` file offers for the list: the 128-pixel one, else
/// the 64-pixel one, else the 32-pixel one.
pub open spec fn icns_choice(content: Seq<u8>) -> Option<(u32, Seq<u8>)> {
    if icns_icon(content, 128) is Some {
        icns_icon(content, 128)
    } else if icns_icon(content, 64) is Some {
        icns_icon(content, 64)
    } else {
        icns_icon(content, 32)
    }
}

/// The chosen icon of an `.icns` file, encoded as PNG.
pub open spec fn icns_png(content: Seq<u8>) -> Option<Seq<u8>> {
    match icns_choice(content) {
        Some((w, d)) => png_of(w, d),
        None => None,
    }
}

/// The PNG bytes for the icon in the bytes of an `.icns` file.
pub fn icns_to_png(content: &[u8]) -> (r: Option<Vec<u8>>)
    ensures
        match r {
            Some(b) => icns_png(content@) == Some(b@),
            None => icns_png(content@) is None,
        },
{
    let chosen = match read_icns_icon(content, 128) {
        Some(x) => Some(x),
        None => match read_icns_icon(content, 64) {
            Some(x) => Some(x),
            None => read_icns_icon(content, 32),
        },
    };
    match chosen {
        Some((w, d)) => encode_png(w, d),
        None => None,
    }
}

/// The item for the application bundle at `path`: titled by its display
/// name, else by `stem` (the bundle's name without extension), else "Unknown".
pub open spec fn bundle_item_view(
    path: Seq<char>,
    title: Option<Seq<char>>,
    stem: Option<Seq<char>>,
    icon_path: Option<Seq<char>>,
) -> ItemView {
    ItemView {
        id: "app:"@ + path,
        title: match title {
            Some(t) => t,
            None => match stem {
                Some(s) => s,
                None => "Unknown"@,
            },
        },
        subtitle: Some("Application"@),
        path: Some(path),
        icon_path: icon_path,
        item_type: ItemType::Application,
        tags: seq!["app"@],
    }
}

/// The item for the application bundle at `path`.
pub fn bundle_item(path: &str, title: Option<String>, stem: Option<String>, icon_path: Option<String>) -> (r: LauncherItem)
    ensures
        r@ == bundle_item_view(path@, opt_view(title), opt_view(stem), opt_view(icon_path)),
{
    let t = match title {
        Some(t) => t,
        None => match stem {
            Some(s) => s,
            None => String::from_str("Unknown"),
        },
    };
    let mut tags: Vec<String> = Vec::new();
    tags.push(String::from_str("app"));
    let r = LauncherItem {
        id: concat_str("app:", path),
        title: t,
        subtitle: Some(String::from_str("Application")),
        path: Some(String::from_str(path)),
        icon_path,
        item_type: ItemType::Application,
        tags,
    };
    assert(r@.tags =~= seq!["app"@]);
    r
}

/// The fixed items of the demo list.
pub open spec fn demo_items_view() -> Seq<ItemView> {
    seq![
        ItemView {
            id: "1"@,
            title: "Zed"@,
            subtitle: Some("Code Editor"@),
            path: Some("/usr/bin/zed"@),
            icon_path: None,
            item_type: ItemType::Application,
            tags: seq!["code"@, "editor"@],
        },
        ItemView {
            id: "2"@,
            title: "Firefox"@,
            subtitle: Some("Web Browser"@),
            path: Some("/opt/firefox/firefox"@),
            icon_path: None,
            item_type: ItemType::Application,
            tags: seq!["browser"@],
        },
        ItemView {
            id: "3"@,
            title: "Spotify"@,
            subtitle: Some("Streaming Music"@),
            path: Some("/local/bin/spotify"@),
            icon_path: None,
            item_type: ItemType::Application,
            tags: seq!["Music"@, "Songs"@],
        },
    ]
}

/// An application item of the demo list.
fn demo_app(id: &str, title: &str, subtitle: &str, path: &str, tags: Vec<String>) -> (r: LauncherItem)
    ensures
        r@ == (ItemView {
            id: id@,
            title: title@,
            subtitle: Some(subtitle@),
            path: Some(path@),
            icon_path: None,
            item_type: ItemType::Application,
            tags: tags.deep_view(),
        }),
{
    LauncherItem {
        id: String::from_str(id),
        title: String::from_str(title),
        subtitle: Some(String::from_str(subtitle)),
        path: Some(String::from_str(path)),
        icon_path: None,
        item_type: ItemType::Application,
        tags,
    }
}

impl IndexBuilder {
    /// The fixed items of the demo list, before the documents found in the
    /// downloads folder.
    pub fn demo_items() -> (r: Vec<LauncherItem>)
        ensures
            view_items(r@) == demo_items_view(),
    {
        let mut t1: Vec<String> = Vec::new();
        t1.push(String::from_str("code"));
        t1.push(String::from_str("editor"));
        let mut t2: Vec<String> = Vec::new();
        t2.push(String::from_str("browser"));
        let mut t3: Vec<String> = Vec::new();
        t3.push(String::from_str("Music"));
        t3.push(String::from_str("Songs"));
        assert(t1.deep_view() =~= seq!["code"@, "editor"@]);
        assert(t2.deep_view() =~= seq!["browser"@]);
        assert(t3.deep_view() =~= seq!["Music"@, "Songs"@]);
        let mut r: Vec<LauncherItem> = Vec::new();
        r.push(demo_app("1", "Zed", "Code Editor", "/usr/bin/zed", t1));
        r.push(demo_app("2", "Firefox", "Web Browser", "/opt/firefox/firefox", t2));
        r.push(demo_app("3", "Spotify", "Streaming Music", "/local/bin/spotify", t3));
        assert(view_items(r@) =~= demo_items_view());
        r
    }

    /// The demo list: its fixed items, then, in the order given, each
    /// document among `entries` (pairs of a file name and its path, as found
    /// in the downloads folder), numbered by the length of the list so far.
    pub fn build_demo_index(entries: Vec<(String, String)>) -> (r: Vec<LauncherItem>)
        ensures
            view_items(r@) == demo_documents(
                demo_items_view(),
                entries@.map_values(|e: (String, String)| (e.0@, e.1@)),
            ),
    {
        let mut r = IndexBuilder::demo_items();
        let ghost es = entries@.map_values(|e: (String, String)| (e.0@, e.1@));
        for i in 0..entries.len()
            invariant
                es == entries@.map_values(|e: (String, String)| (e.0@, e.1@)),
                view_items(r@) == demo_documents(demo_items_view(), es.take(i as int)),
        {
            assert(es.take(i + 1).drop_last() =~= es.take(i as int));
            let name = entries[i].0.as_str();
            let path = entries[i].1.as_str();
            if demo_document(name) {
                let n = r.len();
                let item = demo_file_item(n, name, path);
                r.push(item);
                assert(view_items(r@) =~= demo_documents(demo_items_view(), es.take(i as int)).push(
                    demo_document_item(n as nat, name@, path@),
                ));
            }
        }
        assert(es.take(entries.len() as int) =~= es);
        r
    }
}

/// The demo item for the document `name` at `path`, numbered `count`.
pub open spec fn demo_document_item(count: nat, name: Seq<char>, path: Seq<char>) -> ItemView {
    ItemView {
        id: "file="@ + decimal(count),
        title: name,
        subtitle: Some("File"@),
        path: Some(path),
        icon_path: None,
        item_type: ItemType::File,
        tags: Seq::empty(),
    }
}

/// `base` followed by an item for each document among `entries` (name and
/// path), each numbered by the length of the list before it.
pub open spec fn demo_documents(base: Seq<ItemView>, entries: Seq<(Seq<char>, Seq<char>)>) -> Seq<ItemView>
    decreases entries.len(),
{
    if entries.len() == 0 {
        base
    } else {
        let prev = demo_documents(base, entries.drop_last());
        let (name, path) = entries.last();
        if is_demo_document(name) {
            prev.push(demo_document_item(prev.len(), name, path))
        } else {
            prev
        }
    }
}

} // verus!
