//! The items the launcher offers, and the filter over them.
use vstd::prelude::*;

use crate::text::{copy_opt_string, copy_string, copy_strings, opt_view, starts_with, str_starts_with};

verus! {

/// What kind of thing an item launches.
#[derive(Clone, Copy, Debug, PartialEq, Eq, Structural)]
pub enum ItemType {
    Application,
    File,
    Folder,
    Command,
    Script,
    Url,
}

impl Default for ItemType {
    fn default() -> (r: Self)
        ensures
            r == ItemType::Command,
    {
        ItemType::Command
    }
}

/// One entry of the launcher's list.
#[derive(Debug)]
pub struct LauncherItem {
    pub id: String,
    pub title: String,
    pub subtitle: Option<String>,
    pub path: Option<String>,
    pub icon_path: Option<String>,
    pub item_type: ItemType,
    pub tags: Vec<String>,
}

/// A launcher item as values: its strings as character sequences.
pub struct ItemView {
    pub id: Seq<char>,
    pub title: Seq<char>,
    pub subtitle: Option<Seq<char>>,
    pub path: Option<Seq<char>>,
    pub icon_path: Option<Seq<char>>,
    pub item_type: ItemType,
    pub tags: Seq<Seq<char>>,
}

impl View for LauncherItem {
    type V = ItemView;

    open spec fn view(&self) -> ItemView {
        ItemView {
            id: self.id@,
            title: self.title@,
            subtitle: opt_view(self.subtitle),
            path: opt_view(self.path),
            icon_path: opt_view(self.icon_path),
            item_type: self.item_type,
            tags: self.tags.deep_view(),
        }
    }
}

/// The views of a sequence of items.
pub open spec fn view_items(s: Seq<LauncherItem>) -> Seq<ItemView> {
    s.map_values(|i: LauncherItem| i@)
}

impl Clone for LauncherItem {
    fn clone(&self) -> (r: Self)
        ensures
            r@ == self@,
    {
        LauncherItem {
            id: copy_string(&self.id),
            title: copy_string(&self.title),
            subtitle: copy_opt_string(&self.subtitle),
            path: copy_opt_string(&self.path),
            icon_path: copy_opt_string(&self.icon_path),
            item_type: self.item_type,
            tags: copy_strings(&self.tags),
        }
    }
}

impl Default for LauncherItem {
    fn default() -> (r: Self)
        ensures
            r@ == (ItemView {
                id: Seq::empty(),
                title: Seq::empty(),
                subtitle: None,
                path: None,
                icon_path: None,
                item_type: ItemType::Command,
                tags: Seq::empty(),
            }),
    {
        let r = LauncherItem {
            id: String::new(),
            title: String::new(),
            subtitle: None,
            path: None,
            icon_path: None,
            item_type: ItemType::default(),
            tags: Vec::new(),
        };
        assert(r.tags.deep_view() =~= Seq::<Seq<char>>::empty());
        r
    }
}

/// A copy of the items `v`.
pub fn copy_items(v: &Vec<LauncherItem>) -> (r: Vec<LauncherItem>)
    ensures
        view_items(r@) == view_items(v@),
{
    let mut r: Vec<LauncherItem> = Vec::new();
    for i in 0..v.len()
        invariant
            r@.len() == i,
            forall|j: int| 0 <= j < i ==> #[trigger] r@[j]@ == v@[j]@,
    {
        r.push(v[i].clone());
    }
    assert(view_items(r@) =~= view_items(v@));
    r
}

/// Which items the list shows.
#[derive(Clone, Copy, Debug, PartialEq, Eq, Structural)]
pub enum FilterMode {
    All,
    Applications,
    Files,
    Shortcuts,
}

impl Default for FilterMode {
    fn default() -> (r: Self)
        ensures
            r == FilterMode::All,
    {
        FilterMode::All
    }
}

/// The filter that follows `m` in the cycle All, Applications, Files, Shortcuts.
pub open spec fn next_mode(m: FilterMode) -> FilterMode {
    match m {
        FilterMode::All => FilterMode::Applications,
        FilterMode::Applications => FilterMode::Files,
        FilterMode::Files => FilterMode::Shortcuts,
        FilterMode::Shortcuts => FilterMode::All,
    }
}

/// The prefix of the ids of shortcut items.
pub open spec fn shortcut_id_prefix() -> Seq<char> {
    seq!['s', 'h', 'o', 'r', 't', 'c', 'u', 't', ':']
}

/// Whether the filter `m` lets an item through.
pub open spec fn admits(m: FilterMode, item: ItemView) -> bool {
    match m {
        FilterMode::All => true,
        FilterMode::Applications => item.item_type == ItemType::Application,
        FilterMode::Files => item.item_type == ItemType::File,
        FilterMode::Shortcuts => starts_with(item.id, shortcut_id_prefix()),
    }
}

impl FilterMode {
    pub fn next(&self) -> (r: Self)
        ensures
            r == next_mode(*self),
    {
        match self {
            FilterMode::All => FilterMode::Applications,
            FilterMode::Applications => FilterMode::Files,
            FilterMode::Files => FilterMode::Shortcuts,
            FilterMode::Shortcuts => FilterMode::All,
        }
    }

    pub fn label(&self) -> (r: &'static str)
        ensures
            *self == FilterMode::All ==> r@ == "All"@,
            *self == FilterMode::Applications ==> r@ == "Applications"@,
            *self == FilterMode::Files ==> r@ == "Files"@,
            *self == FilterMode::Shortcuts ==> r@ == "Shortcuts"@,
    {
        match self {
            FilterMode::All => "All",
            FilterMode::Applications => "Applications",
            FilterMode::Files => "Files",
            FilterMode::Shortcuts => "Shortcuts",
        }
    }

    /// Whether this filter lets `item` through.
    pub fn admits(&self, item: &LauncherItem) -> (b: bool)
        ensures
            b == admits(*self, item@),
    {
        match self {
            FilterMode::All => true,
            FilterMode::Applications => item.item_type == ItemType::Application,
            FilterMode::Files => item.item_type == ItemType::File,
            FilterMode::Shortcuts => {
                proof {
                    reveal_strlit("shortcut:");
                    assert("shortcut:"@ =~= shortcut_id_prefix());
                }
                str_starts_with(item.id.as_str(), "shortcut:")
            },
        }
    }
}

/// Four steps of `next` come back to where they started, and no fewer do.
pub proof fn lemma_next_cycles(m: FilterMode)
    ensures
        next_mode(next_mode(next_mode(next_mode(m)))) == m,
        next_mode(m) != m,
        next_mode(next_mode(m)) != m,
        next_mode(next_mode(next_mode(m))) != m,
{
}

} // verus!
