//! The launcher's decisions: how each key press or event changes what is
//! typed, listed and selected, and what is to be done. The window, the
//! calculator's evaluation and the running of actions are left to the caller.
use vstd::prelude::*;

use crate::actions::{
    Action, ActionHandler, ActionView, CalculatorEngine, action_for, create_special_item,
    looks_like_math, special_item,
};
use crate::config::{Config, Platform, ShortcutConfig, ShortcutView};
use crate::models::{ItemType, ItemView, LauncherItem, view_items};
use crate::search::SearchEngine;
use crate::shortcuts::{
    CommandModeState, CommandView, ShortcutEngine, command_action, command_mode_for, detection,
    hint_parts, join_spaced, with_prefix,
};
use crate::text::{
    chars_of, concat3, concat_str, contains, copy_string, has_char, has_char_exec, opt_view,
    slice_chars, starts_with, str_contains, str_starts_with, string_of, trim, trim_chars,
    trim_str,
};

verus! {

/// Whether the query is typed freely or fills the slots of a command.
#[derive(Clone, Copy, Debug, PartialEq, Eq, Structural)]
pub enum InputMode {
    Normal,
    Command,
}

/// A listed item and its rank (larger first; the matcher's own results rank 0).
#[derive(Debug)]
pub struct Scored {
    pub item: LauncherItem,
    pub score: u32,
}

/// The views of listed items and their ranks.
pub open spec fn view_scored(s: Seq<Scored>) -> Seq<(ItemView, u32)> {
    s.map_values(|x: Scored| (x.item@, x.score))
}

/// Every listed item with rank `score`.
pub open spec fn ranked(s: Seq<ItemView>, score: u32) -> Seq<(ItemView, u32)> {
    s.map_values(|i: ItemView| (i, score))
}

/// An event the launcher reacts to.
#[derive(Debug)]
pub enum Message {
    QueryChanged(String),
    SelectUp,
    SelectDown,
    Execute,
    CopySelected,
    Hide,
    Show,
    Tab,
    ClickSelect(usize),
    /// The window lost focus; `true` when it was shown only a moment ago.
    WindowUnfocused(bool),
}

/// What the caller is to do after an event.
#[derive(Debug)]
pub enum Effect {
    Nothing,
    /// Scroll the list so that the selected item shows.
    Scroll,
    /// Run the action.
    Perform(Action),
    /// Run the action, if any, then handle a `Hide` event.
    PerformAndHide(Option<Action>),
    /// Handle a `Hide` event.
    RequestHide,
    HideWindow,
    ShowWindow,
}

/// An effect as values.
pub enum EffectView {
    Nothing,
    Scroll,
    Perform(ActionView),
    PerformAndHide(Option<ActionView>),
    RequestHide,
    HideWindow,
    ShowWindow,
}

impl View for Effect {
    type V = EffectView;

    open spec fn view(&self) -> EffectView {
        match self {
            Effect::Nothing => EffectView::Nothing,
            Effect::Scroll => EffectView::Scroll,
            Effect::Perform(a) => EffectView::Perform(a@),
            Effect::PerformAndHide(a) => EffectView::PerformAndHide(
                match a {
                    Some(x) => Some(x@),
                    None => None,
                },
            ),
            Effect::RequestHide => EffectView::RequestHide,
            Effect::HideWindow => EffectView::HideWindow,
            Effect::ShowWindow => EffectView::ShowWindow,
        }
    }
}

/// The effect of an event, and whether the list is to be recomputed
/// (with `update_results`) before the effect is carried out.
#[derive(Debug)]
pub struct Outcome {
    pub effect: Effect,
    pub refresh: bool,
}

/// The launcher's state.
pub struct Launcher {
    pub search_engine: SearchEngine,
    pub shortcut_engine: ShortcutEngine,
    pub platform: Platform,
    pub query: String,
    pub results: Vec<Scored>,
    pub selected: usize,
    pub is_visible: bool,
    pub pending_shortcut: Option<Action>,
    pub mode: InputMode,
    pub command_state: Option<CommandModeState>,
    pub calc_result: Option<String>,
}

/// The launcher's state as values.
pub struct LauncherView {
    pub query: Seq<char>,
    pub results: Seq<(ItemView, u32)>,
    pub selected: int,
    pub is_visible: bool,
    pub pending_shortcut: Option<ActionView>,
    pub mode: InputMode,
    pub command_state: Option<CommandView>,
    pub calc_result: Option<Seq<char>>,
}

impl View for Launcher {
    type V = LauncherView;

    open spec fn view(&self) -> LauncherView {
        LauncherView {
            query: self.query@,
            results: view_scored(self.results@),
            selected: self.selected as int,
            is_visible: self.is_visible,
            pending_shortcut: match self.pending_shortcut {
                Some(a) => Some(a@),
                None => None,
            },
            mode: self.mode,
            command_state: match self.command_state {
                Some(c) => Some(c@),
                None => None,
            },
            calc_result: opt_view(self.calc_result),
        }
    }
}

/// What the active slot of a command holds.
pub open spec fn active_value_of(c: CommandView) -> Seq<char> {
    if 0 <= c.active_slot < c.slots.len() {
        c.slots[c.active_slot].value
    } else {
        Seq::empty()
    }
}

/// `s` with `p` removed from its front as many times as it is there
/// (`str::trim_start_matches`).
pub open spec fn strip_prefixes(s: Seq<char>, p: Seq<char>) -> Seq<char>
    decreases s.len(),
{
    if p.len() > 0 && starts_with(s, p) {
        strip_prefixes(s.skip(p.len() as int), p)
    } else {
        s
    }
}

/// The state after entering command mode with `c`.
pub open spec fn entered(v: LauncherView, c: CommandView) -> LauncherView {
    LauncherView { mode: InputMode::Command, command_state: Some(c), query: active_value_of(c), ..v }
}

/// The state after hiding or showing the window: nothing typed, normal
/// mode, first item selected, no pending shortcut.
pub open spec fn reset(v: LauncherView, visible: bool) -> LauncherView {
    LauncherView {
        is_visible: visible,
        query: Seq::empty(),
        mode: InputMode::Normal,
        command_state: None,
        selected: 0,
        pending_shortcut: None,
        ..v
    }
}

/// The next state, the effect, and whether the list is to be recomputed,
/// when the launcher in state `v` with shortcuts `shs` on platform `p`
/// receives a message. `text` is the text of a `QueryChanged` message and
/// `index` the index of a `ClickSelect` or the flag of `WindowUnfocused`
/// (as 1 or 0).
pub open spec fn step(
    v: LauncherView,
    m: MessageKind,
    text: Seq<char>,
    index: int,
    shs: Seq<ShortcutView>,
    p: Platform,
) -> (LauncherView, EffectView, bool) {
    match m {
        MessageKind::QueryChanged => {
            if v.mode == InputMode::Command {
                let c = match v.command_state {
                    Some(c) => Some(
                        if 0 <= c.active_slot < c.slots.len() {
                            CommandView {
                                slots: c.slots.update(
                                    c.active_slot,
                                    crate::shortcuts::SlotView {
                                        name: c.slots[c.active_slot].name,
                                        value: text,
                                    },
                                ),
                                ..c
                            }
                        } else {
                            c
                        },
                    ),
                    None => None,
                };
                (LauncherView { command_state: c, query: text, ..v }, EffectView::Nothing, true)
            } else if text.len() > 0 && text[0] == '>' && has_char(trim(text.drop_first()), ' ')
                && command_mode_for(shs, text) is Some {
                (entered(v, command_mode_for(shs, text)->0), EffectView::Nothing, true)
            } else {
                (LauncherView { query: text, ..v }, EffectView::Nothing, true)
            }
        },
        MessageKind::SelectUp => (
            LauncherView { selected: if v.selected > 0 { v.selected - 1 } else { 0 }, ..v },
            EffectView::Scroll,
            false,
        ),
        MessageKind::SelectDown => if v.results.len() > 0 {
            (
                LauncherView {
                    selected: if v.selected + 1 < v.results.len() - 1 {
                        v.selected + 1
                    } else {
                        v.results.len() - 1
                    },
                    ..v
                },
                EffectView::Scroll,
                false,
            )
        } else {
            (v, EffectView::Nothing, false)
        },
        MessageKind::Execute => (v, EffectView::PerformAndHide(execution(v, p)), false),
        MessageKind::CopySelected => if 0 <= v.selected < v.results.len() {
            (v, EffectView::Perform(copy_of(v.results[v.selected].0)), false)
        } else {
            (v, EffectView::Nothing, false)
        },
        MessageKind::Hide => (reset(v, false), EffectView::HideWindow, true),
        MessageKind::Show => (reset(v, true), EffectView::ShowWindow, true),
        MessageKind::Tab => if v.mode == InputMode::Command {
            match v.command_state {
                Some(c) => if c.slots.len() > 1 && c.active_slot + 1 < c.slots.len() {
                    let c2 = CommandView { active_slot: c.active_slot + 1, ..c };
                    (
                        LauncherView { command_state: Some(c2), query: active_value_of(c2), ..v },
                        EffectView::Nothing,
                        true,
                    )
                } else {
                    (v, EffectView::Nothing, false)
                },
                None => (v, EffectView::Nothing, false),
            }
        } else if 0 <= v.selected < v.results.len() && starts_with(
            v.results[v.selected].0.id,
            "shortcut:"@,
        ) {
            let t = strip_prefixes(v.results[v.selected].0.id, "shortcut:"@);
            let prefixed = "> "@ + t + " "@;
            match command_mode_for(shs, prefixed) {
                Some(c) => (entered(v, c), EffectView::Nothing, true),
                None => (v, EffectView::Nothing, false),
            }
        } else {
            (v, EffectView::Nothing, false)
        },
        MessageKind::ClickSelect => (
            LauncherView {
                selected: if index < v.results.len() {
                    index
                } else if v.results.len() > 0 {
                    v.results.len() - 1
                } else {
                    0
                },
                ..v
            },
            EffectView::Nothing,
            false,
        ),
        MessageKind::WindowUnfocused => if v.is_visible && index == 0 {
            (v, EffectView::RequestHide, false)
        } else {
            (v, EffectView::Nothing, false)
        },
    }
}

/// The kinds of messages.
pub enum MessageKind {
    QueryChanged,
    SelectUp,
    SelectDown,
    Execute,
    CopySelected,
    Hide,
    Show,
    Tab,
    ClickSelect,
    WindowUnfocused,
}

/// The kind, text and number a message carries.
pub open spec fn message_parts(m: Message) -> (MessageKind, Seq<char>, int) {
    match m {
        Message::QueryChanged(s) => (MessageKind::QueryChanged, s@, 0),
        Message::SelectUp => (MessageKind::SelectUp, Seq::empty(), 0),
        Message::SelectDown => (MessageKind::SelectDown, Seq::empty(), 0),
        Message::Execute => (MessageKind::Execute, Seq::empty(), 0),
        Message::CopySelected => (MessageKind::CopySelected, Seq::empty(), 0),
        Message::Hide => (MessageKind::Hide, Seq::empty(), 0),
        Message::Show => (MessageKind::Show, Seq::empty(), 0),
        Message::Tab => (MessageKind::Tab, Seq::empty(), 0),
        Message::ClickSelect(i) => (MessageKind::ClickSelect, Seq::empty(), i as int),
        Message::WindowUnfocused(b) => (
            MessageKind::WindowUnfocused,
            Seq::empty(),
            if b {
                1
            } else {
                0
            },
        ),
    }
}

/// Copying an item: its path, or its title.
pub open spec fn copy_of(item: ItemView) -> ActionView {
    ActionView::CopyToClipboard(
        match item.path {
            Some(p) => p,
            None => item.title,
        },
    )
}

/// What pressing Enter runs: the command in command mode, else the pending
/// shortcut, else the selected item (copied, for a sum).
pub open spec fn execution(v: LauncherView, p: Platform) -> Option<ActionView> {
    if v.mode == InputMode::Command {
        match v.command_state {
            Some(c) => Some(command_action(c.action_type, c.template, c.slots, p)),
            None => None,
        }
    } else {
        match v.pending_shortcut {
            Some(a) => Some(a),
            None => if 0 <= v.selected < v.results.len() {
                let item = v.results[v.selected].0;
                if contains(item.id, "calc:"@) {
                    Some(copy_of(item))
                } else {
                    Some(action_for(item))
                }
            } else {
                None
            },
        }
    }
}

/// The query is a sum the calculator answered.
pub open spec fn calculated(query: Seq<char>, evaluation: Option<Seq<char>>) -> bool {
    let q = trim(query);
    q.len() > 0 && looks_like_math(q) && evaluation is Some
}

/// What is listed for a query that names no shortcut and is not a sum the
/// calculator answered: every item for a blank query; else the item the
/// query stands for; else, after `>`, the shortcuts whose trigger begins
/// with the rest; else some of the items, at rank 0.
pub open spec fn listed(
    query: Seq<char>,
    evaluation: Option<Seq<char>>,
    items: Seq<ItemView>,
    shs: Seq<ShortcutView>,
    results: Seq<(ItemView, u32)>,
) -> bool {
    if trim(query).len() == 0 {
        results == ranked(items, 0)
    } else {
        match special_item(query, evaluation) {
            Some(it) => results == seq![(it, 100u32)],
            None => if query.len() > 0 && query[0] == '>' && with_prefix(
                shs,
                trim(query.drop_first()),
            ).len() > 0 {
                results == ranked(
                    with_prefix(shs, trim(query.drop_first())).map_values(
                        |sc: ShortcutView| suggestion_item(sc),
                    ),
                    90,
                )
            } else {
                forall|i: int|
                    0 <= i < results.len() ==> (#[trigger] results[i]).1 == 0 && items.contains(
                        results[i].0,
                    )
            },
        }
    }
}

/// The item shown in command mode.
pub open spec fn command_item(c: CommandView) -> ItemView {
    let hint = join_spaced(hint_parts(c.slots, c.active_slot));
    let tip = if c.slots.len() > 1 && c.active_slot < c.slots.len() - 1 {
        "Tab -> next slot | Enter to run | "@ + hint
    } else {
        "Enter to run | "@ + hint
    };
    ItemView {
        id: "cmd:"@ + c.trigger,
        title: "⌘ "@ + c.shortcut_name + " - "@ + c.trigger,
        subtitle: Some(tip),
        path: None,
        icon_path: None,
        item_type: ItemType::Command,
        tags: Seq::empty(),
    }
}

/// The item showing the calculator's answer `res` for the query `q`.
pub open spec fn calc_item(q: Seq<char>, res: Seq<char>) -> ItemView {
    ItemView {
        id: "calc:"@ + q,
        title: "= "@ + res,
        subtitle: Some(q + " -> "@ + res),
        path: Some(res),
        icon_path: None,
        item_type: ItemType::Command,
        tags: seq!["calc"@],
    }
}

/// The item for a shortcut recognised in the query.
pub open spec fn detected_item(name: Seq<char>, trigger: Seq<char>) -> ItemView {
    ItemView {
        id: "shortcut:"@ + trigger,
        title: "> "@ + name + " - "@ + trigger,
        subtitle: Some("Press Enter to run | Tab for command mode (slot filling)"@),
        path: None,
        icon_path: None,
        item_type: ItemType::Command,
        tags: Seq::empty(),
    }
}

/// The item suggesting a shortcut whose trigger begins with what follows `>`.
pub open spec fn suggestion_item(sc: ShortcutView) -> ItemView {
    ItemView {
        id: "shortcut:"@ + sc.trigger,
        title: "> "@ + sc.name + " ("@ + sc.trigger + ")"@,
        subtitle: Some("Tab to fill slots · action: "@ + sc.action_type),
        path: None,
        icon_path: None,
        item_type: ItemType::Command,
        tags: Seq::empty(),
    }
}

/// `s` without as many copies of `p` at its front as there are.
fn strip_prefixes_exec(s: &[char], p: &[char]) -> (r: Vec<char>)
    ensures
        r@ == strip_prefixes(s@, p@),
{
    let mut i: usize = 0;
    let len = s.len();
    assert(s@.skip(0) =~= s@);
    if p.len() == 0 {
        return slice_chars(s, 0, len);
    }
    while crate::text::occurs_at_exec(s, p, i)
        invariant
            i <= len == s@.len(),
            p@.len() > 0,
            strip_prefixes(s@, p@) == strip_prefixes(s@.skip(i as int), p@),
        decreases len - i,
    {
        assert(s@.skip(i as int).take(p@.len() as int) =~= s@.subrange(i as int, i + p@.len()));
        assert(s@.skip(i as int).skip(p@.len() as int) =~= s@.skip(i + p@.len()));
        i = i + p.len();
    }
    proof {
        if i + p@.len() <= len {
            assert(s@.skip(i as int).take(p@.len() as int) =~= s@.subrange(i as int, i + p@.len()));
        }
    }
    let r = slice_chars(s, i, len);
    assert(r@ =~= s@.skip(i as int));
    r
}

/// A listed item with its rank.
fn scored(item: LauncherItem, score: u32) -> (r: Scored)
    ensures
        r.item@ == item@,
        r.score == score,
{
    Scored { item, score }
}

/// An item with nothing but an id, title and subtitle.
fn plain_item(id: String, title: String, subtitle: String) -> (r: LauncherItem)
    ensures
        r@ == (ItemView {
            id: id@,
            title: title@,
            subtitle: Some(subtitle@),
            path: None,
            icon_path: None,
            item_type: ItemType::Command,
            tags: Seq::empty(),
        }),
{
    let r = LauncherItem {
        id,
        title,
        subtitle: Some(subtitle),
        path: None,
        icon_path: None,
        item_type: ItemType::Command,
        tags: Vec::new(),
    };
    assert(r@.tags =~= Seq::<Seq<char>>::empty());
    r
}

/// `s` without the items whose id begins with `calc:`, in order.
pub open spec fn without_calc(s: Seq<ItemView>) -> Seq<ItemView>
    decreases s.len(),
{
    if s.len() == 0 {
        s
    } else {
        let k = without_calc(s.drop_last());
        if starts_with(s.last().id, "calc:"@) {
            k
        } else {
            k.push(s.last())
        }
    }
}

/// The list under a calculator answer: the answer at rank 100, then the
/// items found without calculator items, in order, at rank 0.
pub open spec fn answer_list(calc: ItemView, found: Seq<ItemView>) -> Seq<(ItemView, u32)> {
    seq![(calc, 100u32)] + ranked(without_calc(found), 0)
}

/// The rows listed under a calculator answer `calc`, given the items the
/// search found.
pub fn answer_rows(calc: LauncherItem, found: Vec<LauncherItem>) -> (r: Vec<Scored>)
    ensures
        view_scored(r@) == answer_list(calc@, view_items(found@)),
{
    let ghost fv = view_items(found@);
    let ghost cv = calc@;
    let mut results: Vec<Scored> = Vec::new();
    results.push(scored(calc, 100));
    proof {
        reveal_strlit("calc:");
        assert(view_scored(results@) =~= answer_list(cv, fv.take(0)));
    }
    for i in 0..found.len()
        invariant
            fv == view_items(found@),
            view_scored(results@) == answer_list(cv, fv.take(i as int)),
    {
        proof {
            assert(fv.take(i + 1 as int).drop_last() =~= fv.take(i as int));
            assert(fv[i as int] == found@[i as int]@);
        }
        let ghost before = view_scored(results@);
        if !str_starts_with(found[i].id.as_str(), "calc:") {
            results.push(scored(found[i].clone(), 0));
            assert(view_scored(results@) =~= before.push((found@[i as int]@, 0u32)));
            assert(view_scored(results@) =~= answer_list(cv, fv.take(i + 1 as int)));
        } else {
            assert(view_scored(results@) =~= answer_list(cv, fv.take(i + 1 as int)));
        }
    }
    assert(fv.take(found@.len() as int) =~= fv);
    results
}

impl Launcher {
    /// The search engine holds its items.
    pub open spec fn wf(&self) -> bool {
        self.search_engine.wf()
    }

    /// The state of a launcher listing `items` with the shortcuts of
    /// `config` on platform `platform`: hidden, nothing typed, every item
    /// listed at rank 0.
    pub fn new(items: Vec<LauncherItem>, config: &Config, platform: Platform) -> (r: Launcher)
        ensures
            r.wf(),
            r.search_engine.items_view() == view_items(items@),
            r.shortcut_engine.shortcuts_view() == crate::config::view_shortcuts(config.shortcuts@),
            r.platform == platform,
            r.shortcut_engine.platform() == platform,
            r@.query == Seq::<char>::empty(),
            r@.results == ranked(view_items(items@), 0),
            r@.selected == 0,
            !r@.is_visible,
            r@.pending_shortcut is None,
            r@.mode == InputMode::Normal,
            r@.command_state is None,
            r@.calc_result is None,
    {
        let mut engine = SearchEngine::new();
        engine.set_items(items);
        let mut app = Launcher {
            search_engine: engine,
            shortcut_engine: ShortcutEngine::new(config, platform),
            platform,
            query: String::new(),
            results: Vec::new(),
            selected: 0,
            is_visible: false,
            pending_shortcut: None,
            mode: InputMode::Normal,
            command_state: None,
            calc_result: None,
        };
        proof {
            assert(trim(Seq::<char>::empty()) =~= Seq::<char>::empty()) by {
                reveal_with_fuel(crate::text::trim_start, 1);
            }
        }
        app.update_results(None);
        app
    }

    /// The text to hand to the calculator before `update_results`: the
    /// trimmed query when it looks like a sum outside command mode.
    pub fn calculation_request(&self) -> (r: Option<String>)
        ensures
            match r {
                Some(q) => self.mode == InputMode::Normal && looks_like_math(self.query@) && q@
                    == trim(self.query@),
                None => !(self.mode == InputMode::Normal && looks_like_math(self.query@)),
            },
    {
        if self.mode == InputMode::Normal && CalculatorEngine::looks_like_math(self.query.as_str()) {
            Some(trim_str(self.query.as_str()))
        } else {
            None
        }
    }

    /// Recomputes the list for the current query. `evaluation` is the
    /// calculator's answer for the trimmed query, when it gave one.
    pub fn update_results(&mut self, evaluation: Option<String>)
        requires
            old(self).wf(),
        ensures
            final(self).wf(),
            final(self).search_engine.items_view() == old(self).search_engine.items_view(),
            final(self).shortcut_engine == old(self).shortcut_engine,
            final(self).platform == old(self).platform,
            final(self)@.query == old(self)@.query,
            final(self)@.is_visible == old(self)@.is_visible,
            final(self)@.mode == old(self)@.mode,
            final(self)@.command_state == old(self)@.command_state,
            old(self)@.mode == InputMode::Command ==> {
                &&& final(self)@.calc_result is None
                &&& final(self)@.selected == old(self)@.selected
                &&& final(self)@.pending_shortcut == old(self)@.pending_shortcut
                &&& final(self)@.results == match old(self)@.command_state {
                    Some(c) => seq![(command_item(c), 100u32)],
                    None => old(self)@.results,
                }
            },
            old(self)@.mode == InputMode::Normal && calculated(old(self)@.query, opt_view(evaluation))
                ==> {
                let q = trim(old(self)@.query);
                let w = final(self)@;
                &&& w.calc_result == opt_view(evaluation)
                &&& w.selected == 0
                &&& w.pending_shortcut is None
                &&& final(self).search_engine.pattern_view() == q
                &&& w.results == answer_list(
                    calc_item(q, opt_view(evaluation)->0),
                    final(self).search_engine.last_found(),
                )
                &&& exists|found: Seq<ItemView>|
                    #![trigger answer_list(calc_item(q, opt_view(evaluation)->0), found)]
                    w.results == answer_list(calc_item(q, opt_view(evaluation)->0), found)
                        && forall|i: int|
                        0 <= i < found.len() ==> old(self).search_engine.items_view().contains(
                            #[trigger] found[i],
                        )
            },
            old(self)@.mode == InputMode::Normal && !calculated(old(self)@.query, opt_view(evaluation))
                ==> final(self)@.calc_result is None && final(self)@.selected == 0,
            old(self)@.mode == InputMode::Normal && !calculated(old(self)@.query, opt_view(evaluation))
                && detection(
                old(self).shortcut_engine.shortcuts_view(),
                old(self)@.query,
                old(self).shortcut_engine.platform(),
            ) is None && trim(old(self)@.query).len() > 0 && special_item(
                old(self)@.query,
                opt_view(evaluation),
            ) is None && !(old(self)@.query.len() > 0 && old(self)@.query[0] == '>' && with_prefix(
                old(self).shortcut_engine.shortcuts_view(),
                trim(old(self)@.query.drop_first()),
            ).len() > 0) ==> final(self).search_engine.pattern_view() == old(self)@.query
                && final(self)@.results == ranked(final(self).search_engine.last_found(), 0),

            old(self)@.mode == InputMode::Normal && !calculated(old(self)@.query, opt_view(evaluation))
                ==> match detection(
                old(self).shortcut_engine.shortcuts_view(),
                old(self)@.query,
                old(self).shortcut_engine.platform(),
            ) {
                Some((a, name, trigger)) => final(self)@.pending_shortcut == Some(a)
                    && final(self)@.results == seq![(detected_item(name, trigger), 100u32)],
                None => final(self)@.pending_shortcut is None && listed(
                    old(self)@.query,
                    opt_view(evaluation),
                    old(self).search_engine.items_view(),
                    old(self).shortcut_engine.shortcuts_view(),
                    final(self)@.results,
                ),
            },
    {
        self.calc_result = None;
        if self.mode == InputMode::Command {
            match &self.command_state {
                Some(cs) => {
                    let hint = cs.slot_hint();
                    let tip = if cs.slots.len() > 1 && cs.active_slot < cs.slots.len() - 1 {
                        concat_str("Tab -> next slot | Enter to run | ", hint.as_str())
                    } else {
                        concat_str("Enter to run | ", hint.as_str())
                    };
                    let title = concat3("⌘ ", cs.shortcut_name.as_str(), " - ");
                    let item = plain_item(
                        concat_str("cmd:", cs.trigger.as_str()),
                        concat_str(title.as_str(), cs.trigger.as_str()),
                        tip,
                    );
                    let mut results: Vec<Scored> = Vec::new();
                    results.push(scored(item, 100));
                    self.results = results;
                    assert(view_scored(self.results@) =~= seq![(command_item(cs@), 100u32)]);
                },
                None => {},
            }
            return;
        }
        let q = trim_str(self.query.as_str());
        if !q.as_str().is_empty() && CalculatorEngine::looks_like_math(q.as_str()) {
            match &evaluation {
                Some(res) => {
                    self.calc_result = Some(copy_string(res));
                    let mut tags: Vec<String> = Vec::new();
                    tags.push(String::from_str("calc"));
                    let calc = LauncherItem {
                        id: concat_str("calc:", q.as_str()),
                        title: concat_str("= ", res.as_str()),
                        subtitle: Some(concat3(q.as_str(), " -> ", res.as_str())),
                        path: Some(copy_string(res)),
                        icon_path: None,
                        item_type: ItemType::Command,
                        tags,
                    };
                    assert(calc@ == calc_item(q@, res@)) by {
                        assert(calc@.tags =~= seq!["calc"@]);
                    }
                    let ghost items = self.search_engine.items_view();
                    proof {
                        crate::text::lemma_trim_idempotent(self.query@);
                    }
                    let rest = self.search_engine.search(q.as_str());
                    let results = answer_rows(calc, rest);
                    self.pending_shortcut = None;
                    self.results = results;
                    self.selected = 0;
                    return;
                },
                None => {},
            }
        }
        let ghost items = self.search_engine.items_view();
        let ghost shs = self.shortcut_engine.shortcuts_view();
        let ghost ev = opt_view(evaluation);
        let ghost qv0 = self.query@;
        match self.shortcut_engine.detect(self.query.as_str()) {
            Some(d) => {
                let title = concat3("> ", d.name.as_str(), " - ");
                let item = plain_item(
                    concat_str("shortcut:", d.trigger.as_str()),
                    concat_str(title.as_str(), d.trigger.as_str()),
                    String::from_str("Press Enter to run | Tab for command mode (slot filling)"),
                );
                let mut results: Vec<Scored> = Vec::new();
                results.push(scored(item, 100));
                self.results = results;
                self.pending_shortcut = Some(d.action);
                assert(view_scored(self.results@) =~= seq![
                    (detected_item(d.name@, d.trigger@), 100u32),
                ]);
            },
            None => {
                self.pending_shortcut = None;
                if q.as_str().is_empty() {
                    let found = self.search_engine.search("");
                    proof {
                        reveal_strlit("");
                        assert(trim(""@) =~= Seq::<char>::empty()) by {
                            reveal_with_fuel(crate::text::trim_start, 1);
                        }
                    }
                    self.results = rank_all(found, 0);
                    assert(listed(qv0, ev, items, shs, view_scored(self.results@)));
                } else {
                    match create_special_item(self.query.as_str(), evaluation) {
                        Some(special) => {
                            let mut results: Vec<Scored> = Vec::new();
                            results.push(scored(special, 100));
                            self.results = results;
                            assert(view_scored(self.results@) =~= seq![
                                (view_scored(self.results@)[0].0, 100u32),
                            ]);
                            assert(listed(qv0, ev, items, shs, view_scored(self.results@)));
                        },
                        None => {
                            let qv = chars_of(self.query.as_str());
                            if qv.len() > 0 && qv[0] == '>' {
                                let after = slice_chars(qv.as_slice(), 1, qv.len());
                                assert(after@ =~= qv@.drop_first());
                                let prefix = string_of(trim_chars(after.as_slice()).as_slice());
                                let matching = self.shortcut_engine.matching_shortcuts(
                                    prefix.as_str(),
                                );
                                if matching.len() > 0 {
                                    self.results = suggestions(&matching);
                                    assert(listed(qv0, ev, items, shs, view_scored(self.results@)));
                                    self.selected = 0;
                                    return;
                                }
                            }
                            let found = self.search_engine.search(self.query.as_str());
                            self.results = rank_all(found, 0);
                            proof {
                                assert forall|i: int|
                                    0 <= i < view_scored(self.results@).len() implies (
                                #[trigger] view_scored(self.results@)[i]).1 == 0 && items.contains(
                                    view_scored(self.results@)[i].0,
                                ) by {
                                    assert(view_items(found@)[i] == found@[i]@);
                                }
                                assert(listed(qv0, ev, items, shs, view_scored(self.results@)));
                            }
                        },
                    }
                }
            },
        }
        self.selected = 0;
    }
}

impl Launcher {
    /// Leaves command mode.
    pub fn exit_command_mode(&mut self)
        ensures
            final(self)@ == (LauncherView {
                mode: InputMode::Normal,
                command_state: None,
                ..old(self)@
            }),
            final(self).search_engine == old(self).search_engine,
            final(self).shortcut_engine == old(self).shortcut_engine,
            final(self).platform == old(self).platform,
    {
        self.mode = InputMode::Normal;
        self.command_state = None;
    }

    /// Enters command mode with `cs`, showing the value of its active slot.
    fn enter_command_mode(&mut self, cs: CommandModeState)
        ensures
            final(self)@ == entered(old(self)@, cs@),
            final(self).search_engine == old(self).search_engine,
            final(self).shortcut_engine == old(self).shortcut_engine,
            final(self).platform == old(self).platform,
    {
        self.mode = InputMode::Command;
        self.query = String::from_str(cs.active_value());
        self.command_state = Some(cs);
    }

    /// Clears what is typed and selected, for hiding or showing the window.
    fn reset_for(&mut self, visible: bool)
        ensures
            final(self)@ == reset(old(self)@, visible),
            final(self).search_engine == old(self).search_engine,
            final(self).shortcut_engine == old(self).shortcut_engine,
            final(self).platform == old(self).platform,
    {
        self.is_visible = visible;
        self.query = String::new();
        self.exit_command_mode();
        self.selected = 0;
        self.pending_shortcut = None;
    }

    /// What pressing Enter runs.
    fn execution_action(&self) -> (r: Option<Action>)
        ensures
            match r {
                Some(a) => execution(self@, self.platform) == Some(a@),
                None => execution(self@, self.platform) is None,
            },
    {
        if self.mode == InputMode::Command {
            match &self.command_state {
                Some(cs) => Some(cs.build_action(self.platform)),
                None => None,
            }
        } else {
            match &self.pending_shortcut {
                Some(a) => Some(a.clone()),
                None => {
                    if self.selected < self.results.len() {
                        let item = &self.results[self.selected].item;
                        proof {
                            reveal_strlit("calc:");
                            assert(view_scored(self.results@)[self.selected as int].0 == item@);
                        }
                        if str_contains(item.id.as_str(), "calc:") {
                            Some(ActionHandler::copy_action_for(item))
                        } else {
                            Some(ActionHandler::determine_action(item))
                        }
                    } else {
                        None
                    }
                },
            }
        }
    }

    /// Handles an event: changes the state as `step` says, and returns the
    /// effect and whether the list is to be recomputed.
    pub fn update(&mut self, msg: Message) -> (out: Outcome)
        ensures
            ({
                let (k, t, n) = message_parts(msg);
                let (v, e, refresh) = step(
                    old(self)@,
                    k,
                    t,
                    n,
                    old(self).shortcut_engine.shortcuts_view(),
                    old(self).platform,
                );
                &&& final(self)@ == v
                &&& out.effect@ == e
                &&& out.refresh == refresh
            }),
            final(self).search_engine == old(self).search_engine,
            final(self).shortcut_engine == old(self).shortcut_engine,
            final(self).platform == old(self).platform,
    {
        match msg {
            Message::QueryChanged(new_query) => {
                if self.mode == InputMode::Command {
                    let ghost before = self@;
                    match &mut self.command_state {
                        Some(cs) => {
                            let v = String::from_str(new_query.as_str());
                            cs.set_active_value(v);
                        },
                        None => {},
                    }
                    self.query = new_query;
                    proof {
                        match before.command_state {
                            Some(c) => {
                                if 0 <= c.active_slot < c.slots.len() {
                                    assert(self@.command_state->0.slots =~= c.slots.update(
                                        c.active_slot,
                                        crate::shortcuts::SlotView {
                                            name: c.slots[c.active_slot].name,
                                            value: new_query@,
                                        },
                                    ));
                                }
                            },
                            None => {},
                        }
                    }
                    return Outcome { effect: Effect::Nothing, refresh: true };
                }
                let qv = chars_of(new_query.as_str());
                if qv.len() > 0 && qv[0] == '>' {
                    let after = slice_chars(qv.as_slice(), 1, qv.len());
                    assert(after@ =~= qv@.drop_first());
                    let t = trim_chars(after.as_slice());
                    if has_char_exec(t.as_slice(), ' ') {
                        match self.shortcut_engine.detect_command_mode(new_query.as_str()) {
                            Some(cs) => {
                                self.enter_command_mode(cs);
                                return Outcome { effect: Effect::Nothing, refresh: true };
                            },
                            None => {},
                        }
                    }
                }
                self.query = new_query;
                Outcome { effect: Effect::Nothing, refresh: true }
            },
            Message::SelectUp => {
                if self.selected > 0 {
                    self.selected = self.selected - 1;
                }
                Outcome { effect: Effect::Scroll, refresh: false }
            },
            Message::SelectDown => {
                if self.results.len() > 0 {
                    let last = self.results.len() - 1;
                    self.selected = if self.selected < last && self.selected + 1 < last {
                        self.selected + 1
                    } else {
                        last
                    };
                    Outcome { effect: Effect::Scroll, refresh: false }
                } else {
                    Outcome { effect: Effect::Nothing, refresh: false }
                }
            },
            Message::Execute => {
                let a = self.execution_action();
                Outcome { effect: Effect::PerformAndHide(a), refresh: false }
            },
            Message::CopySelected => {
                if self.selected < self.results.len() {
                    let item = &self.results[self.selected].item;
                    assert(view_scored(self.results@)[self.selected as int].0 == item@);
                    let a = ActionHandler::copy_action_for(item);
                    Outcome { effect: Effect::Perform(a), refresh: false }
                } else {
                    Outcome { effect: Effect::Nothing, refresh: false }
                }
            },
            Message::Hide => {
                self.reset_for(false);
                Outcome { effect: Effect::HideWindow, refresh: true }
            },
            Message::Show => {
                self.reset_for(true);
                Outcome { effect: Effect::ShowWindow, refresh: true }
            },
            Message::Tab => {
                if self.mode == InputMode::Command {
                    let ghost before = self@;
                    let mut moved = false;
                    match &mut self.command_state {
                        Some(cs) => {
                            moved = cs.tab_next();
                        },
                        None => {},
                    }
                    if moved {
                        let v = match &self.command_state {
                            Some(cs) => String::from_str(cs.active_value()),
                            None => String::new(),
                        };
                        self.query = v;
                        proof {
                            let c = before.command_state->0;
                            assert(self@.command_state->0 == CommandView {
                                active_slot: c.active_slot + 1,
                                ..c
                            });
                        }
                        return Outcome { effect: Effect::Nothing, refresh: true };
                    }
                    return Outcome { effect: Effect::Nothing, refresh: false };
                }
                if self.selected < self.results.len() {
                    let id = chars_of(self.results[self.selected].item.id.as_str());
                    let prefix = chars_of("shortcut:");
                    proof {
                        reveal_strlit("shortcut:");
                        assert(view_scored(self.results@)[self.selected as int].0.id == id@);
                    }
                    if crate::text::starts_with_chars(id.as_slice(), prefix.as_slice()) {
                        let trigger = strip_prefixes_exec(id.as_slice(), prefix.as_slice());
                        let t = string_of(trigger.as_slice());
                        let prefixed = concat3("> ", t.as_str(), " ");
                        match self.shortcut_engine.detect_command_mode(prefixed.as_str()) {
                            Some(cs) => {
                                self.enter_command_mode(cs);
                                return Outcome { effect: Effect::Nothing, refresh: true };
                            },
                            None => {},
                        }
                    }
                }
                Outcome { effect: Effect::Nothing, refresh: false }
            },
            Message::ClickSelect(index) => {
                let len = self.results.len();
                self.selected = if index < len {
                    index
                } else if len > 0 {
                    len - 1
                } else {
                    0
                };
                Outcome { effect: Effect::Nothing, refresh: false }
            },
            Message::WindowUnfocused(too_soon) => {
                if self.is_visible && !too_soon {
                    Outcome { effect: Effect::RequestHide, refresh: false }
                } else {
                    Outcome { effect: Effect::Nothing, refresh: false }
                }
            },
        }
    }
}

impl Scored {
    /// The id of the listed item.
    pub fn item_id(&self) -> (r: &str)
        ensures
            r@ == self.item.id@,
    {
        self.item.id.as_str()
    }
}

impl Clone for Scored {
    fn clone(&self) -> (r: Self)
        ensures
            r.item@ == self.item@,
            r.score == self.score,
    {
        Scored { item: self.item.clone(), score: self.score }
    }
}

/// Every item of `items` at rank `score`.
fn rank_all(items: Vec<LauncherItem>, score: u32) -> (r: Vec<Scored>)
    ensures
        view_scored(r@) == ranked(view_items(items@), score),
{
    let mut r: Vec<Scored> = Vec::new();
    for i in 0..items.len()
        invariant
            r@.len() == i,
            forall|k: int| 0 <= k < i ==> (#[trigger] r@[k]).item@ == items@[k]@ && r@[k].score == score,
    {
        r.push(scored(items[i].clone(), score));
    }
    assert(view_scored(r@) =~= ranked(view_items(items@), score));
    r
}

/// The suggestion items for `matching`, at rank 90.
fn suggestions(matching: &Vec<&ShortcutConfig>) -> (r: Vec<Scored>)
    ensures
        view_scored(r@) == ranked(
            matching@.map_values(|c: &ShortcutConfig| c@).map_values(
                |sc: ShortcutView| suggestion_item(sc),
            ),
            90,
        ),
{
    let mut r: Vec<Scored> = Vec::new();
    for i in 0..matching.len()
        invariant
            r@.len() == i,
            forall|k: int|
                0 <= k < i ==> (#[trigger] r@[k]).item@ == suggestion_item(matching@[k]@) && r@[k].score == 90,
    {
        let sc = matching[i];
        let a = concat3("> ", sc.name.as_str(), " (");
        let title = concat3(a.as_str(), sc.trigger.as_str(), ")");
        let item = plain_item(
            concat_str("shortcut:", sc.trigger.as_str()),
            title,
            concat_str("Tab to fill slots · action: ", sc.action_type.as_str()),
        );
        r.push(scored(item, 90));
    }
    assert(view_scored(r@) =~= ranked(
        matching@.map_values(|c: &ShortcutConfig| c@).map_values(
            |sc: ShortcutView| suggestion_item(sc),
        ),
        90,
    ));
    r
}

/// With something listed, moving or clicking the selection keeps it on a
/// listed item.
pub proof fn lemma_selection_stays_listed(v: LauncherView, shs: Seq<ShortcutView>, p: Platform, index: int)
    requires
        v.results.len() > 0,
        0 <= v.selected,
        0 <= index,
    ensures
        0 <= step(v, MessageKind::SelectDown, Seq::empty(), 0, shs, p).0.selected < v.results.len(),
        0 <= step(v, MessageKind::ClickSelect, Seq::empty(), index, shs, p).0.selected < v.results.len(),
        0 <= v.selected < v.results.len() ==> 0 <= step(
            v,
            MessageKind::SelectUp,
            Seq::empty(),
            0,
            shs,
            p,
        ).0.selected < v.results.len(),
{
}

/// Pressing Enter changes nothing in the state and always ends by hiding.
pub proof fn lemma_execute_then_hide(v: LauncherView, shs: Seq<ShortcutView>, p: Platform)
    ensures
        step(v, MessageKind::Execute, Seq::empty(), 0, shs, p).0 == v,
        step(v, MessageKind::Execute, Seq::empty(), 0, shs, p).1 is PerformAndHide,
        !step(v, MessageKind::Execute, Seq::empty(), 0, shs, p).2,
{
}

/// Hiding, and showing, clear what was typed and leave command mode;
/// hiding leaves the launcher hidden and showing leaves it visible.
pub proof fn lemma_hide_show_reset(v: LauncherView, shs: Seq<ShortcutView>, p: Platform)
    ensures
        ({
            let h = step(v, MessageKind::Hide, Seq::empty(), 0, shs, p).0;
            &&& !h.is_visible
            &&& h.query.len() == 0
            &&& h.mode == InputMode::Normal
            &&& h.command_state is None
            &&& h.selected == 0
            &&& h.pending_shortcut is None
        }),
        ({
            let s = step(v, MessageKind::Show, Seq::empty(), 0, shs, p).0;
            &&& s.is_visible
            &&& s.query.len() == 0
            &&& s.mode == InputMode::Normal
            &&& s.command_state is None
        }),
        step(
            step(v, MessageKind::Show, Seq::empty(), 0, shs, p).0,
            MessageKind::Hide,
            Seq::empty(),
            0,
            shs,
            p,
        ).0 == step(v, MessageKind::Hide, Seq::empty(), 0, shs, p).0,
{
}

/// Typing in command mode fills the active slot: what is typed is then
/// both the query and the active slot's value.
pub proof fn lemma_typing_fills_active_slot(
    v: LauncherView,
    text: Seq<char>,
    shs: Seq<ShortcutView>,
    p: Platform,
)
    requires
        v.mode == InputMode::Command,
        v.command_state matches Some(c) && 0 <= c.active_slot < c.slots.len(),
    ensures
        ({
            let w = step(v, MessageKind::QueryChanged, text, 0, shs, p).0;
            &&& w.query == text
            &&& w.command_state matches Some(c2) && active_value_of(c2) == text
        }),
{
}

/// Moving to the next slot never leaves the slots: from a slot within
/// them, Tab in command mode keeps the active slot within the same slots.
pub proof fn lemma_tab_stays_within(v: LauncherView, shs: Seq<ShortcutView>, p: Platform)
    requires
        v.mode == InputMode::Command,
        v.command_state matches Some(c) && 0 <= c.active_slot < c.slots.len(),
    ensures
        ({
            let c = v.command_state->0;
            let w = step(v, MessageKind::Tab, Seq::empty(), 0, shs, p).0;
            &&& w.mode == InputMode::Command
            &&& w.command_state matches Some(c2) && c2.slots == c.slots && 0 <= c2.active_slot
                < c2.slots.len() && c.active_slot <= c2.active_slot <= c.active_slot + 1
        }),
{
}

/// Once the calculator has answered a sum, Enter copies the answer (and
/// then hides), whatever shortcut was pending before.
pub proof fn lemma_enter_copies_answer(
    w: LauncherView,
    q: Seq<char>,
    res: Seq<char>,
    found: Seq<ItemView>,
    shs: Seq<ShortcutView>,
    p: Platform,
)
    requires
        w.mode == InputMode::Normal,
        w.pending_shortcut is None,
        w.selected == 0,
        w.results == answer_list(calc_item(q, res), found),
    ensures
        step(w, MessageKind::Execute, Seq::empty(), 0, shs, p).1 == EffectView::PerformAndHide(
            Some(ActionView::CopyToClipboard(res)),
        ),
{
    reveal_strlit("calc:");
    let id = calc_item(q, res).id;
    assert(id.subrange(0, 5) =~= "calc:"@);
    assert(crate::text::occurs_at(id, "calc:"@, 0));
}

/// A window that loses focus right after being shown stays.
pub proof fn lemma_unfocus_soon_keeps_window(v: LauncherView, shs: Seq<ShortcutView>, p: Platform)
    ensures
        step(v, MessageKind::WindowUnfocused, Seq::empty(), 1, shs, p).1 is Nothing,
        step(v, MessageKind::WindowUnfocused, Seq::empty(), 1, shs, p).0 == v,
{
}

} // verus!
