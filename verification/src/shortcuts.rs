//! Keyword shortcuts: recognising them in the query, the command mode in
//! which their template's slots are filled one by one, and the actions they
//! produce.
use vstd::prelude::*;

use crate::actions::{Action, ActionView};
use crate::config::{Config, Platform, ShortcutConfig, ShortcutView, copy_shortcuts, view_shortcuts};
use crate::text::{
    is_space, lemma_trim_idempotent, lemma_trim_no_space, lemma_trim_plain, only_plain_spaces,
    braced, braced_name, chars_of, concat3, concat_str, contains, copy_opt_string, copy_string,
    eq_chars, find_char, first_index, lemma_first_index, opt_view, push_char, replace_all,
    slice_chars, starts_with, str_contains, str_eq, str_replace, str_starts_with, string_of, trim,
    trim_chars, trim_str,
};
use crate::url::{url_encode, url_encoded};

verus! {

/// One placeholder of a command template, and what has been typed for it.
#[derive(Debug)]
pub struct CommandSlot {
    pub name: String,
    pub value: String,
}

/// A slot as values.
pub struct SlotView {
    pub name: Seq<char>,
    pub value: Seq<char>,
}

impl View for CommandSlot {
    type V = SlotView;

    open spec fn view(&self) -> SlotView {
        SlotView { name: self.name@, value: self.value@ }
    }
}

impl Clone for CommandSlot {
    fn clone(&self) -> (r: Self)
        ensures
            r@ == self@,
    {
        CommandSlot { name: copy_string(&self.name), value: copy_string(&self.value) }
    }
}

/// The views of a sequence of slots.
pub open spec fn view_slots(s: Seq<CommandSlot>) -> Seq<SlotView> {
    s.map_values(|c: CommandSlot| c@)
}

/// The state of command mode: which shortcut, its slots and the slot being typed.
#[derive(Debug)]
pub struct CommandModeState {
    pub trigger: String,
    pub shortcut_name: String,
    pub slots: Vec<CommandSlot>,
    pub active_slot: usize,
    pub action_type: String,
    pub template: Option<String>,
}

/// The placeholder names of a template, raw: the text between each `{` and
/// the next `}`, scanning from the left.
pub open spec fn brace_names(s: Seq<char>) -> Seq<Seq<char>>
    decreases s.len(),
{
    match first_index(s, '{') {
        None => Seq::empty(),
        Some(i) => {
            let r = s.skip(i + 1);
            match first_index(r, '}') {
                None => Seq::empty(),
                Some(j) => {
                    proof {
                        lemma_first_index(s, '{');
                        lemma_first_index(r, '}');
                    }
                    seq![r.take(j)] + brace_names(r.skip(j + 1))
                },
            }
        },
    }
}

/// The non-empty names of `ns`, each once, in order of first appearance.
pub open spec fn distinct_nonempty(ns: Seq<Seq<char>>) -> Seq<Seq<char>>
    decreases ns.len(),
{
    if ns.len() == 0 {
        ns
    } else {
        let prev = distinct_nonempty(ns.drop_last());
        let n = ns.last();
        if n.len() > 0 && !prev.contains(n) {
            prev.push(n)
        } else {
            prev
        }
    }
}

/// The slot name used when a template has no placeholder.
pub open spec fn query_name() -> Seq<char> {
    seq!['q', 'u', 'e', 'r', 'y']
}

/// The slots of a template: its placeholders, or a single `query` slot.
pub open spec fn slot_names(t: Seq<char>) -> Seq<Seq<char>> {
    let d = distinct_nonempty(brace_names(t));
    if d.len() == 0 {
        seq![query_name()]
    } else {
        d
    }
}

proof fn lemma_brace_names_step(s: Seq<char>, pos: int, i: int, j: int)
    requires
        0 <= pos <= s.len(),
        first_index(s.skip(pos), '{') == Some(i),
        first_index(s.skip(pos + i + 1), '}') == Some(j),
    ensures
        0 <= i,
        0 <= j,
        pos + i + 1 + j < s.len(),
        brace_names(s.skip(pos)) == seq![s.subrange(pos + i + 1, pos + i + 1 + j)] + brace_names(
            s.skip(pos + i + 1 + j + 1),
        ),
{
    lemma_first_index(s.skip(pos), '{');
    let r = s.skip(pos).skip(i + 1);
    assert(r =~= s.skip(pos + i + 1));
    lemma_first_index(r, '}');
    assert(r.take(j) =~= s.subrange(pos + i + 1, pos + i + 1 + j));
    assert(r.skip(j + 1) =~= s.skip(pos + i + 1 + j + 1));
}

proof fn lemma_brace_names_end(s: Seq<char>, pos: int)
    requires
        0 <= pos <= s.len(),
        match first_index(s.skip(pos), '{') {
            None => true,
            Some(i) => first_index(s.skip(pos + i + 1), '}') is None,
        },
    ensures
        brace_names(s.skip(pos)) == Seq::<Seq<char>>::empty(),
{
    match first_index(s.skip(pos), '{') {
        None => {},
        Some(i) => {
            lemma_first_index(s.skip(pos), '{');
            assert(s.skip(pos).skip(i + 1) =~= s.skip(pos + i + 1));
        },
    }
}

/// The slots of `template`: one per distinct non-empty placeholder name, in
/// order, all empty; a single `query` slot when there is none.
pub fn extract_slots(template: &str) -> (r: Vec<CommandSlot>)
    ensures
        r@.len() == slot_names(template@).len(),
        forall|i: int|
            0 <= i < r@.len() ==> (#[trigger] r@[i])@.name == slot_names(template@)[i]
                && r@[i]@.value.len() == 0,
{
    let s = chars_of(template);
    let len = s.len();
    let mut slots: Vec<CommandSlot> = Vec::new();
    let mut pos: usize = 0;
    let ghost mut found: Seq<Seq<char>> = Seq::empty();
    assert(s@.skip(0) =~= s@);
    loop
        invariant
            pos <= len == s@.len(),
            found + brace_names(s@.skip(pos as int)) == brace_names(s@),
            slots@.len() == distinct_nonempty(found).len(),
            forall|k: int|
                0 <= k < slots@.len() ==> (#[trigger] slots@[k])@.name == distinct_nonempty(
                    found,
                )[k] && slots@[k]@.value.len() == 0,
        ensures
            found == brace_names(s@),
            slots@.len() == distinct_nonempty(found).len(),
            forall|k: int|
                0 <= k < slots@.len() ==> (#[trigger] slots@[k])@.name == distinct_nonempty(
                    found,
                )[k] && slots@[k]@.value.len() == 0,
        decreases len - pos,
    {
        let rest = slice_chars(s.as_slice(), pos, len);
        assert(rest@ =~= s@.skip(pos as int));
        match find_char(rest.as_slice(), '{') {
            None => {
                proof {
                    lemma_brace_names_end(s@, pos as int);
                    assert(found + Seq::<Seq<char>>::empty() =~= found);
                }
                break ;
            },
            Some(i) => {
                proof {
                    lemma_first_index(rest@, '{');
                }
                let start = pos + i + 1;
                let rest2 = slice_chars(s.as_slice(), start, len);
                assert(rest2@ =~= s@.skip(start as int));
                match find_char(rest2.as_slice(), '}') {
                    None => {
                        proof {
                            lemma_brace_names_end(s@, pos as int);
                            assert(found + Seq::<Seq<char>>::empty() =~= found);
                        }
                        break ;
                    },
                    Some(j) => {
                        proof {
                            lemma_brace_names_step(s@, pos as int, i as int, j as int);
                        }
                        let name_chars = slice_chars(s.as_slice(), start, start + j);
                        let name = string_of(name_chars.as_slice());
                        let ghost prev = distinct_nonempty(found);
                        let mut seen = false;
                        let mut k: usize = 0;
                        while k < slots.len()
                            invariant
                                k <= slots@.len() == prev.len(),
                                forall|m: int|
                                    0 <= m < slots@.len() ==> (#[trigger] slots@[m])@.name
                                        == prev[m],
                                seen == exists|m: int| 0 <= m < k && prev[m] == name@,
                            decreases slots.len() - k,
                        {
                            if str_eq(slots[k].name.as_str(), name.as_str()) {
                                seen = true;
                            }
                            k = k + 1;
                        }
                        proof {
                            if seen {
                                let m = choose|m: int| 0 <= m < k && prev[m] == name@;
                                assert(prev.contains(name@));
                            } else {
                                assert(!prev.contains(name@));
                            }
                            let nf = found.push(name@);
                            assert(nf.drop_last() =~= found);
                            assert(found + brace_names(s@.skip(pos as int)) =~= nf
                                + brace_names(s@.skip(start + j + 1)));
                        }
                        if name_chars.len() > 0 && !seen {
                            slots.push(CommandSlot { name, value: String::new() });
                        }
                        proof {
                            found = found.push(name@);
                        }
                        pos = start + j + 1;
                    },
                }
            },
        }
    }
    assert(template@ == s@);
    if slots.len() == 0 {
        slots.push(CommandSlot { name: String::from_str("query"), value: String::new() });
        proof {
            reveal_strlit("query");
            assert("query"@ =~= query_name());
        }
    }
    slots
}

/// How a slot reads in the hint line.
pub open spec fn slot_text(s: SlotView, is_active: bool) -> Seq<char> {
    if is_active {
        "> "@ + s.name + ": \""@ + s.value + "\""@
    } else if s.value.len() == 0 {
        "["@ + s.name + "]"@
    } else {
        s.name + ": \""@ + s.value + "\""@
    }
}

/// `parts` joined by single spaces.
pub open spec fn join_spaced(parts: Seq<Seq<char>>) -> Seq<char>
    decreases parts.len(),
{
    if parts.len() == 0 {
        Seq::empty()
    } else if parts.len() == 1 {
        parts[0]
    } else {
        join_spaced(parts.drop_last()) + " "@ + parts.last()
    }
}

/// The texts of the slots, the one at `active` marked.
pub open spec fn hint_parts(slots: Seq<SlotView>, active: int) -> Seq<Seq<char>> {
    Seq::new(slots.len(), |i: int| slot_text(slots[i], i == active))
}

/// `t` with each slot's placeholder replaced by its value (percent-encoded
/// when `encode`), the slots taken in order.
pub open spec fn filled(t: Seq<char>, slots: Seq<SlotView>, encode: bool) -> Seq<char>
    decreases slots.len(),
{
    if slots.len() == 0 {
        t
    } else {
        replace_all(
            filled(t, slots.drop_last(), encode),
            braced(slots.last().name),
            if encode {
                url_encoded(slots.last().value)
            } else {
                slots.last().value
            },
        )
    }
}

/// The value of the first slot, or nothing.
pub open spec fn first_value(slots: Seq<SlotView>) -> Seq<char> {
    if slots.len() > 0 {
        slots[0].value
    } else {
        Seq::empty()
    }
}

/// The action for an unknown action type: a shell command that does nothing.
pub open spec fn nothing_action(p: Platform) -> ActionView {
    match p {
        Platform::Windows => ActionView::Custom("cmd"@, seq!["/C"@, "echo Do Nothing"@]),
        _ => ActionView::Custom("sh"@, seq!["-c"@, "echo Do Nothing"@]),
    }
}

/// The action that running command mode for an action type, template and
/// slots gives.
pub open spec fn command_action(
    action_type: Seq<char>,
    template: Option<Seq<char>>,
    slots: Seq<SlotView>,
    p: Platform,
) -> ActionView {
    if action_type == "calculator"@ {
        ActionView::RunCommand("echo 'Calculate: "@ + first_value(slots) + "'"@)
    } else if action_type == "open_url"@ || action_type == "web_search"@ {
        ActionView::OpenUrl(
            match template {
                Some(t) => filled(t, slots, true),
                None => "https://google.com/search?q="@ + url_encoded(first_value(slots)),
            },
        )
    } else if action_type == "command"@ || action_type == "script"@ {
        ActionView::RunCommand(
            match template {
                Some(t) => filled(t, slots, false),
                None => first_value(slots),
            },
        )
    } else {
        nothing_action(p)
    }
}

/// The do-nothing action on platform `p`.
pub fn nothing(p: Platform) -> (r: Action)
    ensures
        r@ == nothing_action(p),
{
    let mut args: Vec<String> = Vec::new();
    match p {
        Platform::Windows => {
            args.push(String::from_str("/C"));
            args.push(String::from_str("echo Do Nothing"));
            assert(args.deep_view() =~= seq!["/C"@, "echo Do Nothing"@]);
            Action::Custom(String::from_str("cmd"), args)
        },
        _ => {
            args.push(String::from_str("-c"));
            args.push(String::from_str("echo Do Nothing"));
            assert(args.deep_view() =~= seq!["-c"@, "echo Do Nothing"@]);
            Action::Custom(String::from_str("sh"), args)
        },
    }
}

impl CommandModeState {
    /// The action that running this command gives on platform `p`.
    pub fn build_action(&self, p: Platform) -> (r: Action)
        ensures
            r@ == command_action(
                self.action_type@,
                opt_view(self.template),
                view_slots(self.slots@),
                p,
            ),
    {
        let ghost sv = view_slots(self.slots@);
        let first: &str = if self.slots.len() > 0 {
            self.slots[0].value.as_str()
        } else {
            ""
        };
        proof {
            reveal_strlit("");
            assert(first@ == first_value(sv));
        }
        let at = self.action_type.as_str();
        if str_eq(at, "calculator") {
            Action::RunCommand(concat3("echo 'Calculate: ", first, "'"))
        } else if str_eq(at, "open_url") || str_eq(at, "web_search") {
            let url = match &self.template {
                Some(t) => self.fill(t, true),
                None => {
                    let q = url_encode(first);
                    concat_str("https://google.com/search?q=", q.as_str())
                },
            };
            Action::OpenUrl(url)
        } else if str_eq(at, "command") || str_eq(at, "script") {
            match &self.template {
                Some(t) => Action::RunCommand(self.fill(t, false)),
                None => Action::RunCommand(String::from_str(first)),
            }
        } else {
            nothing(p)
        }
    }

    /// `t` with the slots' placeholders replaced by their values.
    fn fill(&self, t: &String, encode: bool) -> (r: String)
        ensures
            r@ == filled(t@, view_slots(self.slots@), encode),
    {
        let mut result = copy_string(t);
        let ghost sv = view_slots(self.slots@);
        for i in 0..self.slots.len()
            invariant
                sv == view_slots(self.slots@),
                result@ == filled(t@, sv.take(i as int), encode),
        {
            let slot = &self.slots[i];
            let pat = braced_name(slot.name.as_str());
            proof {
                assert(sv.take(i + 1 as int).drop_last() =~= sv.take(i as int));
                assert(sv[i as int] == slot@);
            }
            if encode {
                let v = url_encode(slot.value.as_str());
                result = str_replace(result.as_str(), pat.as_str(), v.as_str());
            } else {
                result = str_replace(result.as_str(), pat.as_str(), slot.value.as_str());
            }
        }
        assert(sv.take(sv.len() as int) =~= sv);
        result
    }

    /// Moves to the next slot, if there is one after the active slot.
    pub fn tab_next(&mut self) -> (moved: bool)
        ensures
            moved == (old(self).slots@.len() > 1 && old(self).active_slot + 1
                < old(self).slots@.len()),
            final(self).active_slot == if moved {
                old(self).active_slot + 1
            } else {
                old(self).active_slot as int
            },
            final(self).slots == old(self).slots,
            final(self).trigger == old(self).trigger,
            final(self).shortcut_name == old(self).shortcut_name,
            final(self).action_type == old(self).action_type,
            final(self).template == old(self).template,
    {
        if self.slots.len() > 1 && self.active_slot < self.slots.len() - 1 {
            self.active_slot = self.active_slot + 1;
            true
        } else {
            false
        }
    }

    /// Puts `value` into the active slot, if there is one.
    pub fn set_active_value(&mut self, value: String)
        ensures
            view_slots(final(self).slots@) == if old(self).active_slot < old(self).slots@.len() {
                view_slots(old(self).slots@).update(
                    old(self).active_slot as int,
                    SlotView {
                        name: old(self).slots@[old(self).active_slot as int]@.name,
                        value: value@,
                    },
                )
            } else {
                view_slots(old(self).slots@)
            },
            final(self).active_slot == old(self).active_slot,
            final(self).trigger == old(self).trigger,
            final(self).shortcut_name == old(self).shortcut_name,
            final(self).action_type == old(self).action_type,
            final(self).template == old(self).template,
    {
        let i = self.active_slot;
        if i < self.slots.len() {
            let name = copy_string(&self.slots[i].name);
            self.slots.set(i, CommandSlot { name, value });
            assert(view_slots(self.slots@) =~= view_slots(old(self).slots@).update(
                i as int,
                SlotView { name: old(self).slots@[i as int]@.name, value: value@ },
            ));
        }
    }

    /// What the active slot holds; nothing when there is no active slot.
    pub fn active_value(&self) -> (r: &str)
        ensures
            r@ == if self.active_slot < self.slots@.len() {
                self.slots@[self.active_slot as int]@.value
            } else {
                Seq::empty()
            },
    {
        if self.active_slot < self.slots.len() {
            self.slots[self.active_slot].value.as_str()
        } else {
            proof {
                reveal_strlit("");
            }
            ""
        }
    }

    /// The hint line: each slot's text, the active one marked, joined by spaces.
    pub fn slot_hint(&self) -> (r: String)
        ensures
            r@ == join_spaced(hint_parts(view_slots(self.slots@), self.active_slot as int)),
    {
        let ghost parts = hint_parts(view_slots(self.slots@), self.active_slot as int);
        let mut out = String::new();
        for i in 0..self.slots.len()
            invariant
                parts == hint_parts(view_slots(self.slots@), self.active_slot as int),
                out@ == join_spaced(parts.take(i as int)),
        {
            let s = &self.slots[i];
            let part = if i == self.active_slot {
                let a = concat3("> ", s.name.as_str(), ": \"");
                concat3(a.as_str(), s.value.as_str(), "\"")
            } else if s.value.as_str().is_empty() {
                concat3("[", s.name.as_str(), "]")
            } else {
                let a = concat_str(s.name.as_str(), ": \"");
                concat3(a.as_str(), s.value.as_str(), "\"")
            };
            proof {
                assert(parts[i as int] == part@);
                assert(parts.take(i + 1 as int).drop_last() =~= parts.take(i as int));
            }
            if i > 0 {
                out.append(" ");
            }
            out.append(part.as_str());
            proof {
                if i == 0 {
                    assert(parts.take(1) =~= seq![parts[0]]);
                    assert(out@ =~= join_spaced(parts.take(1)));
                }
            }
        }
        assert(parts.take(parts.len() as int) =~= parts);
        out
    }
}

/// Command mode as values.
pub struct CommandView {
    pub trigger: Seq<char>,
    pub shortcut_name: Seq<char>,
    pub slots: Seq<SlotView>,
    pub active_slot: int,
    pub action_type: Seq<char>,
    pub template: Option<Seq<char>>,
}

impl View for CommandModeState {
    type V = CommandView;

    open spec fn view(&self) -> CommandView {
        CommandView {
            trigger: self.trigger@,
            shortcut_name: self.shortcut_name@,
            slots: view_slots(self.slots@),
            active_slot: self.active_slot as int,
            action_type: self.action_type@,
            template: opt_view(self.template),
        }
    }
}

/// A shortcut recognised in the query, with the action it gives.
#[derive(Debug)]
pub struct DetectedShortcut {
    pub action: Action,
    pub name: String,
    pub trigger: String,
}

/// The position of the first shortcut with trigger `t`.
pub open spec fn first_with_trigger(s: Seq<ShortcutView>, t: Seq<char>) -> Option<int>
    decreases s.len(),
{
    if s.len() == 0 {
        None
    } else if s[0].trigger == t {
        Some(0)
    } else {
        match first_with_trigger(s.drop_first(), t) {
            Some(i) => Some(i + 1),
            None => None,
        }
    }
}

/// The position of the first shortcut bound to the key `k`.
pub open spec fn first_with_key(s: Seq<ShortcutView>, k: Seq<char>) -> Option<int>
    decreases s.len(),
{
    if s.len() == 0 {
        None
    } else if s[0].key == Some(k) {
        Some(0)
    } else {
        match first_with_key(s.drop_first(), k) {
            Some(i) => Some(i + 1),
            None => None,
        }
    }
}

proof fn lemma_first_with_trigger(s: Seq<ShortcutView>, t: Seq<char>)
    ensures
        match first_with_trigger(s, t) {
            Some(i) => 0 <= i < s.len() && s[i].trigger == t && forall|j: int|
                0 <= j < i ==> (#[trigger] s[j]).trigger != t,
            None => forall|j: int| 0 <= j < s.len() ==> (#[trigger] s[j]).trigger != t,
        },
    decreases s.len(),
{
    if s.len() > 0 && s[0].trigger != t {
        lemma_first_with_trigger(s.drop_first(), t);
        assert forall|j: int| 1 <= j < s.len() implies s[j] == s.drop_first()[j - 1] by {}
    }
}

proof fn lemma_first_with_key(s: Seq<ShortcutView>, k: Seq<char>)
    ensures
        match first_with_key(s, k) {
            Some(i) => 0 <= i < s.len() && s[i].key == Some(k) && forall|j: int|
                0 <= j < i ==> (#[trigger] s[j]).key != Some(k),
            None => forall|j: int| 0 <= j < s.len() ==> (#[trigger] s[j]).key != Some(k),
        },
    decreases s.len(),
{
    if s.len() > 0 && s[0].key != Some(k) {
        lemma_first_with_key(s.drop_first(), k);
        assert forall|j: int| 1 <= j < s.len() implies s[j] == s.drop_first()[j - 1] by {}
    }
}

/// The query split into a trigger and what follows it: the trimmed query
/// (without a leading `>`, trimmed again) up to its first space, and the
/// trimmed rest.
pub open spec fn parsed_trigger(query: Seq<char>) -> (Seq<char>, Seq<char>) {
    let q = trim(query);
    if q.len() > 0 && q[0] == '>' {
        let rest = trim(q.drop_first());
        match first_index(rest, ' ') {
            Some(pos) => (rest.take(pos), trim(rest.skip(pos))),
            None => (rest, Seq::empty()),
        }
    } else {
        match first_index(q, ' ') {
            Some(pos) => (trim(q.take(pos)), trim(q.skip(pos))),
            None => (q, Seq::empty()),
        }
    }
}

/// The action of shortcut `sc` given the text `rem` that follows its trigger.
pub open spec fn shortcut_action(sc: ShortcutView, rem: Seq<char>, p: Platform) -> ActionView {
    if sc.action_type == "calculator"@ {
        ActionView::RunCommand("echo 'Calculate: "@ + rem + "'"@)
    } else if sc.action_type == "open_url"@ || sc.action_type == "web_search"@ {
        ActionView::OpenUrl(
            match sc.command {
                Some(c) => if contains(c, "{query}"@) {
                    replace_all(c, "{query}"@, rem)
                } else if contains(c, "{q}"@) {
                    replace_all(c, "{q}"@, rem)
                } else {
                    c
                },
                None => "https://google.com/search?q="@ + url_encoded(rem),
            },
        )
    } else if sc.action_type == "command"@ || sc.action_type == "script"@ {
        ActionView::RunCommand(
            match sc.command {
                Some(c) => if contains(c, "{query}"@) {
                    replace_all(c, "{query}"@, rem)
                } else {
                    c + " "@ + rem
                },
                None => rem,
            },
        )
    } else {
        nothing_action(p)
    }
}

/// The shortcut the query names, with its action, name and trigger.
pub open spec fn detection(shortcuts: Seq<ShortcutView>, query: Seq<char>, p: Platform) -> Option<
    (ActionView, Seq<char>, Seq<char>),
> {
    let q = trim(query);
    if q.len() == 0 {
        None
    } else {
        let (t, rem) = parsed_trigger(q);
        match first_with_trigger(shortcuts, t) {
            Some(i) => Some(
                (shortcut_action(shortcuts[i], rem, p), shortcuts[i].name, shortcuts[i].trigger),
            ),
            None => None,
        }
    }
}

/// The slots command mode starts with: the template's slots, the first
/// holding `first` if that is not empty.
pub open spec fn initial_slots(names: Seq<Seq<char>>, first: Seq<char>) -> Seq<SlotView> {
    Seq::new(
        names.len(),
        |i: int|
            SlotView {
                name: names[i],
                value: if i == 0 && first.len() > 0 {
                    first
                } else {
                    Seq::empty()
                },
            },
    )
}

/// The trigger and first value typed after `>` in a command-mode query.
pub open spec fn command_words(query: Seq<char>) -> (Seq<char>, Seq<char>) {
    let rest = trim(trim(query).drop_first());
    match first_index(rest, ' ') {
        Some(pos) => (trim(rest.take(pos)), trim(rest.skip(pos))),
        None => (rest, Seq::empty()),
    }
}

/// The command mode that a query `> trigger value` enters.
pub open spec fn command_mode_for(shortcuts: Seq<ShortcutView>, query: Seq<char>) -> Option<
    CommandView,
> {
    let q = trim(query);
    if !(q.len() > 0 && q[0] == '>') {
        None
    } else {
        let (t, first) = command_words(query);
        if t.len() == 0 {
            None
        } else {
            match first_with_trigger(shortcuts, t) {
                None => None,
                Some(i) => {
                    let sc = shortcuts[i];
                    let tmpl = match sc.command {
                        Some(c) => c,
                        None => Seq::empty(),
                    };
                    Some(
                        CommandView {
                            trigger: t,
                            shortcut_name: sc.name,
                            slots: initial_slots(slot_names(tmpl), first),
                            active_slot: 0,
                            action_type: sc.action_type,
                            template: sc.command,
                        },
                    )
                },
            }
        }
    }
}

/// The shortcuts whose trigger begins with `prefix`, in order.
pub open spec fn with_prefix(s: Seq<ShortcutView>, prefix: Seq<char>) -> Seq<ShortcutView>
    decreases s.len(),
{
    if s.len() == 0 {
        s
    } else {
        let k = with_prefix(s.drop_last(), prefix);
        if starts_with(s.last().trigger, prefix) {
            k.push(s.last())
        } else {
            k
        }
    }
}

/// Recognises keyword shortcuts in queries.
pub struct ShortcutEngine {
    shortcuts: Vec<ShortcutConfig>,
    platform: Platform,
}

/// The index of the first shortcut in `v` whose trigger is `t`.
fn find_trigger(v: &Vec<ShortcutConfig>, t: &str) -> (r: Option<usize>)
    ensures
        match r {
            Some(i) => i < v@.len() && first_with_trigger(view_shortcuts(v@), t@) == Some(i as int),
            None => first_with_trigger(view_shortcuts(v@), t@) is None,
        },
{
    let ghost sv = view_shortcuts(v@);
    for i in 0..v.len()
        invariant
            sv == view_shortcuts(v@),
            forall|j: int| 0 <= j < i ==> (#[trigger] sv[j]).trigger != t@,
    {
        if str_eq(v[i].trigger.as_str(), t) {
            assert(sv[i as int].trigger == t@);
            proof {
                lemma_first_with_trigger(sv, t@);
            }
            return Some(i);
        }
    }
    proof {
        lemma_first_with_trigger(sv, t@);
    }
    None
}

impl ShortcutEngine {
    /// The shortcuts, as values.
    pub closed spec fn shortcuts_view(&self) -> Seq<ShortcutView> {
        view_shortcuts(self.shortcuts@)
    }

    /// The platform whose shell the fallback action uses.
    pub closed spec fn platform(&self) -> Platform {
        self.platform
    }

    /// An engine for the shortcuts of `config`, on platform `platform`.
    pub fn new(config: &Config, platform: Platform) -> (r: Self)
        ensures
            r.shortcuts_view() == view_shortcuts(config.shortcuts@),
            r.platform() == platform,
    {
        ShortcutEngine { shortcuts: copy_shortcuts(&config.shortcuts), platform }
    }

    /// The shortcut the query names, if any.
    pub fn detect(&self, query: &str) -> (r: Option<DetectedShortcut>)
        ensures
            match r {
                Some(d) => detection(self.shortcuts_view(), query@, self.platform()) == Some(
                    (d.action@, d.name@, d.trigger@),
                ),
                None => detection(self.shortcuts_view(), query@, self.platform()) is None,
            },
    {
        let q = trim_str(query);
        if q.as_str().is_empty() {
            return None;
        }
        let (trigger, remaining) = Self::parse_trigger(q.as_str());
        match find_trigger(&self.shortcuts, trigger.as_str()) {
            Some(i) => {
                let sc = &self.shortcuts[i];
                let action = self.create_action(sc, remaining.as_str());
                Some(
                    DetectedShortcut {
                        action,
                        name: copy_string(&sc.name),
                        trigger: copy_string(&sc.trigger),
                    },
                )
            },
            None => None,
        }
    }

    /// The command mode that the query `> trigger value` enters, if its
    /// trigger names a shortcut.
    pub fn detect_command_mode(&self, query: &str) -> (r: Option<CommandModeState>)
        ensures
            match r {
                Some(c) => command_mode_for(self.shortcuts_view(), query@) == Some(c@),
                None => command_mode_for(self.shortcuts_view(), query@) is None,
            },
    {
        let qs = trim_str(query);
        let q = chars_of(qs.as_str());
        if !(q.len() > 0 && q[0] == '>') {
            return None;
        }
        let after = slice_chars(q.as_slice(), 1, q.len());
        assert(after@ =~= q@.drop_first());
        let rest = trim_chars(after.as_slice());
        let (trigger, first_value) = match find_char(rest.as_slice(), ' ') {
            Some(pos) => {
                proof {
                    lemma_first_index(rest@, ' ');
                }
                let a = slice_chars(rest.as_slice(), 0, pos);
                let b = slice_chars(rest.as_slice(), pos, rest.len());
                assert(a@ =~= rest@.take(pos as int));
                assert(b@ =~= rest@.skip(pos as int));
                (trim_chars(a.as_slice()), trim_chars(b.as_slice()))
            },
            None => (rest, Vec::new()),
        };
        let ghost cw = command_words(query@);
        assert(trigger@ == cw.0 && first_value@ == cw.1);
        if trigger.len() == 0 {
            return None;
        }
        let t = string_of(trigger.as_slice());
        match find_trigger(&self.shortcuts, t.as_str()) {
            None => None,
            Some(i) => {
                let sc = &self.shortcuts[i];
                let tmpl: &str = match &sc.command {
                    Some(c) => c.as_str(),
                    None => "",
                };
                proof {
                    reveal_strlit("");
                }
                let mut slots = extract_slots(tmpl);
                let ghost names = slot_names(tmpl@);
                let ghost before = slots@;
                if first_value.len() > 0 {
                    let name = copy_string(&slots[0].name);
                    slots.set(0, CommandSlot { name, value: string_of(first_value.as_slice()) });
                }
                assert forall|k: int| 0 <= k < slots@.len() implies view_slots(slots@)[k]
                    == initial_slots(names, first_value@)[k] by {
                    assert(before[k]@.name == names[k]);
                    if k == 0 && first_value@.len() > 0 {
                    } else {
                        assert(slots@[k] == before[k]);
                        assert(before[k]@.value =~= Seq::<char>::empty());
                    }
                }
                let r = CommandModeState {
                    trigger: t,
                    shortcut_name: copy_string(&sc.name),
                    slots,
                    active_slot: 0,
                    action_type: copy_string(&sc.action_type),
                    template: copy_opt_string(&sc.command),
                };
                assert(r@.slots =~= initial_slots(names, first_value@));
                Some(r)
            },
        }
    }

    /// The shortcuts whose trigger begins with `prefix`.
    pub fn matching_shortcuts(&self, prefix: &str) -> (r: Vec<&ShortcutConfig>)
        ensures
            r@.map_values(|c: &ShortcutConfig| c@) == with_prefix(self.shortcuts_view(), prefix@),
    {
        let ghost sv = self.shortcuts_view();
        let mut r: Vec<&ShortcutConfig> = Vec::new();
        for i in 0..self.shortcuts.len()
            invariant
                sv == self.shortcuts_view(),
                r@.map_values(|c: &ShortcutConfig| c@) == with_prefix(sv.take(i as int), prefix@),
        {
            let sc = &self.shortcuts[i];
            proof {
                assert(sv.take(i + 1 as int).drop_last() =~= sv.take(i as int));
                assert(sv[i as int] == sc@);
            }
            let ghost before = r@;
            if str_starts_with(sc.trigger.as_str(), prefix) {
                r.push(sc);
                assert(r@.map_values(|c: &ShortcutConfig| c@) =~= before.map_values(
                    |c: &ShortcutConfig| c@,
                ).push(sc@));
            }
        }
        assert(sv.take(sv.len() as int) =~= sv);
        r
    }

    /// The query split into trigger and remaining text.
    pub fn parse_trigger(query: &str) -> (r: (String, String))
        ensures
            (r.0@, r.1@) == parsed_trigger(query@),
    {
        let qs = trim_str(query);
        let q = chars_of(qs.as_str());
        if q.len() > 0 && q[0] == '>' {
            let after = slice_chars(q.as_slice(), 1, q.len());
            assert(after@ =~= q@.drop_first());
            let rest = trim_chars(after.as_slice());
            match find_char(rest.as_slice(), ' ') {
                Some(pos) => {
                    proof {
                        lemma_first_index(rest@, ' ');
                    }
                    let a = slice_chars(rest.as_slice(), 0, pos);
                    let b = slice_chars(rest.as_slice(), pos, rest.len());
                    assert(a@ =~= rest@.take(pos as int));
                    assert(b@ =~= rest@.skip(pos as int));
                    let b = trim_chars(b.as_slice());
                    (string_of(a.as_slice()), string_of(b.as_slice()))
                },
                None => (string_of(rest.as_slice()), String::new()),
            }
        } else {
            match find_char(q.as_slice(), ' ') {
                Some(pos) => {
                    proof {
                        lemma_first_index(q@, ' ');
                    }
                    let a = slice_chars(q.as_slice(), 0, pos);
                    let b = slice_chars(q.as_slice(), pos, q.len());
                    assert(a@ =~= q@.take(pos as int));
                    assert(b@ =~= q@.skip(pos as int));
                    let a = trim_chars(a.as_slice());
                    let b = trim_chars(b.as_slice());
                    (string_of(a.as_slice()), string_of(b.as_slice()))
                },
                None => (qs, String::new()),
            }
        }
    }

    /// The action of shortcut `sc` given the text `remaining` after its trigger.
    pub fn create_action(&self, sc: &ShortcutConfig, remaining: &str) -> (r: Action)
        ensures
            r@ == shortcut_action(sc@, remaining@, self.platform()),
    {
        let at = sc.action_type.as_str();
        proof {
            reveal_strlit("{query}");
            reveal_strlit("{q}");
        }
        if str_eq(at, "calculator") {
            Action::RunCommand(concat3("echo 'Calculate: ", remaining, "'"))
        } else if str_eq(at, "open_url") || str_eq(at, "web_search") {
            let url = match &sc.command {
                Some(cmd) => {
                    if str_contains(cmd.as_str(), "{query}") {
                        str_replace(cmd.as_str(), "{query}", remaining)
                    } else if str_contains(cmd.as_str(), "{q}") {
                        str_replace(cmd.as_str(), "{q}", remaining)
                    } else {
                        copy_string(cmd)
                    }
                },
                None => {
                    let q = url_encode(remaining);
                    concat_str("https://google.com/search?q=", q.as_str())
                },
            };
            Action::OpenUrl(url)
        } else if str_eq(at, "command") || str_eq(at, "script") {
            match &sc.command {
                Some(cmd) => {
                    let c = if str_contains(cmd.as_str(), "{query}") {
                        str_replace(cmd.as_str(), "{query}", remaining)
                    } else {
                        concat3(cmd.as_str(), " ", remaining)
                    };
                    Action::RunCommand(c)
                },
                None => Action::RunCommand(String::from_str(remaining)),
            }
        } else {
            nothing(self.platform)
        }
    }

    /// The action and name of the first shortcut bound to the key `key`.
    pub fn detect_key(&self, key: &str) -> (r: Option<(Action, String)>)
        ensures
            match r {
                Some((a, n)) => match first_with_key(self.shortcuts_view(), key@) {
                    Some(i) => a@ == shortcut_action(
                        self.shortcuts_view()[i],
                        Seq::empty(),
                        self.platform(),
                    ) && n@ == self.shortcuts_view()[i].name,
                    None => false,
                },
                None => first_with_key(self.shortcuts_view(), key@) is None,
            },
    {
        let ghost sv = self.shortcuts_view();
        proof {
            reveal_strlit("");
        }
        for i in 0..self.shortcuts.len()
            invariant
                sv == self.shortcuts_view(),
                forall|j: int| 0 <= j < i ==> (#[trigger] sv[j]).key != Some(key@),
        {
            let sc = &self.shortcuts[i];
            let bound = match &sc.key {
                Some(k) => str_eq(k.as_str(), key),
                None => false,
            };
            assert(sv[i as int] == sc@);
            if bound {
                proof {
                    assert(sv[i as int].key == Some(key@));
                    lemma_first_with_key(sv, key@);
                    reveal_strlit("");
                    assert(""@ =~= Seq::<char>::empty());
                    assert(first_with_key(sv, key@) == Some(i as int));
                }
                let action = self.create_action(sc, "");
                return Some((action, copy_string(&sc.name)));
            }
        }
        proof {
            lemma_first_with_key(sv, key@);
        }
        None
    }

    /// All the shortcuts.
    pub fn all_shortcuts(&self) -> (r: &Vec<ShortcutConfig>)
        ensures
            view_shortcuts(r@) == self.shortcuts_view(),
    {
        &self.shortcuts
    }
}

/// The slot names kept are non-empty and distinct.
pub proof fn lemma_distinct_nonempty(ns: Seq<Seq<char>>)
    ensures
        forall|i: int| 0 <= i < distinct_nonempty(ns).len() ==> (#[trigger] distinct_nonempty(ns)[i]).len() > 0,
        forall|i: int, j: int|
            0 <= i < j < distinct_nonempty(ns).len() ==> distinct_nonempty(ns)[i] != distinct_nonempty(ns)[j],
    decreases ns.len(),
{
    if ns.len() > 0 {
        lemma_distinct_nonempty(ns.drop_last());
        let prev = distinct_nonempty(ns.drop_last());
        let n = ns.last();
        if n.len() > 0 && !prev.contains(n) {
            let d = prev.push(n);
            assert forall|i: int, j: int| 0 <= i < j < d.len() implies d[i] != d[j] by {
                if j == prev.len() {
                    assert(d[i] == prev[i]);
                }
            }
        }
    }
}

/// A template always gives at least one slot; the slots have non-empty,
/// distinct names.
pub proof fn lemma_slot_names(t: Seq<char>)
    ensures
        slot_names(t).len() >= 1,
        forall|i: int| 0 <= i < slot_names(t).len() ==> (#[trigger] slot_names(t)[i]).len() > 0,
        forall|i: int, j: int| 0 <= i < j < slot_names(t).len() ==> slot_names(t)[i] != slot_names(t)[j],
{
    lemma_distinct_nonempty(brace_names(t));
}

/// Command mode starts at the first of at least one slot.
pub proof fn lemma_command_mode_start(shs: Seq<ShortcutView>, query: Seq<char>)
    ensures
        match command_mode_for(shs, query) {
            Some(c) => c.active_slot == 0 && c.slots.len() >= 1,
            None => true,
        },
{
    match command_mode_for(shs, query) {
        Some(c) => {
            let (t, first) = command_words(query);
            lemma_first_with_trigger(shs, t);
            let i = first_with_trigger(shs, t)->0;
            let tmpl = match shs[i].command {
                Some(x) => x,
                None => Seq::empty(),
            };
            lemma_slot_names(tmpl);
        },
        None => {},
    }
}

/// What is put into the active slot is what the active slot then holds.
pub proof fn lemma_set_then_read(slots: Seq<SlotView>, active: int, value: Seq<char>)
    requires
        0 <= active < slots.len(),
    ensures
        slots.update(active, SlotView { name: slots[active].name, value })[active].value == value,
        forall|i: int|
            0 <= i < slots.len() && i != active ==> slots.update(
                active,
                SlotView { name: slots[active].name, value },
            )[i] == #[trigger] slots[i],
{
}

/// Filling with one slot replaces every `{name}` of the template by the
/// slot's value (percent-encoded for a URL).
pub proof fn lemma_fill_one_slot(t: Seq<char>, slot: SlotView, encode: bool)
    ensures
        filled(t, seq![slot], encode) == replace_all(
            t,
            seq!['{'] + slot.name + seq!['}'],
            if encode {
                url_encoded(slot.value)
            } else {
                slot.value
            },
        ),
{
    assert(seq![slot].drop_last() =~= Seq::<SlotView>::empty());
    assert(filled(t, Seq::<SlotView>::empty(), encode) == t);
}

/// Filling with the slots `a` then `b` is filling with `a` and then filling
/// the result with `b`: every slot is substituted, in order, whatever their
/// number.
pub proof fn lemma_fill_in_turn(t: Seq<char>, a: Seq<SlotView>, b: Seq<SlotView>, encode: bool)
    ensures
        filled(t, a + b, encode) == filled(filled(t, a, encode), b, encode),
    decreases b.len(),
{
    if b.len() == 0 {
        assert(a + b =~= a);
    } else {
        lemma_fill_in_turn(t, a, b.drop_last(), encode);
        assert((a + b).drop_last() =~= a + b.drop_last());
        assert((a + b).last() == b.last());
    }
}

/// A URL shortcut with a template, filled in command mode, opens the
/// template with its first slot substituted and then the rest, in turn.
pub proof fn lemma_url_template_filled(t: Seq<char>, slots: Seq<SlotView>, p: Platform)
    requires
        slots.len() > 0,
    ensures
        command_action("open_url"@, Some(t), slots, p) == ActionView::OpenUrl(
            filled(
                replace_all(t, seq!['{'] + slots[0].name + seq!['}'], url_encoded(slots[0].value)),
                slots.drop_first(),
                true,
            ),
        ),
{
    reveal_strlit("open_url");
    reveal_strlit("calculator");
    assert("open_url"@ != "calculator"@) by {
        assert("open_url"@[0] != "calculator"@[0]);
    }
    lemma_fill_in_turn(t, seq![slots[0]], slots.drop_first(), true);
    lemma_fill_one_slot(t, slots[0], true);
    assert(seq![slots[0]] + slots.drop_first() =~= slots);
}

/// A query that opens command mode, and whose only white space is plain
/// spaces, also names a shortcut: the same trigger, the same shortcut, and
/// the action gets the text that command mode puts in the first slot.
pub proof fn lemma_command_mode_names_shortcut(shs: Seq<ShortcutView>, query: Seq<char>, p: Platform)
    requires
        command_mode_for(shs, query) is Some,
        only_plain_spaces(query),
    ensures
        ({
            let c = command_mode_for(shs, query)->0;
            let i = first_with_trigger(shs, c.trigger)->0;
            &&& first_with_trigger(shs, c.trigger) is Some
            &&& detection(shs, query, p) == Some(
                (shortcut_action(shs[i], command_words(query).1, p), c.shortcut_name, c.trigger),
            )
        }),
{
    let q = trim(query);
    lemma_trim_idempotent(query);
    lemma_trim_plain(query);
    let d = q.drop_first();
    assert(only_plain_spaces(d)) by {
        assert forall|k: int| 0 <= k < d.len() && is_space(#[trigger] d[k]) implies d[k] == ' ' by {
            assert(d[k] == q[k + 1]);
        }
    }
    let rest = trim(d);
    lemma_trim_plain(d);
    lemma_first_index(rest, ' ');
    match first_index(rest, ' ') {
        Some(pos) => {
            let w = rest.take(pos);
            assert forall|k: int| 0 <= k < w.len() implies !is_space(#[trigger] w[k]) by {
                assert(w[k] == rest[k]);
            }
            lemma_trim_no_space(w);
        },
        None => {},
    }
    let (t, first) = command_words(query);
    assert(parsed_trigger(q) == (t, first));
    lemma_first_with_trigger(shs, t);
}

} // verus!
