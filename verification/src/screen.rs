//! What the launcher's window shows, and which key does what. Drawing is
//! left to the caller; this module decides the texts, the rows and their
//! order.
use vstd::prelude::*;

use crate::index::decimal;
use crate::index::decimal_string;
use crate::launcher::{InputMode, Launcher, LauncherView, Message, MessageKind, message_parts};
use crate::shortcuts::CommandView;
use crate::text::{chars_of, concat3, copy_opt_string, copy_string, opt_view, trim, trim_str};

verus! {

/// At most this many results are drawn.
pub const MAX_ROWS: usize = 20;

/// How an item's icon is drawn: not at all, as a vector image, or as a
/// picture.
#[derive(Debug)]
pub enum Icon {
    Blank,
    Svg(String),
    Picture(String),
}

/// An icon as values.
pub enum IconView {
    Blank,
    Svg(Seq<char>),
    Picture(Seq<char>),
}

impl View for Icon {
    type V = IconView;

    open spec fn view(&self) -> IconView {
        match self {
            Icon::Blank => IconView::Blank,
            Icon::Svg(p) => IconView::Svg(p@),
            Icon::Picture(p) => IconView::Picture(p@),
        }
    }
}

/// A drawn row of the list.
#[derive(Debug)]
pub enum Row {
    /// The calculator's answer, drawn as a card: the answer, the sum with
    /// its answer, and what Enter does.
    Answer { value: String, sum: String, hint: String, selected: bool },
    /// A listed item at `index`.
    Item { index: usize, title: String, subtitle: Option<String>, icon: Icon, selected: bool },
}

/// A row as values.
pub enum RowView {
    Answer { value: Seq<char>, sum: Seq<char>, hint: Seq<char>, selected: bool },
    Item { index: int, title: Seq<char>, subtitle: Option<Seq<char>>, icon: IconView, selected: bool },
}

impl View for Row {
    type V = RowView;

    open spec fn view(&self) -> RowView {
        match self {
            Row::Answer { value, sum, hint, selected } => RowView::Answer {
                value: value@,
                sum: sum@,
                hint: hint@,
                selected: *selected,
            },
            Row::Item { index, title, subtitle, icon, selected } => RowView::Item {
                index: *index as int,
                title: title@,
                subtitle: opt_view(*subtitle),
                icon: icon@,
                selected: *selected,
            },
        }
    }
}

/// Whether `s` ends with `suffix`.
pub open spec fn ends_with(s: Seq<char>, suffix: Seq<char>) -> bool {
    s.len() >= suffix.len() && s.skip(s.len() - suffix.len()) == suffix
}

/// The icon drawn for an item with icon file `path`: a vector image for
/// an `.svg` file, a picture for any other file, nothing without one.
pub open spec fn icon_for(path: Option<Seq<char>>) -> IconView {
    match path {
        Some(p) => if ends_with(p, ".svg"@) {
            IconView::Svg(p)
        } else {
            IconView::Picture(p)
        },
        None => IconView::Blank,
    }
}

/// How many rows are drawn: the results, at most `MAX_ROWS` of them.
pub open spec fn shown_rows(v: LauncherView) -> int {
    if v.results.len() < MAX_ROWS {
        v.results.len() as int
    } else {
        MAX_ROWS as int
    }
}

/// The row drawn for the `i`-th result: the answer card for the first
/// result while the calculator has an answer, else the item.
pub open spec fn row_at(v: LauncherView, i: int) -> RowView {
    match v.calc_result {
        Some(c) if i == 0 => RowView::Answer {
            value: c,
            sum: trim(v.query) + " = "@ + c,
            hint: if v.selected == 0 {
                "⏎ copied to clipboard"@
            } else {
                "Enter to copy result"@
            },
            selected: v.selected == 0,
        },
        _ => {
            let it = v.results[i].0;
            RowView::Item {
                index: i,
                title: it.title,
                subtitle: it.subtitle,
                icon: icon_for(it.icon_path),
                selected: v.selected == i,
            }
        },
    }
}

/// The placeholder of the input and the badge beside the footer: in
/// command mode, the active slot's name (`value` when there is none) and
/// the shortcut with the slot's position; otherwise the usual invitation
/// and no badge.
pub open spec fn prompt_of(v: LauncherView) -> (Seq<char>, Option<Seq<char>>) {
    match v.command_state {
        Some(c) if v.mode == InputMode::Command => {
            let ph = slot_name_or_value(c);
            (
                ph,
                Some(
                    "⌘ "@ + c.shortcut_name + " > "@ + ph + " ("@ + decimal((c.active_slot + 1) as nat)
                        + "/"@ + decimal(c.slots.len()) + ")"@,
                ),
            )
        },
        _ => ("Search or type > for commands..."@, None),
    }
}

/// The active slot's name, or `value` when the position names no slot.
pub open spec fn slot_name_or_value(c: CommandView) -> Seq<char> {
    if 0 <= c.active_slot < c.slots.len() {
        c.slots[c.active_slot].name
    } else {
        "value"@
    }
}

/// The key hints of the footer, by mode.
pub open spec fn footer_of(v: LauncherView) -> Seq<char> {
    if v.mode == InputMode::Command {
        "Tab -> next slot | Enter -> execute | Esc cancel"@
    } else if v.calc_result is Some {
        "↑↓ select | Enter -> copy result | Ctrl+C copy path | Esc hide"@
    } else {
        "↑↓ select  |  Enter execute  | Ctrl+C copy |  Tab → command mode  |  Esc hide"@
    }
}

/// The icon for an item with icon file `path`.
pub fn icon_of(path: &Option<String>) -> (r: Icon)
    ensures
        r@ == icon_for(opt_view(*path)),
{
    match path {
        Some(p) => {
            let v = chars_of(p.as_str());
            let n = v.len();
            proof {
                reveal_strlit(".svg");
            }
            let svg = chars_of(".svg");
            let is_svg = if n >= 4 {
                let tail = crate::text::slice_chars(v.as_slice(), n - 4, n);
                assert(tail@ =~= p@.skip(p@.len() - 4));
                crate::text::eq_chars(tail.as_slice(), svg.as_slice())
            } else {
                false
            };
            if is_svg {
                Icon::Svg(copy_string(p))
            } else {
                Icon::Picture(copy_string(p))
            }
        },
        None => Icon::Blank,
    }
}

impl Launcher {
    /// The rows to draw, in order.
    pub fn rows(&self) -> (r: Vec<Row>)
        ensures
            r@.len() == shown_rows(self@),
            forall|i: int| 0 <= i < r@.len() ==> (#[trigger] r@[i])@ == row_at(self@, i),
    {
        let n = if self.results.len() < MAX_ROWS {
            self.results.len()
        } else {
            MAX_ROWS
        };
        let mut r: Vec<Row> = Vec::new();
        for i in 0..n
            invariant
                n == shown_rows(self@),
                n <= self.results@.len(),
                r@.len() == i,
                forall|k: int| 0 <= k < i ==> (#[trigger] r@[k])@ == row_at(self@, k),
        {
            let answer = match &self.calc_result {
                Some(c) => i == 0,
                None => false,
            };
            if answer {
                let c = match &self.calc_result {
                    Some(c) => c,
                    None => {
                        assert(false);
                        return r;
                    },
                };
                let q = trim_str(self.query.as_str());
                let sum = concat3(q.as_str(), " = ", c.as_str());
                let hint = if self.selected == 0 {
                    String::from_str("⏎ copied to clipboard")
                } else {
                    String::from_str("Enter to copy result")
                };
                r.push(
                    Row::Answer {
                        value: copy_string(c),
                        sum,
                        hint,
                        selected: self.selected == 0,
                    },
                );
            } else {
                let it = &self.results[i].item;
                r.push(
                    Row::Item {
                        index: i,
                        title: copy_string(&it.title),
                        subtitle: copy_opt_string(&it.subtitle),
                        icon: icon_of(&it.icon_path),
                        selected: self.selected == i,
                    },
                );
            }
        }
        r
    }

    /// The input's placeholder and the badge beside the footer.
    pub fn prompt(&self) -> (r: (String, Option<String>))
        requires
            self.command_state matches Some(c) ==> c.active_slot < usize::MAX,
        ensures
            (r.0@, opt_view(r.1)) == prompt_of(self@),
    {
        match &self.command_state {
            Some(c) => {
                if self.mode == InputMode::Command {
                    let ph = if c.active_slot < c.slots.len() {
                        copy_string(&c.slots[c.active_slot].name)
                    } else {
                        String::from_str("value")
                    };
                    let a = concat3("⌘ ", c.shortcut_name.as_str(), " > ");
                    let b = concat3(a.as_str(), ph.as_str(), " (");
                    let pos = decimal_string(c.active_slot + 1);
                    let count = decimal_string(c.slots.len());
                    let d = concat3(b.as_str(), pos.as_str(), "/");
                    let label = concat3(d.as_str(), count.as_str(), ")");
                    return (ph, Some(label));
                }
            },
            None => {},
        }
        (String::from_str("Search or type > for commands..."), None)
    }

    /// The key hints of the footer.
    pub fn footer(&self) -> (r: &'static str)
        ensures
            r@ == footer_of(self@),
    {
        if self.mode == InputMode::Command {
            "Tab -> next slot | Enter -> execute | Esc cancel"
        } else if self.calc_result.is_some() {
            "↑↓ select | Enter -> copy result | Ctrl+C copy path | Esc hide"
        } else {
            "↑↓ select  |  Enter execute  | Ctrl+C copy |  Tab → command mode  |  Esc hide"
        }
    }
}

/// A key pressed in the window.
#[derive(Debug)]
pub enum Key {
    ArrowDown,
    ArrowUp,
    Enter,
    Escape,
    Tab,
    /// A key that types the text.
    Character(String),
    Other,
}

/// The kind of message a key press sends (with Control held or not);
/// `None` when the key does nothing.
pub open spec fn key_message(k: Key, control: bool) -> Option<MessageKind> {
    match k {
        Key::ArrowDown => Some(MessageKind::SelectDown),
        Key::ArrowUp => Some(MessageKind::SelectUp),
        Key::Enter => Some(MessageKind::Execute),
        Key::Escape => Some(MessageKind::Hide),
        Key::Tab => Some(MessageKind::Tab),
        Key::Character(c) => if c@ == "c"@ && control {
            Some(MessageKind::CopySelected)
        } else {
            None
        },
        Key::Other => None,
    }
}

/// The message a key press sends, if any.
pub fn message_for_key(k: &Key, control: bool) -> (r: Option<Message>)
    ensures
        match r {
            Some(m) => key_message(*k, control) == Some(message_parts(m).0),
            None => key_message(*k, control) is None,
        },
{
    match k {
        Key::ArrowDown => Some(Message::SelectDown),
        Key::ArrowUp => Some(Message::SelectUp),
        Key::Enter => Some(Message::Execute),
        Key::Escape => Some(Message::Hide),
        Key::Tab => Some(Message::Tab),
        Key::Character(c) => {
            if control && crate::text::str_eq(c.as_str(), "c") {
                Some(Message::CopySelected)
            } else {
                None
            }
        },
        Key::Other => None,
    }
}

} // verus!
