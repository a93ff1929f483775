//! What running an item does, the calculator's recognition of arithmetic,
//! and the special items made from the query itself (URLs, sums).
use vstd::prelude::*;
use vstd::utf8::encode_utf8;

use crate::models::{ItemType, ItemView, LauncherItem};
use crate::text::{
    chars_of, concat3, concat_str, contains, copy_string, copy_strings, has_char, has_char_exec,
    last_piece, last_piece_chars, lemma_utf8_len_at_least, lemma_utf8_len_one,
    lemma_utf8_len_two, utf8_shorter_than_two, opt_view, replace_all, starts_with, str_contains, str_replace,
    str_starts_with, string_of, trim, trim_str, words, words_of,
};
use crate::url::{url_encode, url_encoded};

verus! {

/// Something the launcher can do.
#[derive(Debug)]
pub enum Action {
    LaunchApp(String),
    OpenFile(String),
    OpenUrl(String),
    RunCommand(String),
    Custom(String, Vec<String>),
    CopyToClipboard(String),
}

/// An action as values.
pub enum ActionView {
    LaunchApp(Seq<char>),
    OpenFile(Seq<char>),
    OpenUrl(Seq<char>),
    RunCommand(Seq<char>),
    Custom(Seq<char>, Seq<Seq<char>>),
    CopyToClipboard(Seq<char>),
}

impl View for Action {
    type V = ActionView;

    open spec fn view(&self) -> ActionView {
        match self {
            Action::LaunchApp(s) => ActionView::LaunchApp(s@),
            Action::OpenFile(s) => ActionView::OpenFile(s@),
            Action::OpenUrl(s) => ActionView::OpenUrl(s@),
            Action::RunCommand(s) => ActionView::RunCommand(s@),
            Action::Custom(s, a) => ActionView::Custom(s@, a.deep_view()),
            Action::CopyToClipboard(s) => ActionView::CopyToClipboard(s@),
        }
    }
}

impl Clone for Action {
    fn clone(&self) -> (r: Self)
        ensures
            r@ == self@,
    {
        match self {
            Action::LaunchApp(s) => Action::LaunchApp(copy_string(s)),
            Action::OpenFile(s) => Action::OpenFile(copy_string(s)),
            Action::OpenUrl(s) => Action::OpenUrl(copy_string(s)),
            Action::RunCommand(s) => Action::RunCommand(copy_string(s)),
            Action::Custom(s, a) => Action::Custom(copy_string(s), copy_strings(a)),
            Action::CopyToClipboard(s) => Action::CopyToClipboard(copy_string(s)),
        }
    }
}

/// What running `item` does.
pub open spec fn action_for(item: ItemView) -> ActionView {
    match item.item_type {
        ItemType::Application => match item.path {
            Some(p) => ActionView::LaunchApp(p),
            None => ActionView::OpenUrl(
                "https://www.google.com/search?q="@ + url_encoded(item.title),
            ),
        },
        ItemType::File | ItemType::Folder => match item.path {
            Some(p) => ActionView::OpenFile(p),
            None => ActionView::RunCommand("echo No Path Available"@),
        },
        ItemType::Command | ItemType::Script => match item.path {
            Some(p) => ActionView::RunCommand(p),
            None => ActionView::RunCommand(item.title),
        },
        ItemType::Url => match item.path {
            Some(p) => ActionView::OpenUrl(p),
            None => ActionView::RunCommand(item.title),
        },
    }
}

/// Running an item: a file or folder with a path is opened at that path,
/// an application with a path is launched from it, a web address with a
/// path is opened as a URL, a command or script with a path runs that path;
/// without a path, files and folders say so, applications are searched for
/// on the web, and the rest run their title.
pub proof fn lemma_action_by_kind(item: ItemView)
    ensures
        (item.item_type == ItemType::File || item.item_type == ItemType::Folder) ==> action_for(item)
            == match item.path {
            Some(p) => ActionView::OpenFile(p),
            None => ActionView::RunCommand("echo No Path Available"@),
        },
        item.item_type == ItemType::Application ==> action_for(item) == match item.path {
            Some(p) => ActionView::LaunchApp(p),
            None => ActionView::OpenUrl("https://www.google.com/search?q="@ + url_encoded(item.title)),
        },
        (item.item_type == ItemType::Command || item.item_type == ItemType::Script) ==> action_for(item)
            == ActionView::RunCommand(
            match item.path {
                Some(p) => p,
                None => item.title,
            },
        ),
        item.item_type == ItemType::Url ==> action_for(item) == match item.path {
            Some(p) => ActionView::OpenUrl(p),
            None => ActionView::RunCommand(item.title),
        },
{
}

/// A desktop-entry field code such as `%U`: `%` and one more byte.
pub open spec fn is_field_code(w: Seq<char>) -> bool {
    w.len() > 0 && w[0] == '%' && encode_utf8(w).len() == 2
}

/// The words of `ws` that are not field codes, in order.
pub open spec fn without_field_codes(ws: Seq<Seq<char>>) -> Seq<Seq<char>>
    decreases ws.len(),
{
    if ws.len() == 0 {
        ws
    } else {
        let k = without_field_codes(ws.drop_last());
        if is_field_code(ws.last()) {
            k
        } else {
            k.push(ws.last())
        }
    }
}

/// The program and arguments that launching the command line `path` runs:
/// its words without field codes; nothing when none are left.
pub open spec fn launch_words(path: Seq<char>) -> Seq<Seq<char>> {
    without_field_codes(words(path))
}

proof fn lemma_field_code(w: Seq<char>)
    ensures
        is_field_code(w) <==> (w.len() == 2 && w[0] == '%' && (w[1] as u32) < 0x80),
{
    lemma_utf8_len_at_least(w);
    if w.len() == 2 {
        assert(w =~= seq![w[0], w[1]]);
        lemma_utf8_len_two(w[0], w[1]);
        lemma_utf8_len_one(w[0]);
        lemma_utf8_len_one(w[1]);
    } else if w.len() == 1 {
        assert(w =~= seq![w[0]]);
        lemma_utf8_len_one(w[0]);
    }
}

/// Unit struct that groups what an item's activation does.
pub struct ActionHandler;

impl ActionHandler {
    /// What running `item` does.
    pub fn determine_action(item: &LauncherItem) -> (r: Action)
        ensures
            r@ == action_for(item@),
    {
        match item.item_type {
            ItemType::Application => match &item.path {
                Some(p) => Action::LaunchApp(copy_string(p)),
                None => {
                    let q = url_encode(item.title.as_str());
                    Action::OpenUrl(concat_str("https://www.google.com/search?q=", q.as_str()))
                },
            },
            ItemType::File | ItemType::Folder => match &item.path {
                Some(p) => Action::OpenFile(copy_string(p)),
                None => Action::RunCommand(String::from_str("echo No Path Available")),
            },
            ItemType::Command | ItemType::Script => match &item.path {
                Some(p) => Action::RunCommand(copy_string(p)),
                None => Action::RunCommand(copy_string(&item.title)),
            },
            ItemType::Url => match &item.path {
                Some(p) => Action::OpenUrl(copy_string(p)),
                None => Action::RunCommand(copy_string(&item.title)),
            },
        }
    }

    /// Copying `item` puts its path on the clipboard, or its title when it has none.
    pub fn copy_action_for(item: &LauncherItem) -> (r: Action)
        ensures
            r@ == ActionView::CopyToClipboard(
                match item@.path {
                    Some(p) => p,
                    None => item@.title,
                },
            ),
    {
        match &item.path {
            Some(p) => Action::CopyToClipboard(copy_string(p)),
            None => Action::CopyToClipboard(copy_string(&item.title)),
        }
    }

    /// The program and its arguments for launching the command line `path` of
    /// an application on Linux; `None` when it names no program.
    pub fn launch_parts(path: &str) -> (r: Option<(String, Vec<String>)>)
        ensures
            match r {
                Some((prog, args)) => launch_words(path@).len() > 0 && prog@ == launch_words(
                    path@,
                )[0] && args.deep_view() == launch_words(path@).drop_first(),
                None => launch_words(path@).len() == 0,
            },
    {
        let chars = chars_of(path);
        let ws = words_of(chars.as_slice());
        let mut kept: Vec<String> = Vec::new();
        let ghost wv = ws.deep_view();
        for i in 0..ws.len()
            invariant
                wv == ws.deep_view(),
                kept.deep_view() == without_field_codes(wv.take(i as int)),
        {
            let w = &ws[i];
            let wc = chars_of(w.as_str());
            let code = wc.len() == 2 && wc[0] == '%' && (wc[1] as u32) < 0x80;
            proof {
                lemma_field_code(w@);
                assert(wv.take(i + 1 as int).drop_last() =~= wv.take(i as int));
                assert(wv[i as int] == w@);
            }
            if !code {
                kept.push(copy_string(w));
                assert(kept.deep_view() =~= without_field_codes(wv.take(i as int)).push(w@));
            }
        }
        assert(wv.take(wv.len() as int) =~= wv);
        if kept.len() == 0 {
            return None;
        }
        let prog = copy_string(&kept[0]);
        let mut args: Vec<String> = Vec::new();
        for j in 1..kept.len()
            invariant
                1 <= kept@.len(),
                args@.len() == j - 1,
                forall|m: int| 0 <= m < j - 1 ==> #[trigger] args@[m]@ == kept@[m + 1]@,
        {
            args.push(copy_string(&kept[j]));
        }
        assert(args.deep_view() =~= kept.deep_view().drop_first());
        Some((prog, args))
    }
}

/// Whether `c` is one of `0` to `9`.
pub open spec fn is_ascii_digit(c: char) -> bool {
    48 <= c as u32 <= 57
}

/// The query names an arithmetic operator.
pub open spec fn has_operator(q: Seq<char>) -> bool {
    ||| has_char(q, '+')
    ||| has_char(q, '-')
    ||| has_char(q, '*')
    ||| has_char(q, '/')
    ||| has_char(q, '^')
    ||| has_char(q, '%')
    ||| has_char(q, 'x')
    ||| has_char(q, '÷')
}

/// The query names a function or constant the calculator knows.
pub open spec fn has_function(q: Seq<char>) -> bool {
    ||| contains(q, "sin"@)
    ||| contains(q, "cos"@)
    ||| contains(q, "tan"@)
    ||| contains(q, "sqrt"@)
    ||| contains(q, "log"@)
    ||| contains(q, "abs"@)
    ||| contains(q, "pi"@)
    ||| has_char(q, 'π')
    ||| contains(q, "tau"@)
}

/// The trimmed query is at least two bytes long, holds a digit and an
/// operator or a known function.
pub open spec fn looks_like_math(query: Seq<char>) -> bool {
    let q = trim(query);
    &&& encode_utf8(q).len() >= 2
    &&& exists|i: int| 0 <= i < q.len() && is_ascii_digit(q[i])
    &&& has_operator(q) || has_function(q)
}

/// A trimmed query of at least two bytes that holds an ASCII digit and one
/// of the operators `+ - * / ^ % x ÷` looks like a sum.
pub proof fn lemma_operator_makes_sum(query: Seq<char>, i: int, j: int)
    requires
        encode_utf8(trim(query)).len() >= 2,
        0 <= i < trim(query).len(),
        48 <= trim(query)[i] as u32 <= 57,
        0 <= j < trim(query).len(),
        ({
            let c = trim(query)[j];
            c == '+' || c == '-' || c == '*' || c == '/' || c == '^' || c == '%' || c == 'x'
                || c == '÷'
        }),
    ensures
        looks_like_math(query),
{
    let q = trim(query);
    assert(is_ascii_digit(q[i]));
    assert(has_char(q, q[j]));
}

/// A query without an ASCII digit, or shorter than two bytes once trimmed,
/// never looks like a sum.
pub proof fn lemma_sum_needs_digit(query: Seq<char>)
    requires
        (forall|i: int| 0 <= i < trim(query).len() ==> !(48 <= #[trigger] trim(query)[i] as u32 <= 57))
            || encode_utf8(trim(query)).len() < 2,
    ensures
        !looks_like_math(query),
{
}

/// The expression handed to the evaluator: `x` as `*`, `÷` as `/`, `^` as
/// `**`, and `π`, `pi`, `tau` spelled out as numbers, in that order.
pub open spec fn normalised(e: Seq<char>) -> Seq<char> {
    let a = replace_all(e, "x"@, "*"@);
    let b = replace_all(a, "÷"@, "/"@);
    let c = replace_all(b, "^"@, "**"@);
    let d = replace_all(c, "π"@, "3.141592653589793"@);
    let f = replace_all(d, "pi"@, "3.141592653589793"@);
    replace_all(f, "tau"@, "6.283185307179586"@)
}

/// Unit struct for the calculator's text handling.
pub struct CalculatorEngine;

impl CalculatorEngine {
    /// Whether the query is worth handing to the calculator.
    pub fn looks_like_math(query: &str) -> (b: bool)
        ensures
            b == looks_like_math(query@),
    {
        let t = trim_str(query);
        let q = chars_of(t.as_str());
        if utf8_shorter_than_two(q.as_slice()) {
            return false;
        }
        let mut digit = false;
        for i in 0..q.len()
            invariant
                digit == exists|j: int| 0 <= j < i && is_ascii_digit(q@[j]),
        {
            let u = q[i] as u32;
            if 48 <= u && u <= 57 {
                digit = true;
            }
        }
        if !digit {
            return false;
        }
        let s = q.as_slice();
        let has_op = has_char_exec(s, '+') || has_char_exec(s, '-') || has_char_exec(s, '*')
            || has_char_exec(s, '/') || has_char_exec(s, '^') || has_char_exec(s, '%')
            || has_char_exec(s, 'x') || has_char_exec(s, '÷');
        let has_fn = str_contains(t.as_str(), "sin") || str_contains(t.as_str(), "cos")
            || str_contains(t.as_str(), "tan") || str_contains(t.as_str(), "sqrt")
            || str_contains(t.as_str(), "log") || str_contains(t.as_str(), "abs")
            || str_contains(t.as_str(), "pi") || has_char_exec(s, 'π')
            || str_contains(t.as_str(), "tau");
        has_op || has_fn
    }

    /// The expression the evaluator is given for `expr`: the trimmed text
    /// rewritten as `normalised` says; `None` when nothing is left.
    pub fn normalise(expr: &str) -> (r: Option<String>)
        ensures
            match r {
                Some(e) => trim(expr@).len() > 0 && e@ == normalised(trim(expr@)),
                None => trim(expr@).len() == 0,
            },
    {
        let t = trim_str(expr);
        if t.as_str().is_empty() {
            return None;
        }
        proof {
            reveal_strlit("x");
            reveal_strlit("÷");
            reveal_strlit("^");
            reveal_strlit("π");
            reveal_strlit("pi");
            reveal_strlit("tau");
        }
        let a = str_replace(t.as_str(), "x", "*");
        let b = str_replace(a.as_str(), "÷", "/");
        let c = str_replace(b.as_str(), "^", "**");
        let d = str_replace(c.as_str(), "π", "3.141592653589793");
        let f = str_replace(d.as_str(), "pi", "3.141592653589793");
        let g = str_replace(f.as_str(), "tau", "6.283185307179586");
        Some(g)
    }
}

/// The query looks like a web address.
pub open spec fn looks_like_url(q: Seq<char>) -> bool {
    starts_with(q, "http"@) || contains(q, ".com"@) || contains(q, ".org"@)
}

/// The item that the query itself stands for, if any: a web address to
/// open, or a sum (with the calculator's answer `evaluation` for it, when
/// it had one).
pub open spec fn special_item(q: Seq<char>, evaluation: Option<Seq<char>>) -> Option<ItemView> {
    if looks_like_url(q) {
        let web = last_piece(q, "//"@);
        Some(
            ItemView {
                id: "web:"@ + web,
                title: "Open "@ + web,
                subtitle: Some("Web Search / URL"@),
                path: Some(q),
                icon_path: None,
                item_type: ItemType::Url,
                tags: seq!["web"@],
            },
        )
    } else if looks_like_math(q) {
        match evaluation {
            Some(res) => Some(
                ItemView {
                    id: "calc:"@ + q,
                    title: "= "@ + res,
                    subtitle: Some(q + " -> "@ + res),
                    path: Some(res),
                    icon_path: None,
                    item_type: ItemType::Command,
                    tags: seq!["calc"@, "calculator"@],
                },
            ),
            None => Some(
                ItemView {
                    id: "calc:"@ + q,
                    title: "..."@,
                    subtitle: Some("Calculating: "@ + q),
                    path: None,
                    icon_path: None,
                    item_type: ItemType::Command,
                    tags: seq!["calc"@],
                },
            ),
        }
    } else {
        None
    }
}

/// The item the query stands for, given the calculator's answer
/// `evaluation` for the query (consulted only when the query looks like a sum).
pub fn create_special_item(query: &str, evaluation: Option<String>) -> (r: Option<LauncherItem>)
    ensures
        match r {
            Some(item) => special_item(query@, opt_view(evaluation)) == Some(item@),
            None => special_item(query@, opt_view(evaluation)) is None,
        },
{
    if str_starts_with(query, "http") || str_contains(query, ".com") || str_contains(query, ".org") {
        let q = chars_of(query);
        let sep = chars_of("//");
        proof {
            reveal_strlit("//");
        }
        let web_chars = last_piece_chars(q.as_slice(), sep.as_slice());
        let web = string_of(web_chars.as_slice());
        let mut tags: Vec<String> = Vec::new();
        tags.push(String::from_str("web"));
        let item = LauncherItem {
            id: concat_str("web:", web.as_str()),
            title: concat_str("Open ", web.as_str()),
            subtitle: Some(String::from_str("Web Search / URL")),
            path: Some(String::from_str(query)),
            icon_path: None,
            item_type: ItemType::Url,
            tags,
        };
        assert(item@.tags =~= seq!["web"@]);
        return Some(item);
    }
    if CalculatorEngine::looks_like_math(query) {
        match evaluation {
            Some(result) => {
                let mut tags: Vec<String> = Vec::new();
                tags.push(String::from_str("calc"));
                tags.push(String::from_str("calculator"));
                let item = LauncherItem {
                    id: concat_str("calc:", query),
                    title: concat_str("= ", result.as_str()),
                    subtitle: Some(concat3(query, " -> ", result.as_str())),
                    path: Some(copy_string(&result)),
                    icon_path: None,
                    item_type: ItemType::Command,
                    tags,
                };
                assert(item@.tags =~= seq!["calc"@, "calculator"@]);
                return Some(item);
            },
            None => {
                let mut tags: Vec<String> = Vec::new();
                tags.push(String::from_str("calc"));
                let item = LauncherItem {
                    id: concat_str("calc:", query),
                    title: String::from_str("..."),
                    subtitle: Some(concat_str("Calculating: ", query)),
                    path: None,
                    icon_path: None,
                    item_type: ItemType::Command,
                    tags,
                };
                assert(item@.tags =~= seq!["calc"@]);
                return Some(item);
            },
        }
    }
    None
}

} // verus!
