//! Reading the configured global hotkey: which modifier and which key.
use vstd::prelude::*;

use crate::config::HotkeyConfig;
use crate::text::str_eq;

verus! {

/// The modifier of the global hotkey.
#[derive(Clone, Copy, Debug, PartialEq, Eq, Structural)]
pub enum HotkeyModifier {
    Control,
    Meta,
    Alt,
    Shift,
}

/// The key of the global hotkey.
#[derive(Clone, Copy, Debug, PartialEq, Eq, Structural)]
pub enum HotkeyKey {
    Space,
    Enter,
    K,
    J,
    Slash,
}

/// What `str::to_lowercase` gives for `s`.
pub uninterp spec fn lowercase(s: Seq<char>) -> Seq<char>;

/// `str::to_lowercase`: the lowercase equivalent of `s` by the Unicode
/// Lowercase property. Claimed: the result is `lowercase` of `s`, which
/// depends on `s` alone; what that is is not stated.
#[verifier::external_body]
fn to_lowercase(s: &str) -> (r: String)
    ensures
        r@ == lowercase(s@),
{
    s.to_lowercase()
}

/// The modifier a configured name stands for (in lower case); Control when unknown.
pub open spec fn modifier_named(n: Seq<char>) -> HotkeyModifier {
    if n == "control"@ || n == "ctrl"@ {
        HotkeyModifier::Control
    } else if n == "meta"@ || n == "cmd"@ || n == "super"@ {
        HotkeyModifier::Meta
    } else if n == "alt"@ {
        HotkeyModifier::Alt
    } else if n == "shift"@ {
        HotkeyModifier::Shift
    } else {
        HotkeyModifier::Control
    }
}

/// The key a configured name stands for (in lower case); Space when unknown.
pub open spec fn key_named(n: Seq<char>) -> HotkeyKey {
    if n == "space"@ {
        HotkeyKey::Space
    } else if n == "enter"@ {
        HotkeyKey::Enter
    } else if n == "k"@ {
        HotkeyKey::K
    } else if n == "j"@ {
        HotkeyKey::J
    } else if n == "slash"@ || n == "/"@ {
        HotkeyKey::Slash
    } else {
        HotkeyKey::Space
    }
}

/// The modifier named `n` (already in lower case).
pub fn modifier_from_name(n: &str) -> (r: HotkeyModifier)
    ensures
        r == modifier_named(n@),
{
    if str_eq(n, "control") || str_eq(n, "ctrl") {
        HotkeyModifier::Control
    } else if str_eq(n, "meta") || str_eq(n, "cmd") || str_eq(n, "super") {
        HotkeyModifier::Meta
    } else if str_eq(n, "alt") {
        HotkeyModifier::Alt
    } else if str_eq(n, "shift") {
        HotkeyModifier::Shift
    } else {
        HotkeyModifier::Control
    }
}

/// The key named `n` (already in lower case).
pub fn key_from_name(n: &str) -> (r: HotkeyKey)
    ensures
        r == key_named(n@),
{
    if str_eq(n, "space") {
        HotkeyKey::Space
    } else if str_eq(n, "enter") {
        HotkeyKey::Enter
    } else if str_eq(n, "k") {
        HotkeyKey::K
    } else if str_eq(n, "j") {
        HotkeyKey::J
    } else if str_eq(n, "slash") || str_eq(n, "/") {
        HotkeyKey::Slash
    } else {
        HotkeyKey::Space
    }
}

impl HotkeyConfig {
    /// The modifier and key this configuration names, compared in lower case.
    pub fn binding(&self) -> (r: (HotkeyModifier, HotkeyKey))
        ensures
            r.0 == modifier_named(lowercase(self.modifiers@)),
            r.1 == key_named(lowercase(self.key@)),
    {
        let m = to_lowercase(self.modifiers.as_str());
        let k = to_lowercase(self.key.as_str());
        (modifier_from_name(m.as_str()), key_from_name(k.as_str()))
    }
}

} // verus!
