use vstd::prelude::*;
use crate::config::keymap::single_key::KeyCombo;

pub mod checkmark;
pub mod explore;
pub mod open;
pub mod stack_sequential;
pub mod surf;

verus! {

/// The key with which the user left a search screen.
#[derive(Debug, Clone, Copy, PartialEq, Eq, Structural)]
pub enum FinalKey {
    Enter,
    Esc,
    Ctrl(char),
    Alt(char),
    Other,
}

impl FinalKey {
    /// True for the keys that abort a screen: Escape and Control-c.
    pub open spec fn is_abort(self) -> bool {
        self == FinalKey::Esc || self == FinalKey::Ctrl('c')
    }

    /// The combination of a Control or Alt key.
    pub open spec fn spec_combo(self) -> Option<KeyCombo> {
        match self {
            FinalKey::Ctrl(c) => Some(KeyCombo::Ctrl(c)),
            FinalKey::Alt(c) => Some(KeyCombo::Alt(c)),
            _ => None,
        }
    }

    /// True for a key that runs a bound action: Control or Alt with a character, but not
    /// Control-c.
    pub open spec fn is_bound_key(self) -> bool {
        self.spec_combo() is Some && !self.is_abort()
    }

    /// Whether the key aborts the screen.
    pub fn aborts(&self) -> (b: bool)
        ensures
            b == self.is_abort(),
    {
        match self {
            FinalKey::Esc => true,
            FinalKey::Ctrl(c) => *c == 'c',
            _ => false,
        }
    }

    /// The combination of a Control or Alt key, which bindings are looked up by.
    pub fn combo(&self) -> (c: Option<KeyCombo>)
        ensures
            c == self.spec_combo(),
    {
        match self {
            FinalKey::Ctrl(c) => Some(KeyCombo::Ctrl(*c)),
            FinalKey::Alt(c) => Some(KeyCombo::Alt(*c)),
            _ => None,
        }
    }
}

/// The message of a screen left without any item selected.
pub open spec fn no_item_message() -> Seq<char> {
    "no item selected"@
}

/// The message of a screen that the user aborted; `cycle` names the screen.
pub open spec fn abort_message(cycle: Seq<char>) -> Seq<char> {
    "user chose to abort current iteration of "@ + cycle + " cycle"@
}

/// The message of a search screen that failed.
pub open spec fn skim_failed_message() -> Seq<char> {
    "skim internal errors"@
}

/// The message for an aborted screen named `cycle`.
pub fn abort_text(cycle: &str) -> (s: String)
    ensures
        s@ == abort_message(cycle@),
{
    let a = crate::text::concat2("user chose to abort current iteration of ", cycle);
    crate::text::concat2(a.as_str(), " cycle")
}

/// The message for a screen left without any item selected.
pub fn no_item_text() -> (s: String)
    ensures
        s@ == no_item_message(),
{
    String::from_str("no item selected")
}

/// The message for a search screen that failed.
pub fn skim_failed_text() -> (s: String)
    ensures
        s@ == skim_failed_message(),
{
    String::from_str("skim internal errors")
}

} // verus!
