use vstd::prelude::*;
use crate::config::surf_parsing::{is_match, regex_is_match};
use crate::text::{chars_of, concat2};

verus! {

broadcast use vstd::string::group_string_axioms;

/// A key combination of the terminal user interface: a character with Control or with Alt.
#[derive(Debug, Clone, Copy, PartialEq, Eq, Structural, Hash)]
pub enum KeyCombo {
    Ctrl(char),
    Alt(char),
}

/// A key combination as the configuration writes it (`ctrl-t`, `alt-t`) and as the terminal
/// user interface knows it.
#[derive(Debug, Clone, PartialEq, Eq, Hash)]
pub struct SingleKey {
    pub combo: String,
    pub tui_combo: KeyCombo,
}

/// The pattern that a key combination of the configuration must match.
pub open spec fn key_combo_pattern() -> Seq<char> {
    "^(ctrl-.)$|^(alt-.)$"@
}

/// True when `s` starts with `prefix`.
pub open spec fn starts_with(s: Seq<char>, prefix: Seq<char>) -> bool {
    prefix.len() <= s.len() && s.subrange(0, prefix.len() as int) == prefix
}

/// True when a combination text has the shape from which its key can be read: `ctrl` and at
/// least six characters, or `alt` and at least five.
pub open spec fn combo_shape(s: Seq<char>) -> bool {
    (starts_with(s, "ctrl"@) && s.len() >= 6) || (!starts_with(s, "ctrl"@) && starts_with(s, "alt"@) && s.len() >= 5)
}

/// The key that a combination text names: Control with its sixth character, or Alt with its
/// fifth.
pub open spec fn combo_key(s: Seq<char>) -> KeyCombo {
    if starts_with(s, "ctrl"@) {
        KeyCombo::Ctrl(s[5])
    } else {
        KeyCombo::Alt(s[4])
    }
}

/// The message given for a combination text that does not match the pattern.
pub open spec fn mismatch_message(s: Seq<char>) -> Seq<char> {
    "`"@ + s + "` doesn't match regex "@ + key_combo_pattern()
}

/// What reading the combination text `s` gives, when it matches the pattern exactly when
/// `matched` says so.
pub open spec fn single_key_result(s: Seq<char>, matched: bool) -> Result<(Seq<char>, KeyCombo), Seq<char>> {
    if !matched {
        Err(mismatch_message(s))
    } else if combo_key(s) == KeyCombo::Ctrl('c') {
        Err("`ctrl-c` binding is forbidden"@)
    } else {
        Ok((s, combo_key(s)))
    }
}

/// The view of the result of reading a key combination.
pub open spec fn single_key_view(r: Result<SingleKey, String>) -> Result<(Seq<char>, KeyCombo), Seq<char>> {
    match r {
        Ok(k) => Ok((k.combo@, k.tui_combo)),
        Err(e) => Err(e@),
    }
}

fn starts_with_exec(s: &Vec<char>, prefix: &str) -> (b: bool)
    ensures
        b == starts_with(s@, prefix@),
{
    let p = chars_of(prefix);
    if p.len() > s.len() {
        return false;
    }
    let mut i: usize = 0;
    while i < p.len()
        invariant
            p@ == prefix@,
            p.len() <= s.len(),
            i <= p.len(),
            forall|j: int| 0 <= j < i ==> s@[j] == p@[j],
        decreases p.len() - i,
    {
        if s[i] != p[i] {
            assert(s@.subrange(0, p@.len() as int)[i as int] != p@[i as int]);
            return false;
        }
        i = i + 1;
    }
    assert(s@.subrange(0, p@.len() as int) =~= p@);
    true
}

impl SingleKey {
    /// A copy of the key.
    pub fn duplicate(&self) -> (r: SingleKey)
        ensures
            r == *self,
    {
        SingleKey { combo: self.combo.clone(), tui_combo: self.tui_combo }
    }

    /// Reads a key combination text of which it is known whether it matches the key
    /// combination pattern (`matched`); one that matches has the shape of one.
    pub fn from_checked(combo: String, matched: bool) -> (r: Result<SingleKey, String>)
        requires
            matched ==> combo_shape(combo@),
        ensures
            single_key_view(r) == single_key_result(combo@, matched),
    {
        proof {
            reveal_strlit("ctrl");
            reveal_strlit("alt");
        }
        if !matched {
            let a = concat2("`", combo.as_str());
            let b = concat2(a.as_str(), "` doesn't match regex ");
            let m = concat2(b.as_str(), "^(ctrl-.)$|^(alt-.)$");
            return Err(m);
        }
        let cs = chars_of(combo.as_str());
        let tui_combo = if starts_with_exec(&cs, "ctrl") {
            KeyCombo::Ctrl(cs[5])
        } else {
            KeyCombo::Alt(cs[4])
        };
        if tui_combo == KeyCombo::Ctrl('c') {
            return Err(String::from_str("`ctrl-c` binding is forbidden"));
        }
        Ok(SingleKey { combo, tui_combo })
    }

    /// Reads a key combination text of the configuration: one that matches
    /// `^(ctrl-.)$|^(alt-.)$` names Control or Alt with its last character, except the
    /// forbidden `ctrl-c`.
    pub fn try_from_combo(combo: String) -> (r: Result<SingleKey, String>)
        ensures
            single_key_view(r) == single_key_result(
                combo@,
                regex_is_match(key_combo_pattern(), combo@) == Some(true) && combo_shape(combo@),
            ),
    {
        let matched = match is_match("^(ctrl-.)$|^(alt-.)$", combo.as_str()) {
            Some(m) => m,
            None => false,
        };
        proof {
            reveal_strlit("ctrl");
            reveal_strlit("alt");
        }
        let cs = chars_of(combo.as_str());
        let shaped = (starts_with_exec(&cs, "ctrl") && cs.len() >= 6) || (!starts_with_exec(&cs, "ctrl")
            && starts_with_exec(&cs, "alt") && cs.len() >= 5);
        SingleKey::from_checked(combo, matched && shaped)
    }
}

} // verus!
