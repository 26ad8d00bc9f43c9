use vstd::prelude::*;
use crate::config::keymap::single_key::{KeyCombo, SingleKey};
use crate::text::concat2;

pub mod single_key;
pub mod checkmark;
pub mod explore;
pub mod stack;
pub mod surf;

verus! {

broadcast use vstd::string::group_string_axioms;

/// The keys of all search screens.
#[derive(Debug, Clone)]
pub struct Keymap {
    pub surf: crate::config::keymap::surf::SurfKeymap,
    pub checkmark: crate::config::keymap::checkmark::CheckmarkKeymap,
    pub stack: crate::config::keymap::stack::StackKeymap,
    pub explore: crate::config::keymap::explore::ExploreKeymap,
}

/// A key bound to an action of a search screen, with the `skim` action it triggers there.
#[derive(Debug, Clone)]
pub struct Binding<A> {
    pub key: SingleKey,
    pub skim_action: String,
    pub action: A,
}

/// The key bindings of a search screen.
#[derive(Debug, Clone)]
pub struct Bindings<A> {
    pub entries: Vec<Binding<A>>,
}

/// True when no two of `keys` are written the same.
pub open spec fn keys_distinct(keys: Seq<SingleKey>) -> bool {
    forall|i: int, j: int| 0 <= i < j < keys.len() ==> keys[i].combo@ != keys[j].combo@
}

/// Whether no two of `keys` are written the same: a keymap of the configuration may not bind
/// one key combination twice.
pub fn all_keys_distinct(keys: &Vec<SingleKey>) -> (b: bool)
    ensures
        b == keys_distinct(keys@),
{
    let mut i: usize = 0;
    while i < keys.len()
        invariant
            i <= keys@.len(),
            forall|a: int, b: int| 0 <= a < b < keys@.len() && a < i ==> keys@[a].combo@ != keys@[b].combo@,
        decreases keys@.len() - i,
    {
        let mut j: usize = i + 1;
        while j < keys.len()
            invariant
                i < keys@.len(),
                i + 1 <= j <= keys@.len(),
                forall|a: int, b: int| 0 <= a < b < keys@.len() && a < i ==> keys@[a].combo@ != keys@[b].combo@,
                forall|b: int| i < b < j ==> keys@[i as int].combo@ != keys@[b].combo@,
            decreases keys@.len() - j,
        {
            if crate::text::str_eq(keys[i].combo.as_str(), keys[j].combo.as_str()) {
                return false;
            }
            j = j + 1;
        }
        i = i + 1;
    }
    true
}

/// The text that `skim` is given for a binding: the key combination, `:` and the action.
pub open spec fn descriptor(b: (Seq<char>, Seq<char>)) -> Seq<char> {
    b.0 + ":"@ + b.1
}

/// The index of the first binding of `key`, if any.
pub open spec fn first_binding<A>(entries: Seq<Binding<A>>, key: KeyCombo) -> Option<int> {
    if exists|i: int| 0 <= i < entries.len() && entries[i].key.tui_combo == key {
        Some(choose|i: int| 0 <= i < entries.len() && entries[i].key.tui_combo == key
            && forall|j: int| 0 <= j < i ==> entries[j].key.tui_combo != key)
    } else {
        None
    }
}

impl<A: Copy> Bindings<A> {
    /// The descriptors that `skim` binds the keys with, one per binding, in order.
    pub fn keys_descriptors(&self) -> (v: Vec<String>)
        ensures
            v@.len() == self.entries@.len(),
            forall|i: int|
                0 <= i < v@.len() ==> #[trigger] v@[i]@ == descriptor(
                    (self.entries@[i].key.combo@, self.entries@[i].skim_action@),
                ),
    {
        let mut v: Vec<String> = Vec::new();
        let mut i: usize = 0;
        while i < self.entries.len()
            invariant
                i <= self.entries@.len(),
                v@.len() == i,
                forall|k: int|
                    0 <= k < i ==> #[trigger] v@[k]@ == descriptor(
                        (self.entries@[k].key.combo@, self.entries@[k].skim_action@),
                    ),
            decreases self.entries@.len() - i,
        {
            let a = concat2(self.entries[i].key.combo.as_str(), ":");
            let d = concat2(a.as_str(), self.entries[i].skim_action.as_str());
            v.push(d);
            i = i + 1;
        }
        v
    }

    /// The action bound to `key`: that of its first binding, if it has one.
    pub fn action_for(&self, key: KeyCombo) -> (a: Option<A>)
        ensures
            match first_binding(self.entries@, key) {
                Some(i) => a == Some(self.entries@[i].action),
                None => a is None,
            },
    {
        let mut i: usize = 0;
        while i < self.entries.len()
            invariant
                i <= self.entries@.len(),
                forall|j: int| 0 <= j < i ==> self.entries@[j].key.tui_combo != key,
            decreases self.entries@.len() - i,
        {
            if self.entries[i].key.tui_combo == key {
                let ghost k = choose|k: int| 0 <= k < self.entries@.len() && self.entries@[k].key.tui_combo == key
                    && forall|j: int| 0 <= j < k ==> self.entries@[j].key.tui_combo != key;
                proof {
                    if k < i {
                    } else if k > i {
                        assert(self.entries@[i as int].key.tui_combo == key);
                    }
                }
                return Some(self.entries[i].action);
            }
            i = i + 1;
        }
        None
    }
}

} // verus!
