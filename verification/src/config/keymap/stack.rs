use vstd::prelude::*;
use crate::config::keymap::single_key::SingleKey;
use crate::config::keymap::{all_keys_distinct, keys_distinct, Binding, Bindings};
use crate::config::node::{err_view, ConfigNode, ErrView, NodeError};
use crate::config::read::{key_view, section_from_node, section_result, tag_views, KeyView};

verus! {

broadcast use vstd::string::group_string_axioms;

/// The actions of the stack screen that keys can be bound to.
#[derive(Debug, Clone, Copy, PartialEq, Eq, Structural, Hash)]
pub enum Action {
    TogglePreviewType,
    PopNoteFromStack,
    MoveNoteToStackTop,
    ReturnToExplore,
    SwapWithAbove,
    SwapWithBelow,
    DeselectAll,
}

/// The keys of the stack screen, one per action.
#[derive(Debug, Clone)]
pub struct StackKeymap {
    pub toggle_preview_type: SingleKey,
    pub pop_note_from_stack: SingleKey,
    pub move_note_to_top_of_stack: SingleKey,
    pub return_to_explore: SingleKey,
    pub swap_with_above: SingleKey,
    pub swap_with_below: SingleKey,
    pub deselect_all: SingleKey,
}

/// The name of the configuration section that holds the stack keys.
pub open spec fn section() -> Seq<char> {
    "world.keymap.stack"@
}

impl StackKeymap {
    /// The keys, in the order of the actions.
    pub open spec fn spec_keys(&self) -> Seq<SingleKey> {
        seq![self.toggle_preview_type, self.pop_note_from_stack, self.move_note_to_top_of_stack, self.return_to_explore, self.swap_with_above, self.swap_with_below, self.deselect_all]
    }

    /// The actions, in order.
    pub open spec fn spec_actions() -> Seq<Action> {
        seq![Action::TogglePreviewType, Action::PopNoteFromStack, Action::MoveNoteToStackTop, Action::ReturnToExplore, Action::SwapWithAbove, Action::SwapWithBelow, Action::DeselectAll]
    }

    /// The `skim` action that each key triggers, in the order of the actions.
    pub open spec fn spec_skim_actions() -> Seq<Seq<char>> {
        seq!["accept"@, "accept"@, "accept"@, "accept"@, "accept"@, "accept"@, "deselect-all"@]
    }

    /// The keys, in the order of the actions.
    pub fn keys(&self) -> (v: Vec<SingleKey>)
        ensures
            v@ == self.spec_keys(),
    {
        let mut v: Vec<SingleKey> = Vec::new();
        v.push(self.toggle_preview_type.duplicate());
        v.push(self.pop_note_from_stack.duplicate());
        v.push(self.move_note_to_top_of_stack.duplicate());
        v.push(self.return_to_explore.duplicate());
        v.push(self.swap_with_above.duplicate());
        v.push(self.swap_with_below.duplicate());
        v.push(self.deselect_all.duplicate());
        assert(v@ =~= self.spec_keys());
        v
    }

    /// Whether no key combination is bound twice.
    pub fn has_unique_keys(&self) -> (b: bool)
        ensures
            b == keys_distinct(self.spec_keys()),
    {
        let keys = self.keys();
        all_keys_distinct(&keys)
    }

    /// The bindings of the keys: each key with the `skim` action it triggers and its action.
    pub fn bindings(&self) -> (b: Bindings<Action>)
        ensures
            b.entries@.len() == 7,
            forall|i: int|
                0 <= i < 7 ==> #[trigger] b.entries@[i].key == self.spec_keys()[i] && b.entries@[i].skim_action@
                    == Self::spec_skim_actions()[i] && b.entries@[i].action == Self::spec_actions()[i],
    {
        let mut entries: Vec<Binding<Action>> = Vec::new();
        entries.push(Binding { key: self.toggle_preview_type.duplicate(), skim_action: String::from_str("accept"), action: Action::TogglePreviewType });
        entries.push(Binding { key: self.pop_note_from_stack.duplicate(), skim_action: String::from_str("accept"), action: Action::PopNoteFromStack });
        entries.push(Binding { key: self.move_note_to_top_of_stack.duplicate(), skim_action: String::from_str("accept"), action: Action::MoveNoteToStackTop });
        entries.push(Binding { key: self.return_to_explore.duplicate(), skim_action: String::from_str("accept"), action: Action::ReturnToExplore });
        entries.push(Binding { key: self.swap_with_above.duplicate(), skim_action: String::from_str("accept"), action: Action::SwapWithAbove });
        entries.push(Binding { key: self.swap_with_below.duplicate(), skim_action: String::from_str("accept"), action: Action::SwapWithBelow });
        entries.push(Binding { key: self.deselect_all.duplicate(), skim_action: String::from_str("deselect-all"), action: Action::DeselectAll });
        let b = Bindings { entries };
        proof {
            reveal_strlit("accept");
            reveal_strlit("deselect-all");
        }
        b
    }
}

/// The names of the children of the section that hold the keys, in the order of the actions.
pub open spec fn section_tags() -> Seq<Seq<char>> {
    seq!["toggle_preview_type"@, "pop_note_from_stack"@, "move_note_to_top_of_stack"@, "return_to_explore"@, "swap_with_above"@, "swap_with_below"@, "deselect_all"@]
}

impl StackKeymap {
    /// Reads the section from the configuration node `n`: a child for each action, each a key
    /// combination, none written twice.
    pub fn from_node(n: &ConfigNode) -> (r: Result<StackKeymap, NodeError>)
        ensures
            match r {
                Ok(k) => section_result(*n, section(), section_tags()) == Ok::<Seq<KeyView>, ErrView>(
                    k.spec_keys().map_values(|x: SingleKey| key_view(x)),
                ),
                Err(e) => section_result(*n, section(), section_tags()) == Err::<Seq<KeyView>, ErrView>(err_view(e)),
            },
    {
        let tags = vec!["toggle_preview_type", "pop_note_from_stack", "move_note_to_top_of_stack", "return_to_explore", "swap_with_above", "swap_with_below", "deselect_all"];
        assert(tag_views(tags@) =~= section_tags());
        let ks = match section_from_node(n, "world.keymap.stack", &tags) {
            Ok(ks) => ks,
            Err(e) => {
                return Err(e);
            },
        };
        let k = StackKeymap {
            toggle_preview_type: ks[0].duplicate(),
            pop_note_from_stack: ks[1].duplicate(),
            move_note_to_top_of_stack: ks[2].duplicate(),
            return_to_explore: ks[3].duplicate(),
            swap_with_above: ks[4].duplicate(),
            swap_with_below: ks[5].duplicate(),
            deselect_all: ks[6].duplicate(),
        };
        assert(k.spec_keys() =~= ks@);
        Ok(k)
    }
}

} // verus!
