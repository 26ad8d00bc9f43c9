use vstd::prelude::*;
use crate::config::keymap::single_key::SingleKey;
use crate::config::keymap::{all_keys_distinct, keys_distinct, Binding, Bindings};
use crate::config::node::{err_view, ConfigNode, ErrView, NodeError};
use crate::config::read::{key_view, section_from_node, section_result, tag_views, KeyView};

verus! {

broadcast use vstd::string::group_string_axioms;

/// The actions of the checkmark screen that keys can be bound to.
#[derive(Debug, Clone, Copy, PartialEq, Eq, Structural, Hash)]
pub enum Action {
    JumpToTask,
    CopyTaskSubtree,
    WidenContext,
    NarrowContext,
    ReturnToExplore,
}

/// The keys of the checkmark screen, one per action.
#[derive(Debug, Clone)]
pub struct CheckmarkKeymap {
    pub jump_to_task: SingleKey,
    pub copy_task_subtree_into_clipboard: SingleKey,
    pub widen_context_to_all_tasks: SingleKey,
    pub narrow_context_to_selected_task_subtree: SingleKey,
    pub return_to_explore: SingleKey,
}

/// The name of the configuration section that holds the checkmark keys.
pub open spec fn section() -> Seq<char> {
    "checkmark"@
}

impl CheckmarkKeymap {
    /// The keys, in the order of the actions.
    pub open spec fn spec_keys(&self) -> Seq<SingleKey> {
        seq![self.jump_to_task, self.copy_task_subtree_into_clipboard, self.widen_context_to_all_tasks, self.narrow_context_to_selected_task_subtree, self.return_to_explore]
    }

    /// The actions, in order.
    pub open spec fn spec_actions() -> Seq<Action> {
        seq![Action::JumpToTask, Action::CopyTaskSubtree, Action::WidenContext, Action::NarrowContext, Action::ReturnToExplore]
    }

    /// The `skim` action that each key triggers, in the order of the actions.
    pub open spec fn spec_skim_actions() -> Seq<Seq<char>> {
        seq!["accept"@, "accept"@, "accept"@, "accept"@, "accept"@]
    }

    /// The keys, in the order of the actions.
    pub fn keys(&self) -> (v: Vec<SingleKey>)
        ensures
            v@ == self.spec_keys(),
    {
        let mut v: Vec<SingleKey> = Vec::new();
        v.push(self.jump_to_task.duplicate());
        v.push(self.copy_task_subtree_into_clipboard.duplicate());
        v.push(self.widen_context_to_all_tasks.duplicate());
        v.push(self.narrow_context_to_selected_task_subtree.duplicate());
        v.push(self.return_to_explore.duplicate());
        assert(v@ =~= self.spec_keys());
        v
    }

    /// Whether no key combination is bound twice.
    pub fn has_unique_keys(&self) -> (b: bool)
        ensures
            b == keys_distinct(self.spec_keys()),
    {
        let keys = self.keys();
        all_keys_distinct(&keys)
    }

    /// The bindings of the keys: each key with the `skim` action it triggers and its action.
    pub fn bindings(&self) -> (b: Bindings<Action>)
        ensures
            b.entries@.len() == 5,
            forall|i: int|
                0 <= i < 5 ==> #[trigger] b.entries@[i].key == self.spec_keys()[i] && b.entries@[i].skim_action@
                    == Self::spec_skim_actions()[i] && b.entries@[i].action == Self::spec_actions()[i],
    {
        let mut entries: Vec<Binding<Action>> = Vec::new();
        entries.push(Binding { key: self.jump_to_task.duplicate(), skim_action: String::from_str("accept"), action: Action::JumpToTask });
        entries.push(Binding { key: self.copy_task_subtree_into_clipboard.duplicate(), skim_action: String::from_str("accept"), action: Action::CopyTaskSubtree });
        entries.push(Binding { key: self.widen_context_to_all_tasks.duplicate(), skim_action: String::from_str("accept"), action: Action::WidenContext });
        entries.push(Binding { key: self.narrow_context_to_selected_task_subtree.duplicate(), skim_action: String::from_str("accept"), action: Action::NarrowContext });
        entries.push(Binding { key: self.return_to_explore.duplicate(), skim_action: String::from_str("accept"), action: Action::ReturnToExplore });
        let b = Bindings { entries };
        proof {
            reveal_strlit("accept");
        }
        b
    }
}

/// The names of the children of the section that hold the keys, in the order of the actions.
pub open spec fn section_tags() -> Seq<Seq<char>> {
    seq!["jump_to_task"@, "copy_task_subtree_into_clipboard"@, "widen_context_to_all_tasks"@, "narrow_context_to_selected_task_subtree"@, "return_to_explore"@]
}

impl CheckmarkKeymap {
    /// Reads the section from the configuration node `n`: a child for each action, each a key
    /// combination, none written twice.
    pub fn from_node(n: &ConfigNode) -> (r: Result<CheckmarkKeymap, NodeError>)
        ensures
            match r {
                Ok(k) => section_result(*n, section(), section_tags()) == Ok::<Seq<KeyView>, ErrView>(
                    k.spec_keys().map_values(|x: SingleKey| key_view(x)),
                ),
                Err(e) => section_result(*n, section(), section_tags()) == Err::<Seq<KeyView>, ErrView>(err_view(e)),
            },
    {
        let tags = vec!["jump_to_task", "copy_task_subtree_into_clipboard", "widen_context_to_all_tasks", "narrow_context_to_selected_task_subtree", "return_to_explore"];
        assert(tag_views(tags@) =~= section_tags());
        let ks = match section_from_node(n, "checkmark", &tags) {
            Ok(ks) => ks,
            Err(e) => {
                return Err(e);
            },
        };
        let k = CheckmarkKeymap {
            jump_to_task: ks[0].duplicate(),
            copy_task_subtree_into_clipboard: ks[1].duplicate(),
            widen_context_to_all_tasks: ks[2].duplicate(),
            narrow_context_to_selected_task_subtree: ks[3].duplicate(),
            return_to_explore: ks[4].duplicate(),
        };
        assert(k.spec_keys() =~= ks@);
        Ok(k)
    }
}

} // verus!
