use vstd::prelude::*;
use crate::config::keymap::single_key::SingleKey;
use crate::config::keymap::{all_keys_distinct, keys_distinct, Binding, Bindings};
use crate::config::node::{err_view, ConfigNode, ErrView, NodeError};
use crate::config::read::{key_view, section_from_node, section_result, tag_views, KeyView};

verus! {

broadcast use vstd::string::group_string_axioms;

/// The actions of the surf screen that keys can be bound to.
#[derive(Debug, Clone, Copy, PartialEq, Eq, Structural, Hash)]
pub enum Action {
    OpenXDG,
    JumpToLinkOrSnippet,
    ReturnToExplore,
}

/// The keys of the surf screen, one per action.
#[derive(Debug, Clone)]
pub struct SurfKeymap {
    pub open_xdg: SingleKey,
    pub jump_to_link_or_snippet: SingleKey,
    pub return_to_explore: SingleKey,
}

/// The name of the configuration section that holds the surf keys.
pub open spec fn section() -> Seq<char> {
    "world.keymap.surf"@
}

impl SurfKeymap {
    /// The keys, in the order of the actions.
    pub open spec fn spec_keys(&self) -> Seq<SingleKey> {
        seq![self.open_xdg, self.jump_to_link_or_snippet, self.return_to_explore]
    }

    /// The actions, in order.
    pub open spec fn spec_actions() -> Seq<Action> {
        seq![Action::OpenXDG, Action::JumpToLinkOrSnippet, Action::ReturnToExplore]
    }

    /// The `skim` action that each key triggers, in the order of the actions.
    pub open spec fn spec_skim_actions() -> Seq<Seq<char>> {
        seq!["accept"@, "accept"@, "accept"@]
    }

    /// The keys, in the order of the actions.
    pub fn keys(&self) -> (v: Vec<SingleKey>)
        ensures
            v@ == self.spec_keys(),
    {
        let mut v: Vec<SingleKey> = Vec::new();
        v.push(self.open_xdg.duplicate());
        v.push(self.jump_to_link_or_snippet.duplicate());
        v.push(self.return_to_explore.duplicate());
        assert(v@ =~= self.spec_keys());
        v
    }

    /// Whether no key combination is bound twice.
    pub fn has_unique_keys(&self) -> (b: bool)
        ensures
            b == keys_distinct(self.spec_keys()),
    {
        let keys = self.keys();
        all_keys_distinct(&keys)
    }

    /// The bindings of the keys: each key with the `skim` action it triggers and its action.
    pub fn bindings(&self) -> (b: Bindings<Action>)
        ensures
            b.entries@.len() == 3,
            forall|i: int|
                0 <= i < 3 ==> #[trigger] b.entries@[i].key == self.spec_keys()[i] && b.entries@[i].skim_action@
                    == Self::spec_skim_actions()[i] && b.entries@[i].action == Self::spec_actions()[i],
    {
        let mut entries: Vec<Binding<Action>> = Vec::new();
        entries.push(Binding { key: self.open_xdg.duplicate(), skim_action: String::from_str("accept"), action: Action::OpenXDG });
        entries.push(Binding { key: self.jump_to_link_or_snippet.duplicate(), skim_action: String::from_str("accept"), action: Action::JumpToLinkOrSnippet });
        entries.push(Binding { key: self.return_to_explore.duplicate(), skim_action: String::from_str("accept"), action: Action::ReturnToExplore });
        let b = Bindings { entries };
        proof {
            reveal_strlit("accept");
        }
        b
    }
}

/// The names of the children of the section that hold the keys, in the order of the actions.
pub open spec fn section_tags() -> Seq<Seq<char>> {
    seq!["open_xdg"@, "jump_to_link_or_snippet"@, "return_to_explore"@]
}

impl SurfKeymap {
    /// Reads the section from the configuration node `n`: a child for each action, each a key
    /// combination, none written twice.
    pub fn from_node(n: &ConfigNode) -> (r: Result<SurfKeymap, NodeError>)
        ensures
            match r {
                Ok(k) => section_result(*n, section(), section_tags()) == Ok::<Seq<KeyView>, ErrView>(
                    k.spec_keys().map_values(|x: SingleKey| key_view(x)),
                ),
                Err(e) => section_result(*n, section(), section_tags()) == Err::<Seq<KeyView>, ErrView>(err_view(e)),
            },
    {
        let tags = vec!["open_xdg", "jump_to_link_or_snippet", "return_to_explore"];
        assert(tag_views(tags@) =~= section_tags());
        let ks = match section_from_node(n, "world.keymap.surf", &tags) {
            Ok(ks) => ks,
            Err(e) => {
                return Err(e);
            },
        };
        let k = SurfKeymap {
            open_xdg: ks[0].duplicate(),
            jump_to_link_or_snippet: ks[1].duplicate(),
            return_to_explore: ks[2].duplicate(),
        };
        assert(k.spec_keys() =~= ks@);
        Ok(k)
    }
}

} // verus!
