use vstd::prelude::*;
use crate::config::keymap::single_key::SingleKey;
use crate::config::keymap::{all_keys_distinct, keys_distinct, Binding, Bindings};
use crate::config::node::{err_view, ConfigNode, ErrView, NodeError};
use crate::config::read::{key_view, section_from_node, section_result, tag_views, KeyView};

verus! {

broadcast use vstd::string::group_string_axioms;

/// The actions of the explore screen that keys can be bound to.
#[derive(Debug, Clone, Copy, PartialEq, Eq, Structural, Hash)]
pub enum Action {
    OpenXDG,
    PopulateSearchWithBacklinks,
    PopulateSearchWithForwardlinks,
    TogglePreviewType,
    WidenToAllNotes,
    SurfNoteSubtree,
    CheckmarkNote,
    RenameNote,
    LinkFromSelectedNote,
    UnlinkFromSelectedNote,
    RemoveNote,
    CreateAutolinkedNote,
    ToggleLinksDirection,
    SpliceReachableChildrenOfNote,
    NarrowSelection,
    DecreaseUnlistedThreshold,
    IncreaseUnlistedThreshold,
    PushNoteToStack,
    SwitchModeToStack,
}

/// The keys of the explore screen, one per action.
#[derive(Debug, Clone)]
pub struct ExploreKeymap {
    pub open_xdg: SingleKey,
    pub populate_search_with_backlinks: SingleKey,
    pub populate_search_with_forwardlinks: SingleKey,
    pub toggle_preview_type: SingleKey,
    pub widen_to_all_notes: SingleKey,
    pub surf_note_subtree: SingleKey,
    pub checkmark_note: SingleKey,
    pub rename_note: SingleKey,
    pub link_from_selected_note: SingleKey,
    pub unlink_from_selected_note: SingleKey,
    pub remove_note: SingleKey,
    pub create_autolinked_note: SingleKey,
    pub toggle_links_direction: SingleKey,
    pub splice_reachable_children_of_note: SingleKey,
    pub narrow_selection: SingleKey,
    pub decrease_unlisted_threshold: SingleKey,
    pub increase_unlisted_threshold: SingleKey,
    pub push_note_to_stack: SingleKey,
    pub switch_mode_to_stack: SingleKey,
}

/// The name of the configuration section that holds the explore keys.
pub open spec fn section() -> Seq<char> {
    "world.keymap.explore"@
}

impl ExploreKeymap {
    /// The keys, in the order of the actions.
    pub open spec fn spec_keys(&self) -> Seq<SingleKey> {
        seq![self.open_xdg, self.populate_search_with_backlinks, self.populate_search_with_forwardlinks, self.toggle_preview_type, self.widen_to_all_notes, self.surf_note_subtree, self.checkmark_note, self.rename_note, self.link_from_selected_note, self.unlink_from_selected_note, self.remove_note, self.create_autolinked_note, self.toggle_links_direction, self.splice_reachable_children_of_note, self.narrow_selection, self.decrease_unlisted_threshold, self.increase_unlisted_threshold, self.push_note_to_stack, self.switch_mode_to_stack]
    }

    /// The actions, in order.
    pub open spec fn spec_actions() -> Seq<Action> {
        seq![Action::OpenXDG, Action::PopulateSearchWithBacklinks, Action::PopulateSearchWithForwardlinks, Action::TogglePreviewType, Action::WidenToAllNotes, Action::SurfNoteSubtree, Action::CheckmarkNote, Action::RenameNote, Action::LinkFromSelectedNote, Action::UnlinkFromSelectedNote, Action::RemoveNote, Action::CreateAutolinkedNote, Action::ToggleLinksDirection, Action::SpliceReachableChildrenOfNote, Action::NarrowSelection, Action::DecreaseUnlistedThreshold, Action::IncreaseUnlistedThreshold, Action::PushNoteToStack, Action::SwitchModeToStack]
    }

    /// The `skim` action that each key triggers, in the order of the actions.
    pub open spec fn spec_skim_actions() -> Seq<Seq<char>> {
        seq!["accept"@, "accept"@, "accept"@, "accept"@, "accept"@, "accept"@, "accept"@, "accept"@, "accept"@, "accept"@, "accept"@, "accept"@, "accept"@, "accept"@, "accept"@, "accept"@, "accept"@, "accept"@, "accept"@]
    }

    /// The keys, in the order of the actions.
    pub fn keys(&self) -> (v: Vec<SingleKey>)
        ensures
            v@ == self.spec_keys(),
    {
        let mut v: Vec<SingleKey> = Vec::new();
        v.push(self.open_xdg.duplicate());
        v.push(self.populate_search_with_backlinks.duplicate());
        v.push(self.populate_search_with_forwardlinks.duplicate());
        v.push(self.toggle_preview_type.duplicate());
        v.push(self.widen_to_all_notes.duplicate());
        v.push(self.surf_note_subtree.duplicate());
        v.push(self.checkmark_note.duplicate());
        v.push(self.rename_note.duplicate());
        v.push(self.link_from_selected_note.duplicate());
        v.push(self.unlink_from_selected_note.duplicate());
        v.push(self.remove_note.duplicate());
        v.push(self.create_autolinked_note.duplicate());
        v.push(self.toggle_links_direction.duplicate());
        v.push(self.splice_reachable_children_of_note.duplicate());
        v.push(self.narrow_selection.duplicate());
        v.push(self.decrease_unlisted_threshold.duplicate());
        v.push(self.increase_unlisted_threshold.duplicate());
        v.push(self.push_note_to_stack.duplicate());
        v.push(self.switch_mode_to_stack.duplicate());
        assert(v@ =~= self.spec_keys());
        v
    }

    /// Whether no key combination is bound twice.
    pub fn has_unique_keys(&self) -> (b: bool)
        ensures
            b == keys_distinct(self.spec_keys()),
    {
        let keys = self.keys();
        all_keys_distinct(&keys)
    }

    /// The bindings of the keys: each key with the `skim` action it triggers and its action.
    pub fn bindings(&self) -> (b: Bindings<Action>)
        ensures
            b.entries@.len() == 19,
            forall|i: int|
                0 <= i < 19 ==> #[trigger] b.entries@[i].key == self.spec_keys()[i] && b.entries@[i].skim_action@
                    == Self::spec_skim_actions()[i] && b.entries@[i].action == Self::spec_actions()[i],
    {
        let mut entries: Vec<Binding<Action>> = Vec::new();
        entries.push(Binding { key: self.open_xdg.duplicate(), skim_action: String::from_str("accept"), action: Action::OpenXDG });
        entries.push(Binding { key: self.populate_search_with_backlinks.duplicate(), skim_action: String::from_str("accept"), action: Action::PopulateSearchWithBacklinks });
        entries.push(Binding { key: self.populate_search_with_forwardlinks.duplicate(), skim_action: String::from_str("accept"), action: Action::PopulateSearchWithForwardlinks });
        entries.push(Binding { key: self.toggle_preview_type.duplicate(), skim_action: String::from_str("accept"), action: Action::TogglePreviewType });
        entries.push(Binding { key: self.widen_to_all_notes.duplicate(), skim_action: String::from_str("accept"), action: Action::WidenToAllNotes });
        entries.push(Binding { key: self.surf_note_subtree.duplicate(), skim_action: String::from_str("accept"), action: Action::SurfNoteSubtree });
        entries.push(Binding { key: self.checkmark_note.duplicate(), skim_action: String::from_str("accept"), action: Action::CheckmarkNote });
        entries.push(Binding { key: self.rename_note.duplicate(), skim_action: String::from_str("accept"), action: Action::RenameNote });
        entries.push(Binding { key: self.link_from_selected_note.duplicate(), skim_action: String::from_str("accept"), action: Action::LinkFromSelectedNote });
        entries.push(Binding { key: self.unlink_from_selected_note.duplicate(), skim_action: String::from_str("accept"), action: Action::UnlinkFromSelectedNote });
        entries.push(Binding { key: self.remove_note.duplicate(), skim_action: String::from_str("accept"), action: Action::RemoveNote });
        entries.push(Binding { key: self.create_autolinked_note.duplicate(), skim_action: String::from_str("accept"), action: Action::CreateAutolinkedNote });
        entries.push(Binding { key: self.toggle_links_direction.duplicate(), skim_action: String::from_str("accept"), action: Action::ToggleLinksDirection });
        entries.push(Binding { key: self.splice_reachable_children_of_note.duplicate(), skim_action: String::from_str("accept"), action: Action::SpliceReachableChildrenOfNote });
        entries.push(Binding { key: self.narrow_selection.duplicate(), skim_action: String::from_str("accept"), action: Action::NarrowSelection });
        entries.push(Binding { key: self.decrease_unlisted_threshold.duplicate(), skim_action: String::from_str("accept"), action: Action::DecreaseUnlistedThreshold });
        entries.push(Binding { key: self.increase_unlisted_threshold.duplicate(), skim_action: String::from_str("accept"), action: Action::IncreaseUnlistedThreshold });
        entries.push(Binding { key: self.push_note_to_stack.duplicate(), skim_action: String::from_str("accept"), action: Action::PushNoteToStack });
        entries.push(Binding { key: self.switch_mode_to_stack.duplicate(), skim_action: String::from_str("accept"), action: Action::SwitchModeToStack });
        let b = Bindings { entries };
        proof {
            reveal_strlit("accept");
        }
        b
    }
}

/// The names of the children of the section that hold the keys, in the order of the actions.
pub open spec fn section_tags() -> Seq<Seq<char>> {
    seq!["open_xdg"@, "populate_search_with_backlinks"@, "populate_search_with_forwardlinks"@, "toggle_preview_type"@, "widen_to_all_notes"@, "surf_note_subtree"@, "checkmark_note"@, "rename_note"@, "link_from_selected_note"@, "unlink_from_selected_note"@, "remove_note"@, "create_autolinked_note"@, "toggle_links_direction"@, "splice_reachable_children_of_note"@, "narrow_selection"@, "decrease_unlisted_threshold"@, "increase_unlisted_threshold"@, "push_note_to_stack"@, "switch_mode_to_stack"@]
}

impl ExploreKeymap {
    /// Reads the section from the configuration node `n`: a child for each action, each a key
    /// combination, none written twice.
    pub fn from_node(n: &ConfigNode) -> (r: Result<ExploreKeymap, NodeError>)
        ensures
            match r {
                Ok(k) => section_result(*n, section(), section_tags()) == Ok::<Seq<KeyView>, ErrView>(
                    k.spec_keys().map_values(|x: SingleKey| key_view(x)),
                ),
                Err(e) => section_result(*n, section(), section_tags()) == Err::<Seq<KeyView>, ErrView>(err_view(e)),
            },
    {
        let tags = vec!["open_xdg", "populate_search_with_backlinks", "populate_search_with_forwardlinks", "toggle_preview_type", "widen_to_all_notes", "surf_note_subtree", "checkmark_note", "rename_note", "link_from_selected_note", "unlink_from_selected_note", "remove_note", "create_autolinked_note", "toggle_links_direction", "splice_reachable_children_of_note", "narrow_selection", "decrease_unlisted_threshold", "increase_unlisted_threshold", "push_note_to_stack", "switch_mode_to_stack"];
        assert(tag_views(tags@) =~= section_tags());
        let ks = match section_from_node(n, "world.keymap.explore", &tags) {
            Ok(ks) => ks,
            Err(e) => {
                return Err(e);
            },
        };
        let k = ExploreKeymap {
            open_xdg: ks[0].duplicate(),
            populate_search_with_backlinks: ks[1].duplicate(),
            populate_search_with_forwardlinks: ks[2].duplicate(),
            toggle_preview_type: ks[3].duplicate(),
            widen_to_all_notes: ks[4].duplicate(),
            surf_note_subtree: ks[5].duplicate(),
            checkmark_note: ks[6].duplicate(),
            rename_note: ks[7].duplicate(),
            link_from_selected_note: ks[8].duplicate(),
            unlink_from_selected_note: ks[9].duplicate(),
            remove_note: ks[10].duplicate(),
            create_autolinked_note: ks[11].duplicate(),
            toggle_links_direction: ks[12].duplicate(),
            splice_reachable_children_of_note: ks[13].duplicate(),
            narrow_selection: ks[14].duplicate(),
            decrease_unlisted_threshold: ks[15].duplicate(),
            increase_unlisted_threshold: ks[16].duplicate(),
            push_note_to_stack: ks[17].duplicate(),
            switch_mode_to_stack: ks[18].duplicate(),
        };
        assert(k.spec_keys() =~= ks@);
        Ok(k)
    }
}

} // verus!
