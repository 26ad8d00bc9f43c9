use vstd::prelude::*;
use crate::config::keymap::explore::Action as Bound;
use crate::note::PreviewType;
use crate::skim::{abort_message, abort_text, no_item_message, no_item_text, FinalKey};

verus! {

/// What the explore screen was left for.
#[derive(Debug, Clone, Copy, PartialEq, Eq, Structural)]
pub enum ActionKind {
    Open,
    OpenXDG,
    Link,
    Unlink,
    Back,
    Forward,
    Widen,
    Rename,
    Remove,
    CreateLinkedFrom,
    Surf,
    Checkmark,
    TogglePreview,
    InvertLinks,
    Splice,
    Narrow,
    IncreaseUnlistedThreshold,
    DecreaseUnlistedThreshold,
    PushToStack,
    SwitchToStack,
}

/// Which notes the explore screen shows next: the selected note (the subject of the action),
/// all selected notes, the notes it showed, none, the backlinks of the subject (or the notes
/// it showed when there are none), the forward links of the subject (or the subject when
/// there are none), or the notes reachable from the subject.
#[derive(Debug, Clone, Copy, PartialEq, Eq, Structural)]
pub enum NextItems {
    Subject,
    Selected,
    Previous,
    Nothing,
    BacklinksOrPrevious,
    ForwardLinksOrSubject,
    Reachable,
}

/// The outcome of the explore screen: the action, and the notes to show next.
#[derive(Debug, Clone, Copy, PartialEq, Eq, Structural)]
pub struct ExploreStep {
    pub action: ActionKind,
    pub next: NextItems,
}

/// What each bound action of the explore screen does: the action, the notes shown next, and
/// whether it needs a selected note.
pub open spec fn bound_step(b: Bound) -> (ActionKind, NextItems, bool) {
    match b {
        Bound::OpenXDG => (ActionKind::OpenXDG, NextItems::Subject, true),
        Bound::PopulateSearchWithBacklinks => (ActionKind::Back, NextItems::BacklinksOrPrevious, true),
        Bound::PopulateSearchWithForwardlinks => (ActionKind::Forward, NextItems::ForwardLinksOrSubject, true),
        Bound::TogglePreviewType => (ActionKind::TogglePreview, NextItems::Subject, true),
        Bound::WidenToAllNotes => (ActionKind::Widen, NextItems::Nothing, false),
        Bound::SurfNoteSubtree => (ActionKind::Surf, NextItems::Subject, true),
        Bound::CheckmarkNote => (ActionKind::Checkmark, NextItems::Subject, true),
        Bound::RenameNote => (ActionKind::Rename, NextItems::Nothing, true),
        Bound::LinkFromSelectedNote => (ActionKind::Link, NextItems::Nothing, true),
        Bound::UnlinkFromSelectedNote => (ActionKind::Unlink, NextItems::Nothing, true),
        Bound::RemoveNote => (ActionKind::Remove, NextItems::Nothing, true),
        Bound::CreateAutolinkedNote => (ActionKind::CreateLinkedFrom, NextItems::Nothing, true),
        Bound::ToggleLinksDirection => (ActionKind::InvertLinks, NextItems::Subject, true),
        Bound::SpliceReachableChildrenOfNote => (ActionKind::Splice, NextItems::Reachable, true),
        Bound::NarrowSelection => (ActionKind::Narrow, NextItems::Selected, false),
        Bound::DecreaseUnlistedThreshold => (ActionKind::DecreaseUnlistedThreshold, NextItems::Subject, true),
        Bound::IncreaseUnlistedThreshold => (ActionKind::IncreaseUnlistedThreshold, NextItems::Subject, true),
        Bound::PushNoteToStack => (ActionKind::PushToStack, NextItems::Previous, true),
        Bound::SwitchModeToStack => (ActionKind::SwitchToStack, NextItems::Nothing, true),
    }
}

/// No two bound actions of the explore screen do the same thing: each binding has an action
/// of its own.
pub proof fn lemma_explore_bindings_apart(a: Bound, b: Bound)
    ensures
        bound_step(a).0 == bound_step(b).0 ==> a == b,
{
}

/// The bindings that move along links go the way they name: going forward is exactly the
/// forward-links binding, and it shows the subject's forward links; going back is exactly the
/// backlinks binding, and it shows the subject's backlinks; the notes shown next follow from
/// the action (forward links for going forward, backlinks for going back, the reachable notes
/// for splicing, the selection for narrowing, nothing for widening).
pub proof fn lemma_explore_links_go_their_way(b: Bound)
    ensures
        bound_step(b).0 == ActionKind::Forward <==> b == Bound::PopulateSearchWithForwardlinks,
        bound_step(b).0 == ActionKind::Back <==> b == Bound::PopulateSearchWithBacklinks,
        bound_step(b).1 == NextItems::ForwardLinksOrSubject <==> bound_step(b).0 == ActionKind::Forward,
        bound_step(b).1 == NextItems::BacklinksOrPrevious <==> bound_step(b).0 == ActionKind::Back,
        bound_step(b).1 == NextItems::Reachable <==> bound_step(b).0 == ActionKind::Splice,
        bound_step(b).1 == NextItems::Selected <==> bound_step(b).0 == ActionKind::Narrow,
        bound_step(b).0 == ActionKind::Widen ==> bound_step(b).1 == NextItems::Nothing,
        bound_step(b).0 == ActionKind::Widen <==> b == Bound::WidenToAllNotes,
        bound_step(b).0 == ActionKind::Narrow <==> b == Bound::NarrowSelection,
        bound_step(b).0 == ActionKind::IncreaseUnlistedThreshold <==> b == Bound::IncreaseUnlistedThreshold,
        bound_step(b).0 == ActionKind::DecreaseUnlistedThreshold <==> b == Bound::DecreaseUnlistedThreshold,
        bound_step(b).0 == ActionKind::Link <==> b == Bound::LinkFromSelectedNote,
        bound_step(b).0 == ActionKind::Unlink <==> b == Bound::UnlinkFromSelectedNote,
        bound_step(b).0 == ActionKind::InvertLinks <==> b == Bound::ToggleLinksDirection,
        bound_step(b).0 == ActionKind::PushToStack <==> b == Bound::PushNoteToStack,
        bound_step(b).0 == ActionKind::SwitchToStack <==> b == Bound::SwitchModeToStack,
        bound_step(b).0 != ActionKind::Open,
        !bound_step(b).2 <==> (b == Bound::WidenToAllNotes || b == Bound::NarrowSelection),
{
}

/// What leaving the explore screen with `key` means, given whether a note is selected and
/// the action bound to the key, if it is a Control or Alt key: Enter opens the selected note;
/// Escape and Control-c abort; a bound key does its action. An action that needs a selected
/// note fails without one.
pub fn decide(key: FinalKey, has_selection: bool, bound: Option<Bound>) -> (r: Result<ExploreStep, String>)
    requires
        key != FinalKey::Other,
        key.is_bound_key() ==> bound is Some,
    ensures
        key.is_abort() ==> (r matches Err(e) && e@ == abort_message("explore"@)),
        key == FinalKey::Enter ==> if has_selection {
            r == Ok::<ExploreStep, String>(ExploreStep { action: ActionKind::Open, next: NextItems::Subject })
        } else {
            (r matches Err(e) && e@ == no_item_message())
        },
        key.is_bound_key() ==> ({
            let (action, next, needs) = bound_step(bound->Some_0);
            if needs && !has_selection {
                (r matches Err(e) && e@ == no_item_message())
            } else {
                r == Ok::<ExploreStep, String>(ExploreStep { action, next })
            }
        }),
{
    if key.aborts() {
        return Err(abort_text("explore"));
    }
    match key {
        FinalKey::Enter => {
            if has_selection {
                return Ok(ExploreStep { action: ActionKind::Open, next: NextItems::Subject });
            } else {
                return Err(no_item_text());
            }
        },
        _ => {},
    }
    let b = bound.unwrap();
    let (action, next, needs) = match b {
        Bound::OpenXDG => (ActionKind::OpenXDG, NextItems::Subject, true),
        Bound::PopulateSearchWithBacklinks => (ActionKind::Back, NextItems::BacklinksOrPrevious, true),
        Bound::PopulateSearchWithForwardlinks => (ActionKind::Forward, NextItems::ForwardLinksOrSubject, true),
        Bound::TogglePreviewType => (ActionKind::TogglePreview, NextItems::Subject, true),
        Bound::WidenToAllNotes => (ActionKind::Widen, NextItems::Nothing, false),
        Bound::SurfNoteSubtree => (ActionKind::Surf, NextItems::Subject, true),
        Bound::CheckmarkNote => (ActionKind::Checkmark, NextItems::Subject, true),
        Bound::RenameNote => (ActionKind::Rename, NextItems::Nothing, true),
        Bound::LinkFromSelectedNote => (ActionKind::Link, NextItems::Nothing, true),
        Bound::UnlinkFromSelectedNote => (ActionKind::Unlink, NextItems::Nothing, true),
        Bound::RemoveNote => (ActionKind::Remove, NextItems::Nothing, true),
        Bound::CreateAutolinkedNote => (ActionKind::CreateLinkedFrom, NextItems::Nothing, true),
        Bound::ToggleLinksDirection => (ActionKind::InvertLinks, NextItems::Subject, true),
        Bound::SpliceReachableChildrenOfNote => (ActionKind::Splice, NextItems::Reachable, true),
        Bound::NarrowSelection => (ActionKind::Narrow, NextItems::Selected, false),
        Bound::DecreaseUnlistedThreshold => (ActionKind::DecreaseUnlistedThreshold, NextItems::Subject, true),
        Bound::IncreaseUnlistedThreshold => (ActionKind::IncreaseUnlistedThreshold, NextItems::Subject, true),
        Bound::PushNoteToStack => (ActionKind::PushToStack, NextItems::Previous, true),
        Bound::SwitchModeToStack => (ActionKind::SwitchToStack, NextItems::Nothing, true),
    };
    if needs && !has_selection {
        Err(no_item_text())
    } else {
        Ok(ExploreStep { action, next })
    }
}

/// The fetched notes, or `fallback` when none were fetched: the backlinks or forward links of
/// a note without any leave the screen with other notes.
pub fn or_fallback<N>(fetched: Vec<N>, fallback: Vec<N>) -> (r: Vec<N>)
    ensures
        r@ == if fetched@.len() == 0 {
            fallback@
        } else {
            fetched@
        },
{
    if fetched.len() == 0 {
        fallback
    } else {
        fetched
    }
}

/// How one round of the explore loop ends for action `action`: whether the notes to show are
/// replaced by all notes (`true`) or kept as the screen gave them, whether the action is
/// handed on to the loop, and the preview type of the next round.
pub open spec fn round_outcome(action: ActionKind, preview: PreviewType) -> (bool, bool, PreviewType) {
    match action {
        ActionKind::Back | ActionKind::Forward => (false, false, preview),
        ActionKind::Widen => (true, false, preview),
        ActionKind::TogglePreview => (false, false, preview.spec_next()),
        _ => (false, true, preview),
    }
}

/// How one round of the explore loop ends for `action` (see [`round_outcome`]).
pub fn iteration_outcome(action: ActionKind, preview: PreviewType) -> (r: (bool, bool, PreviewType))
    ensures
        r == round_outcome(action, preview),
{
    match action {
        ActionKind::Back | ActionKind::Forward => (false, false, preview),
        ActionKind::Widen => (true, false, preview),
        ActionKind::TogglePreview => (false, false, preview.toggle()),
        _ => (false, true, preview),
    }
}

/// What came of an action that the explore loop carried out itself, as far as it decides the
/// notes shown next: a note renamed (as it is now), a note removed or kept (`true` when the
/// removal went through), the notes chosen on the stack screen, or anything else.
pub enum ActionOutcome<N> {
    Renamed(N),
    Removed(bool, N),
    StackChose(Vec<N>),
    Other,
}

/// The notes the explore loop shows after carrying out an action on `list`: the renamed note
/// alone; nothing after a removal, or the note alone when it was kept; what the stack screen
/// chose; otherwise `list` as it was.
pub open spec fn spec_list_after<N>(list: Seq<N>, outcome: ActionOutcome<N>) -> Seq<N> {
    match outcome {
        ActionOutcome::Renamed(n) => seq![n],
        ActionOutcome::Removed(gone, n) => if gone {
            Seq::empty()
        } else {
            seq![n]
        },
        ActionOutcome::StackChose(v) => v@,
        ActionOutcome::Other => list,
    }
}

/// The notes the explore loop shows after carrying out an action (see [`spec_list_after`]).
pub fn list_after<N>(list: Vec<N>, outcome: ActionOutcome<N>) -> (r: Vec<N>)
    ensures
        r@ == spec_list_after(list@, outcome),
{
    match outcome {
        ActionOutcome::Renamed(n) => vec![n],
        ActionOutcome::Removed(gone, n) => if gone {
            Vec::new()
        } else {
            vec![n]
        },
        ActionOutcome::StackChose(v) => v,
        ActionOutcome::Other => list,
    }
}

/// The settings of the explore loop: the direction of links, and the depth from which the
/// links and task items of a note are only counted.
#[derive(Debug, Clone, Copy, PartialEq, Eq, Structural)]
pub struct ExploreSettings {
    pub straight: bool,
    pub nested_threshold: usize,
}

impl ExploreSettings {
    /// The settings the explore loop starts with: links forward, threshold one.
    pub fn initial() -> (s: ExploreSettings)
        ensures
            s == (ExploreSettings { straight: true, nested_threshold: 1 }),
    {
        ExploreSettings { straight: true, nested_threshold: 1 }
    }

    /// The settings after an action: the direction inverts, the threshold grows or shrinks
    /// by one (never below zero); other actions leave them.
    pub open spec fn spec_after(self, action: ActionKind) -> ExploreSettings {
        match action {
            ActionKind::InvertLinks => ExploreSettings { straight: !self.straight, ..self },
            ActionKind::IncreaseUnlistedThreshold => ExploreSettings {
                nested_threshold: (self.nested_threshold + 1) as usize,
                ..self
            },
            ActionKind::DecreaseUnlistedThreshold => ExploreSettings {
                nested_threshold: if self.nested_threshold == 0 {
                    0
                } else {
                    (self.nested_threshold - 1) as usize
                },
                ..self
            },
            _ => self,
        }
    }

    /// The settings after `action`.
    pub fn after(self, action: ActionKind) -> (s: ExploreSettings)
        requires
            action == ActionKind::IncreaseUnlistedThreshold ==> self.nested_threshold < usize::MAX,
        ensures
            s == self.spec_after(action),
    {
        match action {
            ActionKind::InvertLinks => ExploreSettings { straight: !self.straight, ..self },
            ActionKind::IncreaseUnlistedThreshold => ExploreSettings {
                nested_threshold: self.nested_threshold + 1,
                ..self
            },
            ActionKind::DecreaseUnlistedThreshold => ExploreSettings {
                nested_threshold: self.nested_threshold.saturating_sub(1),
                ..self
            },
            _ => self,
        }
    }
}

/// Inverting the direction of links twice restores it; raising the threshold and then
/// lowering it restores it; lowering it never goes below zero.
pub proof fn lemma_settings_round_trips(s: ExploreSettings)
    ensures
        s.spec_after(ActionKind::InvertLinks).spec_after(ActionKind::InvertLinks) == s,
        s.nested_threshold < usize::MAX ==> s.spec_after(ActionKind::IncreaseUnlistedThreshold).spec_after(
            ActionKind::DecreaseUnlistedThreshold,
        ) == s,
        s.nested_threshold == 0 ==> s.spec_after(ActionKind::DecreaseUnlistedThreshold) == s,
{
}

} // verus!
