use vstd::prelude::*;
use crate::config::keymap::stack::Action as Bound;
use crate::note::PreviewType;
use crate::skim::{abort_message, abort_text, no_item_message, no_item_text, FinalKey};

verus! {

/// What the stack screen was left for: select a note, return to the explore screen with its
/// notes, toggle the preview type, pop a note from the stack, move it to the top, or swap it
/// with its neighbor above or below.
#[derive(Debug, Clone, Copy, PartialEq, Eq, Structural)]
pub enum StackStep {
    Select,
    Return,
    TogglePreview,
    Pop,
    MoveTopmost,
    SwapWithAbove,
    SwapWithBelow,
}

/// What each bound action of the stack screen does (deselecting all is done by the screen
/// itself and never leaves it).
pub open spec fn bound_step(b: Bound) -> StackStep {
    match b {
        Bound::TogglePreviewType => StackStep::TogglePreview,
        Bound::PopNoteFromStack => StackStep::Pop,
        Bound::MoveNoteToStackTop => StackStep::MoveTopmost,
        Bound::ReturnToExplore => StackStep::Return,
        Bound::SwapWithAbove => StackStep::SwapWithAbove,
        Bound::SwapWithBelow => StackStep::SwapWithBelow,
        Bound::DeselectAll => StackStep::Select,
    }
}

/// No two bound actions of the stack screen do the same thing, and none of them selects.
pub proof fn lemma_stack_bindings_apart(a: Bound, b: Bound)
    ensures
        a != Bound::DeselectAll && b != Bound::DeselectAll && bound_step(a) == bound_step(b) ==> a == b,
        a != Bound::DeselectAll ==> bound_step(a) != StackStep::Select,
{
}

/// Each binding of the stack screen does the step it names: swapping with the note below is
/// exactly the swap-below binding, swapping with the note above exactly the swap-above one,
/// popping exactly the pop binding, moving to the top exactly the move binding, returning
/// exactly the return binding, and toggling the preview exactly the toggle binding.
pub proof fn lemma_stack_bindings_do_what_they_name(b: Bound)
    ensures
        bound_step(b) == StackStep::SwapWithBelow <==> b == Bound::SwapWithBelow,
        bound_step(b) == StackStep::SwapWithAbove <==> b == Bound::SwapWithAbove,
        bound_step(b) == StackStep::Pop <==> b == Bound::PopNoteFromStack,
        bound_step(b) == StackStep::MoveTopmost <==> b == Bound::MoveNoteToStackTop,
        bound_step(b) == StackStep::Return <==> b == Bound::ReturnToExplore,
        bound_step(b) == StackStep::TogglePreview <==> b == Bound::TogglePreviewType,
{
}

/// What leaving the stack screen with `key` means: Enter selects the selected note, Escape
/// and Control-c abort, a bound key does its action; every step but aborting needs a
/// selected note.
pub fn decide(key: FinalKey, has_selection: bool, bound: Option<Bound>) -> (r: Result<StackStep, String>)
    requires
        key != FinalKey::Other,
        key.is_bound_key() ==> bound is Some && bound != Some(Bound::DeselectAll),
    ensures
        key.is_abort() ==> (r matches Err(e) && e@ == abort_message("open"@)),
        !key.is_abort() && !has_selection ==> (r matches Err(e) && e@ == no_item_message()),
        key == FinalKey::Enter && has_selection ==> r == Ok::<StackStep, String>(StackStep::Select),
        key.is_bound_key() && has_selection ==> r == Ok::<StackStep, String>(bound_step(bound->Some_0)),
{
    if key.aborts() {
        return Err(abort_text("open"));
    }
    if !has_selection {
        return Err(no_item_text());
    }
    if key == FinalKey::Enter {
        return Ok(StackStep::Select);
    }
    match bound.unwrap() {
        Bound::TogglePreviewType => Ok(StackStep::TogglePreview),
        Bound::PopNoteFromStack => Ok(StackStep::Pop),
        Bound::MoveNoteToStackTop => Ok(StackStep::MoveTopmost),
        Bound::ReturnToExplore => Ok(StackStep::Return),
        Bound::SwapWithAbove => Ok(StackStep::SwapWithAbove),
        Bound::SwapWithBelow => Ok(StackStep::SwapWithBelow),
        Bound::DeselectAll => Ok(StackStep::Select),
    }
}

/// The preview type of the stack screen's next round: toggled by its toggle step, the same
/// otherwise.
pub fn preview_after(step: StackStep, preview: PreviewType) -> (p: PreviewType)
    ensures
        p == if step == StackStep::TogglePreview {
            preview.spec_next()
        } else {
            preview
        },
{
    if step == StackStep::TogglePreview {
        preview.toggle()
    } else {
        preview
    }
}

} // verus!
