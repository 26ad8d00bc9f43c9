use vstd::prelude::*;
use crate::config::keymap::checkmark::Action as Bound;
use crate::skim::{abort_message, abort_text, FinalKey};
use crate::task_item::TaskItem;

verus! {

/// What the checkmark screen was left for: toggle the selected tasks, jump to the first one,
/// copy its subtree, show all tasks again, show only the first one's subtree, or return to
/// the explore screen.
#[derive(Debug, Clone, Copy, PartialEq, Eq, Structural)]
pub enum CheckmarkStep {
    Toggle,
    Open,
    Yank,
    Widen,
    Narrow,
    Return,
}

/// What each bound action of the checkmark screen does.
pub open spec fn bound_step(b: Bound) -> CheckmarkStep {
    match b {
        Bound::JumpToTask => CheckmarkStep::Open,
        Bound::CopyTaskSubtree => CheckmarkStep::Yank,
        Bound::WidenContext => CheckmarkStep::Widen,
        Bound::NarrowContext => CheckmarkStep::Narrow,
        Bound::ReturnToExplore => CheckmarkStep::Return,
    }
}

/// Each binding of the checkmark screen does the step it names, no two the same, and none
/// toggles (only Enter does).
pub proof fn lemma_checkmark_bindings_do_what_they_name(a: Bound, b: Bound)
    ensures
        bound_step(a) == bound_step(b) ==> a == b,
        bound_step(a) == CheckmarkStep::Open <==> a == Bound::JumpToTask,
        bound_step(a) == CheckmarkStep::Yank <==> a == Bound::CopyTaskSubtree,
        bound_step(a) == CheckmarkStep::Widen <==> a == Bound::WidenContext,
        bound_step(a) == CheckmarkStep::Narrow <==> a == Bound::NarrowContext,
        bound_step(a) == CheckmarkStep::Return <==> a == Bound::ReturnToExplore,
        bound_step(a) != CheckmarkStep::Toggle,
{
}

/// What leaving the checkmark screen with `key` means: Enter toggles the selected tasks,
/// Escape and Control-c abort, a bound key does its action (jumping, copying and narrowing
/// act on the first selected task, which must exist).
pub fn decide(key: FinalKey, has_selection: bool, bound: Option<Bound>) -> (r: Result<CheckmarkStep, String>)
    requires
        key != FinalKey::Other,
        key.is_bound_key() ==> bound is Some,
        key.is_bound_key() && (bound == Some(Bound::JumpToTask) || bound == Some(Bound::CopyTaskSubtree)
            || bound == Some(Bound::NarrowContext)) ==> has_selection,
    ensures
        key.is_abort() ==> (r matches Err(e) && e@ == abort_message("checkmark"@)),
        key == FinalKey::Enter ==> r == Ok::<CheckmarkStep, String>(CheckmarkStep::Toggle),
        key.is_bound_key() ==> r == Ok::<CheckmarkStep, String>(bound_step(bound->Some_0)),
{
    if key.aborts() {
        return Err(abort_text("checkmark"));
    }
    if key == FinalKey::Enter {
        return Ok(CheckmarkStep::Toggle);
    }
    match bound.unwrap() {
        Bound::JumpToTask => Ok(CheckmarkStep::Open),
        Bound::CopyTaskSubtree => Ok(CheckmarkStep::Yank),
        Bound::WidenContext => Ok(CheckmarkStep::Widen),
        Bound::NarrowContext => Ok(CheckmarkStep::Narrow),
        Bound::ReturnToExplore => Ok(CheckmarkStep::Return),
    }
}

/// The range of task indices that a task's subtree spans: from the task to the next item
/// after its subtree, or to the one after it when that is not known.
pub fn narrow_range(task: &TaskItem) -> (r: (usize, usize))
    requires
        task.next_index is None ==> task.self_index < usize::MAX,
    ensures
        r.0 == task.self_index,
        r.1 == match task.next_index {
            Some(n) => n as int,
            None => task.self_index + 1,
        },
{
    let next_index = match task.next_index {
        Some(next_index) => next_index,
        None => task.self_index + 1,
    };
    (task.self_index, next_index)
}

/// The window of tasks the checkmark screen shows after a step: all tasks after opening one
/// or widening, the subtree `narrowed` after narrowing, the same window otherwise.
pub fn next_window(step: CheckmarkStep, current: Option<(usize, usize)>, narrowed: (usize, usize)) -> (r: Option<(usize, usize)>)
    ensures
        r == match step {
            CheckmarkStep::Open | CheckmarkStep::Widen => None,
            CheckmarkStep::Narrow => Some(narrowed),
            _ => current,
        },
{
    match step {
        CheckmarkStep::Open | CheckmarkStep::Widen => None,
        CheckmarkStep::Narrow => Some(narrowed),
        _ => current,
    }
}

/// Items `start..end` of `all`: the tasks of a narrowed window.
pub fn window<T>(all: Vec<T>, start: usize, end: usize) -> (r: Vec<T>)
    requires
        start <= end <= all@.len(),
    ensures
        r@ == all@.subrange(start as int, end as int),
{
    let mut all = all;
    all.truncate(end);
    let tail = all.split_off(start);
    tail
}

} // verus!
