use vstd::prelude::*;
use crate::config::keymap::surf::Action as Bound;
use crate::skim::{abort_message, abort_text, no_item_message, no_item_text, FinalKey};

verus! {

/// What the surf screen was left for: open the selected link, open it with the desktop's
/// opener, jump to it in its note, or return to the explore screen.
#[derive(Debug, Clone, Copy, PartialEq, Eq, Structural)]
pub enum SurfStep {
    Open,
    OpenXDG,
    Jump,
    Return,
}

/// What each bound action of the surf screen does, and whether it needs a selected link.
pub open spec fn bound_step(b: Bound) -> (SurfStep, bool) {
    match b {
        Bound::OpenXDG => (SurfStep::OpenXDG, true),
        Bound::JumpToLinkOrSnippet => (SurfStep::Jump, true),
        Bound::ReturnToExplore => (SurfStep::Return, false),
    }
}

/// Each binding of the surf screen does the step it names, no two the same, and only
/// returning works without a selected link.
pub proof fn lemma_surf_bindings_do_what_they_name(a: Bound, b: Bound)
    ensures
        bound_step(a).0 == bound_step(b).0 ==> a == b,
        bound_step(a).0 == SurfStep::Jump <==> a == Bound::JumpToLinkOrSnippet,
        bound_step(a).0 == SurfStep::OpenXDG <==> a == Bound::OpenXDG,
        bound_step(a).0 == SurfStep::Return <==> a == Bound::ReturnToExplore,
        bound_step(a).0 != SurfStep::Open,
        !bound_step(a).1 <==> a == Bound::ReturnToExplore,
{
}

/// What leaving the surf screen with `key` means: Enter opens the selected link, Escape and
/// Control-c abort, a bound key does its action; opening and jumping need a selected link.
pub fn decide(key: FinalKey, has_selection: bool, bound: Option<Bound>) -> (r: Result<SurfStep, String>)
    requires
        key != FinalKey::Other,
        key.is_bound_key() ==> bound is Some,
    ensures
        key.is_abort() ==> (r matches Err(e) && e@ == abort_message("surf"@)),
        key == FinalKey::Enter ==> if has_selection {
            r == Ok::<SurfStep, String>(SurfStep::Open)
        } else {
            (r matches Err(e) && e@ == no_item_message())
        },
        key.is_bound_key() ==> ({
            let (step, needs) = bound_step(bound->Some_0);
            if needs && !has_selection {
                (r matches Err(e) && e@ == no_item_message())
            } else {
                r == Ok::<SurfStep, String>(step)
            }
        }),
{
    if key.aborts() {
        return Err(abort_text("surf"));
    }
    if key == FinalKey::Enter {
        if has_selection {
            return Ok(SurfStep::Open);
        } else {
            return Err(no_item_text());
        }
    }
    let (step, needs) = match bound.unwrap() {
        Bound::OpenXDG => (SurfStep::OpenXDG, true),
        Bound::JumpToLinkOrSnippet => (SurfStep::Jump, true),
        Bound::ReturnToExplore => (SurfStep::Return, false),
    };
    if needs && !has_selection {
        Err(no_item_text())
    } else {
        Ok(step)
    }
}

} // verus!
