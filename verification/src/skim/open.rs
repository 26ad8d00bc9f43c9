use vstd::prelude::*;
use crate::skim::{abort_message, abort_text, no_item_message, no_item_text, FinalKey};

verus! {

/// What leaving the selection screen with `key` means: the selected item is chosen with
/// Enter (an error when none is selected), and the screen is aborted with Escape or
/// Control-c. No other key leaves this screen.
pub fn decide(key: FinalKey, has_selection: bool) -> (r: Result<(), String>)
    requires
        key == FinalKey::Enter || key.is_abort(),
    ensures
        key == FinalKey::Enter && has_selection ==> r is Ok,
        key == FinalKey::Enter && !has_selection ==> (r matches Err(e) && e@ == no_item_message()),
        key.is_abort() ==> (r matches Err(e) && e@ == abort_message("open"@)),
{
    if key.aborts() {
        return Err(abort_text("open"));
    }
    if has_selection {
        Ok(())
    } else {
        Err(no_item_text())
    }
}

} // verus!
