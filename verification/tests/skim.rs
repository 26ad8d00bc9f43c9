use mds::skim::explore::{list_after, ActionOutcome};
use mds::config::keymap::checkmark::Action as CheckmarkAction;
use mds::config::keymap::explore::Action as ExploreAction;
use mds::config::keymap::stack::Action as StackAction;
use mds::config::keymap::surf::Action as SurfAction;
use mds::config::keymap::single_key::KeyCombo;
use mds::note::PreviewType;
use mds::skim::checkmark::{self, CheckmarkStep};
use mds::skim::explore::{self, ActionKind, ExploreSettings, ExploreStep, NextItems};
use mds::skim::stack_sequential::{self, StackStep};
use mds::skim::surf::{self, SurfStep};
use mds::skim::{abort_text, no_item_text, skim_failed_text, FinalKey};
use mds::task_item::TaskItem;

#[test]
fn abort_keys_are_escape_and_ctrl_c() {
    assert!(FinalKey::Esc.aborts());
    assert!(FinalKey::Ctrl('c').aborts());
    assert!(!FinalKey::Ctrl('d').aborts());
    assert!(!FinalKey::Alt('c').aborts());
    assert_eq!(FinalKey::Alt('x').combo(), Some(KeyCombo::Alt('x')));
    assert_eq!(FinalKey::Enter.combo(), None);
}

#[test]
fn messages_name_the_screen() {
    assert_eq!(abort_text("surf"), "user chose to abort current iteration of surf cycle");
    assert_eq!(no_item_text(), "no item selected");
    assert_eq!(skim_failed_text(), "skim internal errors");
}

#[test]
fn the_open_screen_needs_a_selection() {
    assert_eq!(mds::skim::open::decide(FinalKey::Enter, true), Ok(()));
    assert_eq!(mds::skim::open::decide(FinalKey::Enter, false), Err("no item selected".to_string()));
    assert_eq!(
        mds::skim::open::decide(FinalKey::Esc, true),
        Err("user chose to abort current iteration of open cycle".to_string())
    );
}

#[test]
fn explore_enter_opens_the_selected_note() {
    let r = explore::decide(FinalKey::Enter, true, None);
    assert_eq!(r, Ok(ExploreStep { action: ActionKind::Open, next: NextItems::Subject }));
    assert_eq!(explore::decide(FinalKey::Enter, false, None), Err("no item selected".to_string()));
}

#[test]
fn explore_bound_keys_do_their_actions() {
    let r = explore::decide(FinalKey::Ctrl('b'), true, Some(ExploreAction::PopulateSearchWithBacklinks));
    assert_eq!(r, Ok(ExploreStep { action: ActionKind::Back, next: NextItems::BacklinksOrPrevious }));
    let r = explore::decide(FinalKey::Ctrl('w'), false, Some(ExploreAction::WidenToAllNotes));
    assert_eq!(r, Ok(ExploreStep { action: ActionKind::Widen, next: NextItems::Nothing }));
    let r = explore::decide(FinalKey::Ctrl('q'), false, Some(ExploreAction::NarrowSelection));
    assert_eq!(r, Ok(ExploreStep { action: ActionKind::Narrow, next: NextItems::Selected }));
    let r = explore::decide(FinalKey::Alt('s'), false, Some(ExploreAction::SpliceReachableChildrenOfNote));
    assert_eq!(r, Err("no item selected".to_string()));
    let r = explore::decide(FinalKey::Ctrl('c'), true, None);
    assert_eq!(r, Err("user chose to abort current iteration of explore cycle".to_string()));
}

#[test]
fn empty_link_lists_fall_back() {
    assert_eq!(explore::or_fallback(Vec::<u8>::new(), vec![1, 2]), vec![1, 2]);
    assert_eq!(explore::or_fallback(vec![3], vec![1, 2]), vec![3]);
}

#[test]
fn explore_rounds_hand_actions_on_or_handle_them() {
    assert_eq!(explore::iteration_outcome(ActionKind::Back, PreviewType::Details), (false, false, PreviewType::Details));
    assert_eq!(explore::iteration_outcome(ActionKind::Widen, PreviewType::Details), (true, false, PreviewType::Details));
    assert_eq!(
        explore::iteration_outcome(ActionKind::TogglePreview, PreviewType::TaskStructure),
        (false, false, PreviewType::Details)
    );
    assert_eq!(explore::iteration_outcome(ActionKind::Rename, PreviewType::Details), (false, true, PreviewType::Details));
}

#[test]
fn explore_settings_change_with_their_actions() {
    let s = ExploreSettings::initial();
    assert_eq!(s, ExploreSettings { straight: true, nested_threshold: 1 });
    let s = s.after(ActionKind::InvertLinks);
    assert!(!s.straight);
    let s = s.after(ActionKind::IncreaseUnlistedThreshold);
    assert_eq!(s.nested_threshold, 2);
    let s = s.after(ActionKind::DecreaseUnlistedThreshold).after(ActionKind::DecreaseUnlistedThreshold);
    assert_eq!(s.nested_threshold, 0);
    let s = s.after(ActionKind::DecreaseUnlistedThreshold);
    assert_eq!(s.nested_threshold, 0);
    let s = s.after(ActionKind::InvertLinks).after(ActionKind::Open);
    assert_eq!(s, ExploreSettings { straight: true, nested_threshold: 0 });
}

#[test]
fn surf_steps() {
    assert_eq!(surf::decide(FinalKey::Enter, true, None), Ok(SurfStep::Open));
    assert_eq!(surf::decide(FinalKey::Ctrl('e'), false, Some(SurfAction::ReturnToExplore)), Ok(SurfStep::Return));
    assert_eq!(surf::decide(FinalKey::Alt('o'), false, Some(SurfAction::JumpToLinkOrSnippet)), Err("no item selected".to_string()));
    assert_eq!(surf::decide(FinalKey::Alt('o'), true, Some(SurfAction::OpenXDG)), Ok(SurfStep::OpenXDG));
    assert_eq!(surf::decide(FinalKey::Esc, true, None), Err("user chose to abort current iteration of surf cycle".to_string()));
}

#[test]
fn stack_steps() {
    assert_eq!(stack_sequential::decide(FinalKey::Enter, true, None), Ok(StackStep::Select));
    assert_eq!(stack_sequential::decide(FinalKey::Alt('k'), true, Some(StackAction::SwapWithAbove)), Ok(StackStep::SwapWithAbove));
    assert_eq!(stack_sequential::decide(FinalKey::Ctrl('p'), false, Some(StackAction::PopNoteFromStack)), Err("no item selected".to_string()));
    assert_eq!(stack_sequential::decide(FinalKey::Esc, false, None), Err("user chose to abort current iteration of open cycle".to_string()));
    assert_eq!(stack_sequential::preview_after(StackStep::TogglePreview, PreviewType::Details), PreviewType::LinkStructure);
    assert_eq!(stack_sequential::preview_after(StackStep::Pop, PreviewType::Details), PreviewType::Details);
}

#[test]
fn checkmark_steps() {
    assert_eq!(checkmark::decide(FinalKey::Enter, false, None), Ok(CheckmarkStep::Toggle));
    assert_eq!(checkmark::decide(FinalKey::Ctrl('w'), false, Some(CheckmarkAction::WidenContext)), Ok(CheckmarkStep::Widen));
    assert_eq!(checkmark::decide(FinalKey::Ctrl('l'), true, Some(CheckmarkAction::NarrowContext)), Ok(CheckmarkStep::Narrow));
    assert_eq!(
        checkmark::decide(FinalKey::Esc, true, None),
        Err("user chose to abort current iteration of checkmark cycle".to_string())
    );
}

#[test]
fn checkmark_windows() {
    let t = TaskItem {
        file_name: "a.md".to_string(),
        title: "t".to_string(),
        completed: false,
        nested_level: 0,
        checkmark_offsets_in_string: 3..4,
        self_index: 2,
        next_index: Some(5),
    };
    assert_eq!(checkmark::narrow_range(&t), (2, 5));
    let leaf = TaskItem { next_index: None, ..t.clone() };
    assert_eq!(checkmark::narrow_range(&leaf), (2, 3));
    assert_eq!(checkmark::next_window(CheckmarkStep::Narrow, None, (2, 5)), Some((2, 5)));
    assert_eq!(checkmark::next_window(CheckmarkStep::Widen, Some((2, 5)), (0, 1)), None);
    assert_eq!(checkmark::next_window(CheckmarkStep::Toggle, Some((2, 5)), (0, 1)), Some((2, 5)));
    assert_eq!(checkmark::window(vec![0, 1, 2, 3, 4, 5, 6], 2, 5), vec![2, 3, 4]);
    assert_eq!(checkmark::window(vec![0, 1], 1, 1), Vec::<i32>::new());
}

#[test]
fn the_list_after_an_action_follows_its_outcome() {
    let list = vec![1, 2, 3];
    assert_eq!(list_after(list.clone(), ActionOutcome::Renamed(9)), vec![9]);
    assert_eq!(list_after(list.clone(), ActionOutcome::Removed(true, 2)), Vec::<i32>::new());
    assert_eq!(list_after(list.clone(), ActionOutcome::Removed(false, 2)), vec![2]);
    assert_eq!(list_after(list.clone(), ActionOutcome::StackChose(vec![7, 8])), vec![7, 8]);
    assert_eq!(list_after(list.clone(), ActionOutcome::Other), list);
}
