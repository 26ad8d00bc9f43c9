use mds::config::keymap::all_keys_distinct;
use mds::config::keymap::single_key::{KeyCombo, SingleKey};
use mds::config::keymap::surf::{Action, SurfKeymap};

fn key(s: &str) -> SingleKey {
    SingleKey::try_from_combo(s.to_string()).unwrap()
}

fn surf_keys() -> SurfKeymap {
    SurfKeymap { open_xdg: key("ctrl-o"), jump_to_link_or_snippet: key("alt-j"), return_to_explore: key("ctrl-e") }
}

#[test]
fn bindings_pair_keys_with_actions() {
    let b = surf_keys().bindings();
    assert_eq!(b.entries.len(), 3);
    assert_eq!(b.action_for(KeyCombo::Alt('j')), Some(Action::JumpToLinkOrSnippet));
    assert_eq!(b.action_for(KeyCombo::Ctrl('e')), Some(Action::ReturnToExplore));
    assert_eq!(b.action_for(KeyCombo::Ctrl('z')), None);
}

#[test]
fn descriptors_name_key_and_skim_action() {
    let d = surf_keys().bindings().keys_descriptors();
    assert_eq!(d, vec!["ctrl-o:accept", "alt-j:accept", "ctrl-e:accept"]);
}

#[test]
fn repeated_keys_are_detected() {
    assert!(surf_keys().has_unique_keys());
    let twice = SurfKeymap { open_xdg: key("ctrl-o"), jump_to_link_or_snippet: key("ctrl-o"), return_to_explore: key("ctrl-e") };
    assert!(!twice.has_unique_keys());
    assert!(all_keys_distinct(&vec![]));
    assert!(!all_keys_distinct(&vec![key("alt-a"), key("alt-b"), key("alt-a")]));
}

#[test]
fn the_first_binding_of_a_key_wins() {
    let twice = SurfKeymap { open_xdg: key("ctrl-o"), jump_to_link_or_snippet: key("ctrl-o"), return_to_explore: key("ctrl-e") };
    assert_eq!(twice.bindings().action_for(KeyCombo::Ctrl('o')), Some(Action::OpenXDG));
}
