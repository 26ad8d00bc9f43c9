use mds::note::reachable::{contains_name, insert_name, ReachStep, Reachability};
use std::collections::HashMap;

fn graph() -> HashMap<&'static str, Vec<&'static str>> {
    let mut g = HashMap::new();
    g.insert("a", vec!["b", "c"]);
    g.insert("b", vec!["d"]);
    g.insert("c", vec!["d", "a"]);
    g.insert("d", vec![]);
    g.insert("e", vec!["a"]);
    g
}

fn reachable_from(start: &str) -> Vec<String> {
    let g = graph();
    let mut r = Reachability::start(start);
    loop {
        let mut next: Vec<String> = Vec::new();
        for n in &r.layer {
            for m in &g[n.as_str()] {
                next.push(m.to_string());
            }
        }
        match r.advance(&next) {
            ReachStep::Done(all) => {
                let mut all = all;
                all.sort();
                return all;
            }
            ReachStep::Continue(s) => r = s,
        }
    }
}

#[test]
fn the_search_starts_with_the_note_alone() {
    let r = Reachability::start("a");
    assert!(r.reachable.is_empty());
    assert_eq!(r.layer, vec!["a".to_string()]);
}

#[test]
fn every_linked_note_is_reached_once() {
    assert_eq!(reachable_from("a"), vec!["a", "b", "c", "d"]);
    assert_eq!(reachable_from("e"), vec!["a", "b", "c", "d", "e"]);
}

#[test]
fn a_note_without_links_reaches_itself() {
    assert_eq!(reachable_from("d"), vec!["d"]);
}

#[test]
fn a_step_with_only_known_notes_is_done() {
    let r = Reachability::start("x");
    match r.advance(&vec!["x".to_string(), "x".to_string()]) {
        ReachStep::Done(all) => assert_eq!(all, vec!["x".to_string()]),
        ReachStep::Continue(_) => panic!("search should be done"),
    }
}

#[test]
fn names_are_inserted_once() {
    let mut v: Vec<String> = Vec::new();
    insert_name(&mut v, &"a".to_string());
    insert_name(&mut v, &"b".to_string());
    insert_name(&mut v, &"a".to_string());
    assert_eq!(v, vec!["a".to_string(), "b".to_string()]);
    assert!(contains_name(&v, &"b".to_string()));
    assert!(!contains_name(&v, &"c".to_string()));
}
