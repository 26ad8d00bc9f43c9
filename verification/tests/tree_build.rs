use mds::config::color::{ColorScheme, ConfigRGB, Links, Notes, Rgb8};
use mds::link::{Destination, Link};
use mds::lines::EditorPosition;
use mds::note::links_term_tree::{LinkTree, NoteLinkTerm};
use mds::note::task_items_term_tree::{NoteTaskItemTerm, TaskTree};
use mds::note::task_tree_build::{task_tree_from, NoteTasks};
use mds::note::tree_build::{graph_index, link_tree_from, NoteLinks};
use mds::note::Note;
use mds::task_item::TaskItem;

fn rgb(r: u8, g: u8, b: u8) -> ConfigRGB {
    ConfigRGB(Rgb8 { r, g, b })
}

fn scheme() -> ColorScheme {
    ColorScheme {
        links: Links {
            parent_name: rgb(1, 1, 1),
            url: rgb(2, 2, 2),
            file: rgb(3, 3, 3),
            dir: rgb(4, 4, 4),
            broken: rgb(5, 5, 5),
            code_block: rgb(6, 6, 6),
            unlisted: rgb(7, 7, 7),
            cycle: rgb(8, 8, 8),
        },
        notes: Notes { tag: rgb(9, 9, 9), special_tag: rgb(10, 10, 10) },
    }
}

fn note(name: &str) -> Note {
    Note::new(name.to_string(), None, scheme())
}

fn link_shape(t: &LinkTree) -> String {
    let root = match &t.root {
        NoteLinkTerm::Note(n) => n.name(),
        NoteLinkTerm::Cycle(name, _) => format!("cycle {}", name),
        NoteLinkTerm::LinkHint(hidden, n, _) => format!("hint {} {}", hidden, n),
        NoteLinkTerm::Link(l) => format!("link {}", l.description),
    };
    if t.leaves.is_empty() {
        root
    } else {
        let inner: Vec<String> = t.leaves.iter().map(link_shape).collect();
        format!("{} [{}]", root, inner.join(", "))
    }
}

fn task_shape(t: &TaskTree) -> String {
    let root = match &t.root {
        NoteTaskItemTerm::Note(n) => n.name(),
        NoteTaskItemTerm::Cycle(name, _) => format!("cycle {}", name),
        NoteTaskItemTerm::TaskHint(hidden, n, _) => format!("hint {} {}", hidden, n),
        NoteTaskItemTerm::Task(i) | NoteTaskItemTerm::TaskMono(i) => format!("task {}", i.title),
    };
    if t.leaves.is_empty() {
        root
    } else {
        let inner: Vec<String> = t.leaves.iter().map(task_shape).collect();
        format!("{} [{}]", root, inner.join(", "))
    }
}

/// a -> b, a -> c, b -> a, c -> b
fn graph() -> (Vec<String>, Vec<Vec<usize>>) {
    let ns = vec!["a".to_string(), "b".to_string(), "c".to_string()];
    let fw = vec![vec![1, 2], vec![0], vec![1]];
    (ns, fw)
}

fn a_link() -> Link {
    Link::with_destination(
        "docs".to_string(),
        Destination::Url("https://x.org".to_string()),
        "./a.md".to_string(),
        "a".to_string(),
        EditorPosition { line: 1, column: 1 },
        scheme(),
    )
}

#[test]
fn link_trees_take_links_in_reverse_and_stop_at_cycles() {
    let (ns, fw) = graph();
    let notes = vec![
        Some(NoteLinks { note: note("a"), links: vec![a_link()] }),
        Some(NoteLinks { note: note("b"), links: vec![] }),
        Some(NoteLinks { note: note("c"), links: vec![] }),
    ];
    let (tree, reached) = link_tree_from(0, &ns, &fw, notes, vec![], 1, scheme());
    assert_eq!(link_shape(&tree), "a [hint false 1 [link docs], c [b [cycle a]], cycle b]");
    assert_eq!(reached, vec!["a", "c", "b"]);
}

#[test]
fn deeper_link_sections_only_count() {
    let (ns, fw) = graph();
    let notes = vec![
        Some(NoteLinks { note: note("a"), links: vec![] }),
        Some(NoteLinks { note: note("b"), links: vec![a_link(), a_link()] }),
        Some(NoteLinks { note: note("c"), links: vec![] }),
    ];
    let (tree, _) = link_tree_from(0, &ns, &fw, notes, vec![], 1, scheme());
    assert_eq!(link_shape(&tree), "a [c [b [hint true 2, cycle a]], cycle b]");
}

#[test]
fn notes_reached_before_are_cycles() {
    let (ns, fw) = graph();
    let notes = vec![
        Some(NoteLinks { note: note("a"), links: vec![] }),
        None,
        Some(NoteLinks { note: note("c"), links: vec![] }),
    ];
    let (tree, reached) = link_tree_from(0, &ns, &fw, notes, vec!["b".to_string()], 1, scheme());
    assert_eq!(link_shape(&tree), "a [c [cycle b], cycle b]");
    assert_eq!(reached, vec!["b", "a", "c"]);
}

fn task(title: &str, level: usize, index: usize) -> TaskItem {
    TaskItem {
        file_name: "a.md".to_string(),
        title: title.to_string(),
        completed: false,
        nested_level: level,
        checkmark_offsets_in_string: 0..1,
        self_index: index,
        next_index: None,
    }
}

#[test]
fn task_trees_put_the_task_section_first() {
    let (ns, fw) = graph();
    let notes = vec![
        Some(NoteTasks { note: note("a"), tasks: vec![task("one", 0, 0), task("two", 1, 1)] }),
        Some(NoteTasks { note: note("b"), tasks: vec![] }),
        Some(NoteTasks { note: note("c"), tasks: vec![task("three", 0, 0)] }),
    ];
    let (tree, reached) = task_tree_from(0, &ns, &fw, notes, vec![], 1, scheme());
    assert_eq!(task_shape(&tree), "a [hint false 2 [task one [task two]], c [hint true 1, b [cycle a]], cycle b]");
    assert_eq!(reached, vec!["a", "c", "b"]);
}

#[test]
fn graph_indices_are_found_or_added() {
    let mut ns = vec!["a".to_string(), "b".to_string()];
    assert_eq!(graph_index(&mut ns, &"b".to_string()), 1);
    assert_eq!(ns.len(), 2);
    assert_eq!(graph_index(&mut ns, &"c".to_string()), 2);
    assert_eq!(ns, vec!["a", "b", "c"]);
}
