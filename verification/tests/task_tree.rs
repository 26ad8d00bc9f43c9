use mds::config::cmd_template::CmdTemplate;
use mds::config::color::{ColorScheme, ConfigRGB, Links, Notes, Rgb8};
use mds::config::external_commands::Open;
use mds::config::surf_parsing::ConfigRegex;
use mds::note::task_items_term_tree::{task_hint_total, task_section, NoteTaskItemTerm, TaskTree};
use mds::task_item::TaskItem;

static TEST_STR: &str = r#"
- [x] move `construct_term_tree` to a separate module on note.rs  <Tue Mar 21 08:18:59 PM EET 2023>
- [ ] create `TaskItem` struct  <Tue Mar 21 08:18:59 PM EET 2023>
  - [x] test parsing of this snippet <Tue Mar 21 09:47:55 PM EET 2023>
    - [x] it's a very very meta test, depicting what has actually benn happening <Tue Mar 21 08:20:16 PM EET 2023>
      - [x] in development <Tue Mar 21 08:20:37 PM EET 2023>
  - [ ] implement `skim_display` for it  <Tue Mar 21 08:19:22 PM EET 2023>
- [ ] allow starring of subtasks as in [mdt](https://github.com/basilioss/mdt) <Tue Mar 21 08:25:06 PM EET 2023>
  - [ ] command is called `mds chm`, short for `checkmark` <Tue Mar 21 08:25:45 PM EET 2023>        
    "#;

fn items() -> Vec<TaskItem> {
    let re = ConfigRegex::new(r#"(?P<whitespace>(  )*)- \[(?P<checkmark>[x ])\]\s+(?P<task_text>.+)"#).unwrap();
    TaskItem::parse_string("notes.md", TEST_STR, &re).unwrap()
}

fn rgb(r: u8, g: u8, b: u8) -> ConfigRGB {
    ConfigRGB(Rgb8 { r, g, b })
}

fn scheme() -> ColorScheme {
    ColorScheme {
        links: Links {
            parent_name: rgb(1, 1, 1),
            url: rgb(2, 2, 2),
            file: rgb(3, 3, 3),
            dir: rgb(4, 4, 4),
            broken: rgb(5, 5, 5),
            code_block: rgb(6, 6, 6),
            unlisted: rgb(7, 7, 7),
            cycle: rgb(8, 8, 8),
        },
        notes: Notes { tag: rgb(9, 9, 9), special_tag: rgb(10, 10, 10) },
    }
}

fn strip_ansi(s: &str) -> String {
    let mut out = String::new();
    let mut chars = s.chars();
    while let Some(c) = chars.next() {
        if c == '\u{1b}' {
            for d in chars.by_ref() {
                if d == 'm' {
                    break;
                }
            }
        } else {
            out.push(c);
        }
    }
    out
}

fn task(t: &NoteTaskItemTerm) -> &TaskItem {
    match t {
        NoteTaskItemTerm::Task(i) | NoteTaskItemTerm::TaskMono(i) => i,
        _ => panic!("not a task"),
    }
}

fn shape(t: &TaskTree) -> String {
    let it = task(&t.root);
    let inner: Vec<String> = t.leaves.iter().map(shape).collect();
    format!("{}:{:?}[{}]", it.self_index, it.next_index, inner.join(","))
}

#[test]
fn trees_follow_the_nesting_of_the_items() {
    let trees = NoteTaskItemTerm::parse(&items(), true, false);
    let shapes: Vec<String> = trees.iter().map(shape).collect();
    assert_eq!(
        shapes,
        vec![
            "0:Some(1)[]".to_string(),
            "1:Some(6)[2:Some(5)[3:Some(5)[4:None[]]],5:None[]]".to_string(),
            "6:Some(8)[7:None[]]".to_string(),
        ]
    );
    assert!(matches!(trees[0].root, NoteTaskItemTerm::Task(_)));
}

#[test]
fn without_grouping_every_item_heads_a_tree() {
    let trees = NoteTaskItemTerm::parse(&items(), false, true);
    assert_eq!(trees.len(), 8);
    assert!(matches!(trees[0].root, NoteTaskItemTerm::TaskMono(_)));
    assert_eq!(shape(&trees[2]), "2:Some(5)[3:Some(5)[4:None[]]]");
}

#[test]
fn counts_of_roots_add_up_to_all_items() {
    let trees = NoteTaskItemTerm::parse(&items(), true, false);
    let counts: Vec<usize> = trees.iter().map(|t| t.root.len_task_items()).collect();
    assert_eq!(counts, vec![1, 5, 2]);
    assert_eq!(task_hint_total(&trees), 8);
}

#[test]
fn an_empty_list_has_no_trees() {
    assert!(NoteTaskItemTerm::parse(&[], true, false).is_empty());
}

#[test]
fn deep_sections_show_only_the_count() {
    let trees = NoteTaskItemTerm::parse(&items(), true, false);
    let s = task_section(1, 1, trees, scheme()).unwrap();
    assert!(matches!(s.root, NoteTaskItemTerm::TaskHint(true, 8, _)));
    assert!(s.leaves.is_empty());
    assert_eq!(strip_ansi(&s.root.display("")), "8 task items unlisted");
}

#[test]
fn shallow_sections_list_the_trees() {
    let trees = NoteTaskItemTerm::parse(&items(), true, false);
    let s = task_section(0, 1, trees, scheme()).unwrap();
    assert!(matches!(s.root, NoteTaskItemTerm::TaskHint(false, 8, _)));
    assert_eq!(s.leaves.len(), 3);
    assert_eq!(strip_ansi(&s.root.display("")), "8 task items ");
    assert!(task_section(0, 1, vec![], scheme()).is_none());
}

#[test]
fn terms_are_shown_as_their_items() {
    let list = items();
    let mono = NoteTaskItemTerm::TaskMono(list[4].clone());
    assert_eq!(mono.display(""), "[✓] in development <Tue Mar 21 08:20:37 PM EET 2023>  ");
    let colored = NoteTaskItemTerm::Task(list[1].clone());
    assert!(strip_ansi(&colored.display("TITLE")).starts_with("[ ] TITLE "));
    let cycle = NoteTaskItemTerm::Cycle("loop".to_string(), scheme());
    assert_eq!(strip_ansi(&cycle.display("")), "⟳ loop");
}

#[test]
fn jumping_to_a_task_fills_file_line_and_column() {
    let list = items();
    let cmd = |c: &str, a: &[&str]| CmdTemplate { command: c.to_string(), args: a.iter().map(|x| x.to_string()).collect() };
    let open = Open {
        file_cmd: cmd("hx", &["$FILE"]),
        file_jump_cmd: cmd("hx", &["$FILE:$LINE:$COLUMN"]),
        url_cmd: cmd("firefox", &["$URL"]),
        dir_cmd: cmd("hx", &["$DIR"]),
        pipe_text_snippet_cmd: cmd("wl-copy", &[]),
    };
    let plan = NoteTaskItemTerm::Task(list[4].clone()).jump_plan(&open, TEST_STR);
    assert_eq!(plan.cmd.command, "hx");
    assert_eq!(plan.cmd.args, vec!["notes.md:6:10"]);
    assert!(plan.substitute_program);
    assert!(plan.run_in_dir_of.is_none());
    assert!(plan.stdin.is_none());
    let plan = NoteTaskItemTerm::TaskMono(list[0].clone()).jump_plan(&open, TEST_STR);
    assert_eq!(plan.cmd.args, vec!["notes.md:2:4"]);
}

fn md_static() -> mds::highlight::MarkdownStatic {
    let syntax_set: &'static syntect::parsing::SyntaxSet =
        Box::leak(Box::new(syntect::parsing::SyntaxSet::load_defaults_newlines()));
    let themes: &'static syntect::highlighting::ThemeSet =
        Box::leak(Box::new(syntect::highlighting::ThemeSet::load_defaults()));
    mds::highlight::MarkdownStatic {
        syntax_set,
        markdown: syntax_set.find_syntax_by_token("markdown").unwrap(),
        theme: &themes.themes["base16-eighties.dark"],
    }
}

fn expected_drawing(t: &TaskTree) -> bidir_termtree::Tree<String, bidir_termtree::Down> {
    let mut tree = bidir_termtree::Tree::new(t.root.display(""));
    for leaf in &t.leaves {
        tree.push(expected_drawing(leaf));
    }
    tree
}

#[test]
fn plain_task_trees_are_drawn_as_trees() {
    let trees = NoteTaskItemTerm::parse(&items(), true, true);
    let drawn = mds::note::render::task_tree_text(&trees[1], &md_static()).unwrap();
    assert_eq!(drawn, expected_drawing(&trees[1]).to_string());
    let lines: Vec<&str> = drawn.lines().collect();
    assert_eq!(lines.len(), 5);
    assert_eq!(lines[0], "[ ] create `TaskItem` struct  <Tue Mar 21 08:18:59 PM EET 2023>  ");
    assert!(lines[3].contains("in development"));
}

#[test]
fn colored_task_trees_keep_their_text() {
    let trees = NoteTaskItemTerm::parse(&items(), true, false);
    let drawn = mds::note::render::task_tree_text(&trees[2], &md_static()).unwrap();
    let plain = strip_ansi(&drawn);
    assert!(plain.starts_with("[ ] allow starring of subtasks"));
    assert!(plain.contains("command is called `mds chm`"));
    assert_eq!(plain.lines().count(), 2);
}

fn size(t: &TaskTree) -> usize {
    1 + t.leaves.iter().map(size).sum::<usize>()
}

fn counts_own_subtree(t: &TaskTree) -> bool {
    t.root.len_task_items() == size(t) && t.leaves.iter().all(counts_own_subtree)
}

#[test]
fn every_term_counts_its_own_subtree() {
    for group in [true, false] {
        for mono in [true, false] {
            let trees = NoteTaskItemTerm::parse(&items(), group, mono);
            assert!(trees.iter().all(counts_own_subtree));
            assert!(trees.iter().all(|t| t.root.is_countable()));
        }
    }
}

#[test]
fn indices_fit_as_the_counts_need() {
    let list = items();
    assert!(mds::note::task_items_term_tree::indices_fit_check(&list));
    let mut last_high = list.clone();
    let n = last_high.len();
    last_high[n - 1].self_index = usize::MAX;
    assert!(mds::note::task_items_term_tree::indices_fit_check(&last_high));
    let mut first_high = list.clone();
    first_high[0].self_index = usize::MAX;
    assert!(!mds::note::task_items_term_tree::indices_fit_check(&first_high));
}
