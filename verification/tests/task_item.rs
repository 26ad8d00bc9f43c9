use mds::config::surf_parsing::ConfigRegex;
use mds::highlight::{highlight_code_block, split_lines_with_endings, MarkdownStatic};
use mds::task_item::TaskItem;

static TEST_STR: &str = r#"
- [x] move `construct_term_tree` to a separate module on note.rs  <Tue Mar 21 08:18:59 PM EET 2023>
- [ ] create `TaskItem` struct  <Tue Mar 21 08:18:59 PM EET 2023>
  - [x] test parsing of this snippet <Tue Mar 21 09:47:55 PM EET 2023>
    - [x] it's a very very meta test, depicting what has actually benn happening <Tue Mar 21 08:20:16 PM EET 2023>
      - [x] in development <Tue Mar 21 08:20:37 PM EET 2023>
  - [ ] implement `skim_display` for it  <Tue Mar 21 08:19:22 PM EET 2023>
- [ ] allow starring of subtasks as in [mdt](https://github.com/basilioss/mdt) <Tue Mar 21 08:25:06 PM EET 2023>
  - [ ] command is called `mds chm`, short for `checkmark` <Tue Mar 21 08:25:45 PM EET 2023>        
    "#;

fn task_regex() -> ConfigRegex {
    ConfigRegex::new(r#"(?P<whitespace>(  )*)- \[(?P<checkmark>[x ])\]\s+(?P<task_text>.+)"#).unwrap()
}

#[test]
fn test_tasks_items_parsing() {
    let regex = task_regex();
    let list = TaskItem::parse_string("./tmp.rs", TEST_STR, &regex).unwrap();
    assert_eq!(8, list.len());
    assert_eq!(
        &list[4],
        &TaskItem {
            title: "in development <Tue Mar 21 08:20:37 PM EET 2023>".to_string(),
            nested_level: 3,
            completed: true,
            file_name: "./tmp.rs".into(),
            checkmark_offsets_in_string: 362..363,
            self_index: 4,
            next_index: None,
        }
    );
    for el in list {
        println!("{:#?}", el);
    }
}

#[test]
fn parsed_items_follow_their_lines() {
    let list = TaskItem::parse_string("notes.md", TEST_STR, &task_regex()).unwrap();
    let levels: Vec<usize> = list.iter().map(|t| t.nested_level).collect();
    assert_eq!(levels, vec![0, 0, 1, 2, 3, 1, 0, 1]);
    let done: Vec<bool> = list.iter().map(|t| t.completed).collect();
    assert_eq!(done, vec![true, false, true, true, true, false, false, false]);
    for (i, t) in list.iter().enumerate() {
        assert_eq!(t.self_index, i);
        assert_eq!(t.next_index, None);
        assert_eq!(t.file_name, "notes.md");
        let mark = &TEST_STR[t.checkmark_offsets_in_string.clone()];
        assert_eq!(mark, if t.completed { "x" } else { " " });
    }
    assert_eq!(list[0].title, "move `construct_term_tree` to a separate module on note.rs  <Tue Mar 21 08:18:59 PM EET 2023>");
}

#[test]
fn text_without_tasks_gives_no_items() {
    let list = TaskItem::parse_string("empty.md", "# heading\nplain text\n", &task_regex()).unwrap();
    assert!(list.is_empty());
}

#[test]
fn mono_display_shows_checkmark_and_title() {
    let list = TaskItem::parse_string("notes.md", TEST_STR, &task_regex()).unwrap();
    assert_eq!(list[4].skim_display_mono(false), "[✓] in development <Tue Mar 21 08:20:37 PM EET 2023>  ");
    assert_eq!(list[4].skim_display_mono(true), "      [✓] in development <Tue Mar 21 08:20:37 PM EET 2023>  ");
    assert_eq!(list[1].skim_display_mono(false), "[ ] create `TaskItem` struct  <Tue Mar 21 08:18:59 PM EET 2023>  ");
}

#[test]
fn display_keeps_highlighted_title() {
    let list = TaskItem::parse_string("notes.md", TEST_STR, &task_regex()).unwrap();
    let shown = list[2].skim_display_titled(true, "TITLE");
    assert!(shown.starts_with("  ["));
    assert!(shown.contains("] TITLE "));
    assert!(shown.contains('✓'));
    let open = list[1].skim_display_titled(false, "T");
    assert!(open.starts_with("[ ] T "));
}

#[test]
fn toggling_flips_the_checkmark_in_the_text() {
    let list = TaskItem::parse_string("notes.md", TEST_STR, &task_regex()).unwrap();
    let toggled = list[4].toggled_content(TEST_STR);
    assert_eq!(toggled.len(), TEST_STR.len());
    assert_eq!(&toggled[362..363], " ");
    assert_eq!(&toggled[..362], &TEST_STR[..362]);
    assert_eq!(&toggled[363..], &TEST_STR[363..]);
    let open = list[1].toggled_content(TEST_STR);
    let at = list[1].checkmark_offsets_in_string.start;
    assert_eq!(&open[at..at + 1], "x");
}

#[test]
fn toggling_twice_restores_the_text() {
    let list = TaskItem::parse_string("notes.md", TEST_STR, &task_regex()).unwrap();
    for item in &list {
        let once = item.toggled_content(TEST_STR);
        let flipped = item.duplicate().toggled();
        assert_eq!(flipped.completed, !item.completed);
        let twice = flipped.toggled_content(&once);
        assert_eq!(twice, TEST_STR);
    }
}

fn strip_ansi(s: &str) -> String {
    let mut out = String::new();
    let mut chars = s.chars();
    while let Some(c) = chars.next() {
        if c == '\u{1b}' {
            for d in chars.by_ref() {
                if d == 'm' {
                    break;
                }
            }
        } else {
            out.push(c);
        }
    }
    out
}

fn md_static() -> MarkdownStatic {
    let syntax_set: &'static syntect::parsing::SyntaxSet =
        Box::leak(Box::new(syntect::parsing::SyntaxSet::load_defaults_newlines()));
    let themes: &'static syntect::highlighting::ThemeSet =
        Box::leak(Box::new(syntect::highlighting::ThemeSet::load_defaults()));
    MarkdownStatic {
        syntax_set,
        markdown: syntax_set.find_syntax_by_token("markdown").unwrap(),
        theme: &themes.themes["base16-eighties.dark"],
    }
}

#[test]
fn display_highlights_the_title() {
    let md = md_static();
    let list = TaskItem::parse_string("notes.md", TEST_STR, &task_regex()).unwrap();
    let shown = list[1].skim_display(false, &md).unwrap();
    assert!(shown.contains("\u{1b}[38;2;"));
    assert_eq!(strip_ansi(&shown), "[ ] create `TaskItem` struct  <Tue Mar 21 08:18:59 PM EET 2023>  ");
}

#[test]
fn unknown_syntaxes_are_left_plain() {
    let md = md_static();
    assert_eq!(highlight_code_block("a < b", "no-such-syntax", &md), Some("a < b".to_string()));
    let code = highlight_code_block("fn main() {}\n", "rust", &md).unwrap();
    assert_eq!(strip_ansi(&code), "fn main() {}\n");
}

#[test]
fn lines_keep_their_endings() {
    assert_eq!(split_lines_with_endings("a\nb\n\nc"), vec!["a\n", "b\n", "\n", "c"]);
    assert_eq!(split_lines_with_endings(""), Vec::<String>::new());
    assert_eq!(split_lines_with_endings("\n"), vec!["\n"]);
    for s in ["x\ny", "é\n", "\n\n", "end"] {
        let mine = split_lines_with_endings(s);
        let theirs: Vec<String> = syntect::util::LinesWithEndings::from(s).map(|l| l.to_string()).collect();
        assert_eq!(mine, theirs);
    }
}

#[test]
fn empty_text_is_highlighted_as_empty() {
    let md = md_static();
    assert_eq!(highlight_code_block("", "markdown", &md), Some(String::new()));
    assert_eq!(mds::highlight::highlight_markdown("", &md), Some(String::new()));
    let mut list = TaskItem::parse_string("notes.md", TEST_STR, &task_regex()).unwrap();
    list[1].title = String::new();
    let shown = list[1].skim_display(false, &md).unwrap();
    assert_eq!(strip_ansi(&shown), "[ ]   ");
}

#[test]
fn highlighted_pieces_carry_both_colors_and_the_text() {
    let md = md_static();
    let out = mds::highlight::highlight_markdown("# Title\nbody\n", &md).unwrap();
    assert!(out.starts_with("\u{1b}[48;2;"));
    assert!(out.contains("\u{1b}[38;2;"));
    assert_eq!(strip_ansi(&out), "# Title\nbody\n");
}

#[test]
fn colored_display_reads_as_the_plain_one() {
    let md = md_static();
    let list = TaskItem::parse_string("notes.md", TEST_STR, &task_regex()).unwrap();
    for item in &list {
        for indented in [false, true] {
            let shown = item.skim_display(indented, &md).unwrap();
            assert_eq!(strip_ansi(&shown), item.skim_display_mono(indented));
        }
    }
}
