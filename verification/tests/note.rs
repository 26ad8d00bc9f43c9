use mds::config::color::{ColorScheme, ConfigRGB, Links, Notes, Rgb8};
use mds::note::details::{db_error_text, details_text, listing_text, section_text};
use mds::highlight::MarkdownStatic;
use mds::note::random::rand_suffix;
use mds::config::cmd_template::CmdTemplate;
use mds::config::external_commands::{ExternalCommands, Open, Preview};
use mds::config::surf_parsing::{ConfigRegex, SurfParsing};
use mds::note::{note_file_name, DynResources, Note, PreviewType};

fn rgb(r: u8, g: u8, b: u8) -> ConfigRGB {
    ConfigRGB(Rgb8 { r, g, b })
}

fn scheme() -> ColorScheme {
    ColorScheme {
        links: Links {
            parent_name: rgb(1, 1, 1),
            url: rgb(2, 2, 2),
            file: rgb(3, 3, 3),
            dir: rgb(4, 4, 4),
            broken: rgb(5, 5, 5),
            code_block: rgb(6, 6, 6),
            unlisted: rgb(7, 7, 7),
            cycle: rgb(8, 8, 8),
        },
        notes: Notes { tag: rgb(9, 9, 9), special_tag: rgb(10, 10, 10) },
    }
}

fn strip_ansi(s: &str) -> String {
    let mut out = String::new();
    let mut chars = s.chars();
    while let Some(c) = chars.next() {
        if c == '\u{1b}' {
            for d in chars.by_ref() {
                if d == 'm' {
                    break;
                }
            }
        } else {
            out.push(c);
        }
    }
    out
}

#[test]
fn preview_type_cycles_through_three_kinds() {
    let p = PreviewType::default();
    assert_eq!(p, PreviewType::LinkStructure);
    assert_eq!(p.toggle(), PreviewType::TaskStructure);
    assert_eq!(p.toggle().toggle(), PreviewType::Details);
    assert_eq!(p.toggle().toggle().toggle(), PreviewType::LinkStructure);
}

#[test]
fn a_note_with_a_path_is_a_markdown_note() {
    let n = Note::new("ideas".to_string(), Some("./1_abc.md".to_string()), scheme());
    assert_eq!(n.name(), "ideas");
    assert_eq!(n.file_path(), Some(&"./1_abc.md".to_string()));
    assert!(!n.is_tag());
    assert!(n.resources().is_none());
    let t = Note::new("rust".to_string(), None, scheme());
    assert!(t.is_tag());
    assert_eq!(t.file_path(), None);
}

#[test]
fn notes_are_the_same_by_name() {
    let a = Note::new("x".to_string(), Some("./a.md".to_string()), scheme());
    let b = Note::new("x".to_string(), None, scheme());
    let c = Note::new("y".to_string(), None, scheme());
    assert!(a.same_note(&b));
    assert!(!a.same_note(&c));
}

#[test]
fn a_tag_shows_its_name() {
    let t = Note::new("rust".to_string(), None, scheme());
    assert_eq!(strip_ansi(&t.display()), "rust");
    let special = Note::new("METATAG".to_string(), None, scheme());
    assert_eq!(strip_ansi(&special.display()), "METATAG");
}

#[test]
fn a_markdown_note_shows_its_rendered_name() {
    let mut n = Note::new("ideas".to_string(), Some("./a.md".to_string()), scheme());
    n.set_rendered_name("IDEAS");
    assert_eq!(strip_ansi(&n.display()), "IDEAS  ");
    n.rename_rendered("plans", "PLANS");
    assert_eq!(n.name(), "plans");
    assert_eq!(n.file_path(), Some(&"./a.md".to_string()));
    assert_eq!(strip_ansi(&n.display()), "PLANS  ");
}

#[test]
fn file_names_hold_the_time_and_the_suffix() {
    assert_eq!(note_file_name(1679425237, "aB3xY9z"), "./1679425237_aB3xY9z.md");
    assert_eq!(note_file_name(-5, "k"), "./-5_k.md");
    assert_eq!(note_file_name(0, ""), "./0_.md");
}

#[test]
fn random_suffixes_are_seven_alphanumerics() {
    for _ in 0..20 {
        let s = rand_suffix();
        assert_eq!(s.chars().count(), 7);
        assert!(s.chars().all(|c| c.is_ascii_alphanumeric()));
    }
}

#[test]
fn a_new_note_gets_a_file_in_the_current_directory() {
    let n = Note::init_rendered("journal".to_string(), false, "JOURNAL", scheme());
    assert_eq!(n.name(), "journal");
    let path = n.file_path().unwrap().clone();
    assert!(path.starts_with("./"));
    assert!(path.ends_with(".md"));
    let stem = &path[2..path.len() - 3];
    let (time, suffix) = stem.rsplit_once('_').unwrap();
    assert!(time.parse::<i64>().is_ok());
    assert_eq!(suffix.len(), 7);
    assert_eq!(strip_ansi(&n.display()), "JOURNAL  ");
    let t = Note::init_rendered("topic".to_string(), true, "TOPIC", scheme());
    assert!(t.is_tag());
}

#[test]
fn a_new_markdown_note_starts_with_its_heading() {
    let n = Note::new("journal".to_string(), Some("./j.md".to_string()), scheme());
    assert_eq!(n.persisted_content(), Some("# 💖 journal\n".to_string()));
    let t = Note::new("topic".to_string(), None, scheme());
    assert_eq!(t.persisted_content(), None);
}

#[test]
fn sections_are_empty_without_a_listing() {
    assert_eq!(section_text("", "Links to:"), "");
    assert_eq!(section_text("table\n", "Links to:"), "Links to:\ntable\n\n");
}

#[test]
fn listing_of_no_notes_is_empty() {
    assert_eq!(listing_text(&vec![]), "");
}

#[test]
fn listing_of_notes_is_a_table_of_names_and_kinds() {
    let notes = vec![
        Note::new("alpha".to_string(), Some("./a.md".to_string()), scheme()),
        Note::new("beta".to_string(), None, scheme()),
    ];
    let s = strip_ansi(&listing_text(&notes));
    assert!(s.ends_with('\n'));
    assert!(s.contains("Name"));
    assert!(s.contains("Type"));
    assert!(s.contains("alpha"));
    assert!(s.contains("note"));
    assert!(s.contains("beta"));
    assert!(s.contains("tag"));
}

#[test]
fn database_errors_are_shown_in_red_text() {
    assert_eq!(strip_ansi(&db_error_text("RowNotFound")), "db err RowNotFound");
}

#[test]
fn details_put_the_title_before_the_sections_and_the_body() {
    let n = Note::new("ideas".to_string(), Some("./a.md".to_string()), scheme());
    let s = details_text(&n, "Linked by:\nX\n\n", "Links to:\nY\n\n", Some("body"));
    assert_eq!(strip_ansi(&s), "it's a note: ideas\n\nLinked by:\nX\n\nLinks to:\nY\n\nbody");
    let t = Note::new("rust".to_string(), None, scheme());
    let s = details_text(&t, "", "", None);
    assert_eq!(strip_ansi(&s), "it's a tag: rust\n\n");
}

fn cmd(c: &str, a: &[&str]) -> CmdTemplate {
    CmdTemplate { command: c.to_string(), args: a.iter().map(|x| x.to_string()).collect() }
}

fn resources() -> DynResources {
    let re = || ConfigRegex::new("x").unwrap();
    DynResources {
        external_commands: ExternalCommands {
            preview: Preview { dir_cmd: cmd("ls", &["$DIR"]), file_cmd: cmd("cat", &["$FILE"]), file_line_cmd: cmd("cat", &["$FILE"]) },
            open: Open {
                file_cmd: cmd("hx", &["--", "$FILE", "$FILE"]),
                file_jump_cmd: cmd("hx", &["$FILE:$LINE:$COLUMN"]),
                url_cmd: cmd("firefox", &["$URL"]),
                dir_cmd: cmd("broot", &["$DIR"]),
                pipe_text_snippet_cmd: cmd("wl-copy", &[]),
            },
        },
        surf_parsing: SurfParsing { url_regex: re(), markdown_reference_link_regex: re(), task_item_regex: re(), has_line_regex: re() },
        preview_type: PreviewType::Details,
        preview_result: None,
    }
}

#[test]
fn previews_are_stored_only_with_resources() {
    let mut n = Note::new("ideas".to_string(), Some("./a.md".to_string()), scheme());
    n.set_preview_result(Some("lost".to_string()));
    assert!(n.resources().is_none());
    n.set_resources(resources());
    n.set_preview_result(Some("kept".to_string()));
    assert_eq!(n.resources().unwrap().preview_result, Some("kept".to_string()));
    assert_eq!(n.resources().unwrap().preview_type, PreviewType::Details);
    assert_eq!(n.name(), "ideas");
}

#[test]
fn notes_open_their_file_and_tags_nothing() {
    let n = Note::new("ideas".to_string(), Some("./a.md".to_string()), scheme());
    let plan = n.open_plan(&resources().external_commands.open).unwrap();
    assert_eq!(plan.cmd.command, "hx");
    assert_eq!(plan.cmd.args, vec!["--", "./a.md", "$FILE"]);
    assert!(!plan.substitute_program);
    let t = Note::new("rust".to_string(), None, scheme());
    assert!(t.open_plan(&resources().external_commands.open).is_none());
}

fn md_static() -> MarkdownStatic {
    let syntax_set: &'static syntect::parsing::SyntaxSet =
        Box::leak(Box::new(syntect::parsing::SyntaxSet::load_defaults_newlines()));
    let themes: &'static syntect::highlighting::ThemeSet =
        Box::leak(Box::new(syntect::highlighting::ThemeSet::load_defaults()));
    MarkdownStatic {
        syntax_set,
        markdown: syntax_set.find_syntax_by_token("markdown").unwrap(),
        theme: &themes.themes["base16-eighties.dark"],
    }
}

#[test]
fn names_are_highlighted_as_markdown() {
    let md = md_static();
    let mut n = Note::new("my *ideas*".to_string(), Some("./a.md".to_string()), scheme());
    assert!(n.set_markdown(&md));
    let shown = n.display();
    assert!(shown.contains('\u{1b}'));
    assert_eq!(strip_ansi(&shown), "my *ideas*  ");
    assert!(n.rename("plans", &md));
    assert_eq!(strip_ansi(&n.display()), "plans  ");
    let mut t = Note::new("rust".to_string(), None, scheme());
    assert!(t.set_markdown(&md));
    assert_eq!(strip_ansi(&t.display()), "rust");
}

#[test]
fn new_notes_have_highlighted_names() {
    let md = md_static();
    let n = Note::init("journal".to_string(), false, &md, scheme()).unwrap();
    assert_eq!(strip_ansi(&n.display()), "journal  ");
    assert!(n.file_path().unwrap().ends_with(".md"));
    let t = Note::init("topic".to_string(), true, &md, scheme()).unwrap();
    assert!(t.is_tag());
    assert_eq!(strip_ansi(&t.display()), "topic");
}

#[test]
fn tags_and_empty_names_always_give_a_note() {
    let md = md_static();
    assert!(Note::init("any tag".to_string(), true, &md, scheme()).is_some());
    let n = Note::init(String::new(), false, &md, scheme()).unwrap();
    assert_eq!(n.name(), "");
}
