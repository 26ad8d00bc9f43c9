use mds::config::cmd_template::CmdTemplate;
use mds::config::color::{ColorScheme, ConfigRGB, Links, Notes, Rgb8};
use mds::config::external_commands::{Open, Preview};
use mds::config::surf_parsing::{ConfigRegex, SurfParsing};
use mds::lines::EditorPosition;
use mds::link::code_blocks::code_blocks;
use mds::link::{Destination, Link, LinkTarget, OpenPlan, PreviewPlan, XdgTarget};
use mds::note::links_term_tree::{link_section, LinkTree, NoteLinkTerm};
use mds::note::render::link_tree_text;

fn rgb(r: u8, g: u8, b: u8) -> ConfigRGB {
    ConfigRGB(Rgb8 { r, g, b })
}

fn scheme() -> ColorScheme {
    ColorScheme {
        links: Links {
            parent_name: rgb(1, 1, 1),
            url: rgb(2, 2, 2),
            file: rgb(3, 3, 3),
            dir: rgb(4, 4, 4),
            broken: rgb(5, 5, 5),
            code_block: rgb(6, 6, 6),
            unlisted: rgb(7, 7, 7),
            cycle: rgb(8, 8, 8),
        },
        notes: Notes { tag: rgb(9, 9, 9), special_tag: rgb(10, 10, 10) },
    }
}

fn strip_ansi(s: &str) -> String {
    let mut out = String::new();
    let mut chars = s.chars();
    while let Some(c) = chars.next() {
        if c == '\u{1b}' {
            for d in chars.by_ref() {
                if d == 'm' {
                    break;
                }
            }
        } else {
            out.push(c);
        }
    }
    out
}

fn cmd(c: &str, a: &[&str]) -> CmdTemplate {
    CmdTemplate { command: c.to_string(), args: a.iter().map(|x| x.to_string()).collect() }
}

fn surf() -> SurfParsing {
    SurfParsing {
        url_regex: ConfigRegex::new(r"^https?://\S+$").unwrap(),
        markdown_reference_link_regex: ConfigRegex::new(r"\[(?P<description>[^\]]*)\]\((?P<url>[^)]+)\)").unwrap(),
        task_item_regex: ConfigRegex::new(r"(?P<whitespace>(  )*)- \[(?P<checkmark>[x ])\]\s+(?P<task_text>.+)").unwrap(),
        has_line_regex: ConfigRegex::new(r":\d+$").unwrap(),
    }
}

fn open() -> Open {
    Open {
        file_cmd: cmd("hx", &["$FILE"]),
        file_jump_cmd: cmd("hx", &["$FILE:$LINE:$COLUMN"]),
        url_cmd: cmd("firefox", &["$URL"]),
        dir_cmd: cmd("broot", &["$DIR"]),
        pipe_text_snippet_cmd: cmd("wl-copy", &[]),
    }
}

fn preview() -> Preview {
    Preview {
        dir_cmd: cmd("exa", &["$DIR"]),
        file_cmd: cmd("bat", &["$FILE"]),
        file_line_cmd: cmd("bat", &["-r", "$FIRST:$LAST", "-H", "$LINE", "$FILE"]),
    }
}

fn link_to(d: Destination) -> Link {
    Link::with_destination(
        "docs".to_string(),
        d,
        "./n.md".to_string(),
        "note".to_string(),
        EditorPosition { line: 3, column: 5 },
        scheme(),
    )
}

#[test]
fn urls_are_urls() {
    assert_eq!(
        Link::target("https://example.org/a", &surf()),
        Some(LinkTarget::Url("https://example.org/a".to_string()))
    );
}

#[test]
fn a_line_suffix_is_split_off() {
    assert_eq!(
        Link::target("src/main.rs:42", &surf()),
        Some(LinkTarget::Path { path: "src/main.rs".to_string(), line: Some(42) })
    );
    assert_eq!(
        Link::target("a:b:7", &surf()),
        Some(LinkTarget::Path { path: "a:b".to_string(), line: Some(7) })
    );
}

#[test]
fn plain_paths_have_no_line() {
    assert_eq!(
        Link::target("../other.md", &surf()),
        Some(LinkTarget::Path { path: "../other.md".to_string(), line: None })
    );
}

#[test]
fn a_line_suffix_that_does_not_parse_gives_no_line() {
    assert_eq!(
        Link::target_from_matches("file:99999999999999999999", false, true),
        Some(LinkTarget::Path { path: "file".to_string(), line: None })
    );
    assert_eq!(Link::target_from_matches("nocolon", false, true), None);
}

#[test]
fn destinations_follow_the_file_system() {
    let p = || "p".to_string();
    assert!(matches!(Link::fs_destination(p(), true, false, None), Destination::File { .. }));
    assert!(matches!(Link::fs_destination(p(), true, false, Some(3)), Destination::FileLine { line_number: 3, .. }));
    assert!(matches!(Link::fs_destination(p(), false, true, None), Destination::Dir { .. }));
    assert!(matches!(Link::fs_destination(p(), false, true, Some(3)), Destination::Broken(_, Some(3))));
    assert!(matches!(Link::fs_destination(p(), false, false, Some(3)), Destination::Broken(_, None)));
    assert!(matches!(Link::fs_destination(p(), true, true, None), Destination::Broken(_, None)));
}

#[test]
fn reference_links_are_found_with_their_positions() {
    let text = "# T\nsee [docs](https://x.org) and\n[é](./a.md:3)\n";
    let links = Link::reference_links(text, &surf()).unwrap();
    assert_eq!(links.len(), 2);
    assert_eq!(links[0].description, "docs");
    assert_eq!(links[0].url, "https://x.org");
    assert_eq!((links[0].start.line, links[0].start.column), (2, 6));
    assert_eq!(links[1].description, "é");
    assert_eq!(links[1].url, "./a.md:3");
    assert_eq!((links[1].start.line, links[1].start.column), (3, 2));
}

#[test]
fn code_blocks_are_links_described_by_their_first_line() {
    let text = "intro\n\n```rust\nfn main() {}\nlet x = 1;\n```\n\n```\n```\n";
    let links = code_blocks(text, "./n.md", "note", scheme());
    assert_eq!(links.len(), 2);
    assert_eq!(links[0].description, "fn main() {}");
    match &links[0].link {
        Destination::CodeBlock { code_block, syntax_label } => {
            assert_eq!(code_block, "fn main() {}\nlet x = 1;\n");
            assert_eq!(syntax_label, "rust");
        }
        _ => panic!("expected a code block"),
    }
    assert_eq!((links[0].start.line, links[0].start.column), (3, 1));
    assert_eq!(links[1].description, "snippet[1]");
    assert_eq!(links[1].parent_name, "note");
    assert_eq!(links[1].containing_file_name, "./n.md");
}

#[test]
fn links_show_their_note_and_description() {
    let mut l = link_to(Destination::Url("https://x.org".to_string()));
    assert_eq!(l.text(), "note -> [docs]");
    assert_eq!(strip_ansi(&l.skim_display()), "note -> [docs]");
    l.prepare_display();
    assert_eq!(strip_ansi(l.display_item.as_ref().unwrap()), "note -> [docs]");
}

#[test]
fn urls_open_in_the_browser() {
    let plan: OpenPlan = link_to(Destination::Url("https://x.org".to_string())).open_plan(&open()).unwrap();
    assert_eq!(plan.cmd.command, "firefox");
    assert_eq!(plan.cmd.args, vec!["https://x.org"]);
    assert!(!plan.substitute_program);
}

#[test]
fn file_lines_open_at_the_line_from_the_file_directory() {
    let plan = link_to(Destination::FileLine { file: "/a/b.rs".to_string(), line_number: 9 }).open_plan(&open()).unwrap();
    assert_eq!(plan.cmd.args, vec!["/a/b.rs:9:1"]);
    assert_eq!(plan.run_in_dir_of, Some("/a/b.rs".to_string()));
    assert!(plan.substitute_program);
}

#[test]
fn broken_links_cannot_be_opened() {
    let r = link_to(Destination::Broken("/missing".to_string(), None)).open_plan(&open());
    assert!(matches!(r, Err(p) if p == "/missing"));
}

#[test]
fn code_blocks_are_piped_to_the_snippet_command() {
    let l = link_to(Destination::CodeBlock { code_block: "echo hi\n".to_string(), syntax_label: "sh".to_string() });
    let plan = l.open_plan(&open()).unwrap();
    assert_eq!(plan.cmd.command, "wl-copy");
    assert_eq!(plan.stdin, Some("echo hi\n".to_string()));
    assert_eq!(l.xdg_target(), XdgTarget::Snippet);
}

#[test]
fn previews_follow_the_destination() {
    match link_to(Destination::File { file: "/f.md".to_string() }).preview_plan(&preview(), scheme()) {
        PreviewPlan::Command(c) => assert_eq!(c.args, vec!["/f.md"]),
        _ => panic!("expected a command"),
    }
    match link_to(Destination::FileLine { file: "/f.rs".to_string(), line_number: 30 }).preview_plan(&preview(), scheme()) {
        PreviewPlan::Command(c) => assert_eq!(c.args, vec!["-r", "10:35", "-H", "30", "/f.rs"]),
        _ => panic!("expected a command"),
    }
    match link_to(Destination::Broken("/gone".to_string(), Some(4))).preview_plan(&preview(), scheme()) {
        PreviewPlan::Text(t) => assert_eq!(strip_ansi(&t), "Broken path: /gone <line:4>"),
        _ => panic!("expected a text"),
    }
    match link_to(Destination::Dir { dir: "/d".to_string() }).preview_plan(&preview(), scheme()) {
        PreviewPlan::Command(c) => assert_eq!(c.args, vec!["/d"]),
        _ => panic!("expected a command"),
    }
}

#[test]
fn jumping_to_a_link_fills_its_position() {
    let plan = link_to(Destination::Dir { dir: "/d".to_string() }).jump_plan(&open());
    assert_eq!(plan.cmd.command, "hx");
    assert_eq!(plan.cmd.args, vec!["./n.md:3:5"]);
}

#[test]
fn link_sections_list_links_above_the_threshold() {
    let links = vec![link_to(Destination::Dir { dir: "/d".to_string() }), link_to(Destination::Url("u".to_string()))];
    let shown = link_section(0, 1, links, scheme()).unwrap();
    assert!(matches!(shown.root, NoteLinkTerm::LinkHint(false, 2, _)));
    assert_eq!(shown.leaves.len(), 2);
    assert_eq!(strip_ansi(&shown.root.display()), "2 links ");
    assert_eq!(strip_ansi(&shown.leaves[0].root.display()), "note -> [docs]");
    let links = vec![link_to(Destination::Dir { dir: "/d".to_string() })];
    let hidden = link_section(2, 1, links, scheme()).unwrap();
    assert!(matches!(hidden.root, NoteLinkTerm::LinkHint(true, 1, _)));
    assert!(hidden.leaves.is_empty());
    assert_eq!(strip_ansi(&hidden.root.display()), "1 links unlisted ");
    assert!(link_section(0, 1, vec![], scheme()).is_none());
    assert_eq!(strip_ansi(&NoteLinkTerm::Cycle("n".to_string(), scheme()).display()), "⟳ n");
}

#[test]
fn link_trees_are_drawn_down_or_up() {
    let links = vec![link_to(Destination::Dir { dir: "/d".to_string() }), link_to(Destination::Url("u".to_string()))];
    let section = link_section(0, 1, links, scheme()).unwrap();
    let tree = LinkTree { root: NoteLinkTerm::Cycle("top".to_string(), scheme()), leaves: vec![section] };
    let mut down = bidir_termtree::Tree::<String, bidir_termtree::Down>::new(tree.root.display());
    let mut hint = bidir_termtree::Tree::<String, bidir_termtree::Down>::new(tree.leaves[0].root.display());
    for l in &tree.leaves[0].leaves {
        hint.push(bidir_termtree::Tree::new(l.root.display()));
    }
    down.push(hint);
    assert_eq!(link_tree_text(&tree, true), down.to_string());
    let mut up = bidir_termtree::Tree::<String, bidir_termtree::Up>::new(tree.root.display());
    let mut hint = bidir_termtree::Tree::<String, bidir_termtree::Up>::new(tree.leaves[0].root.display());
    for l in &tree.leaves[0].leaves {
        hint.push(bidir_termtree::Tree::new(l.root.display()));
    }
    up.push(hint);
    assert_eq!(link_tree_text(&tree, false), up.to_string());
    assert_eq!(strip_ansi(&link_tree_text(&tree, true)).lines().count(), 4);
}

#[test]
fn every_kind_of_link_reads_as_its_text() {
    let kinds = vec![
        Destination::Url("https://x.org".to_string()),
        Destination::File { file: "a.md".to_string() },
        Destination::Dir { dir: "d".to_string() },
        Destination::Broken("b".to_string(), Some(3)),
        Destination::CodeBlock { code_block: "x".to_string(), syntax_label: "rust".to_string() },
        Destination::FileLine { file: "a.md".to_string(), line_number: 4 },
    ];
    for d in kinds {
        let l = link_to(d);
        assert_eq!(strip_ansi(&l.skim_display()), l.text());
    }
}

#[test]
fn relative_link_paths_start_at_the_note() {
    assert_eq!(mds::link::resolve_link_path("notes/a.md", "b/c.md"), "notes/b/c.md");
    assert_eq!(mds::link::resolve_link_path("a.md", "c.md"), "c.md");
    assert_eq!(mds::link::resolve_link_path("notes/a.md", "/etc/x"), "/etc/x");
}
