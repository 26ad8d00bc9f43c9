use mds::config::cmd_template::CmdTemplate;
use mds::external_commands::{dir_preview_cmd, file_preview_cmd, file_range_preview_cmd};

fn cmd(command: &str, args: &[&str]) -> CmdTemplate {
    CmdTemplate { command: command.to_string(), args: args.iter().map(|a| a.to_string()).collect() }
}

#[test]
fn file_preview_fills_the_file() {
    let c = file_preview_cmd(&cmd("bat", &["--color=always", "$FILE"]), "notes/a.md");
    assert_eq!(c.command, "bat");
    assert_eq!(c.args, vec!["--color=always", "notes/a.md"]);
}

#[test]
fn dir_preview_fills_the_directory() {
    let c = dir_preview_cmd(&cmd("exa", &["-l", "$DIR"]), "/home");
    assert_eq!(c.args, vec!["-l", "/home"]);
}

#[test]
fn range_preview_shows_twenty_lines_before_and_five_after() {
    let c = file_range_preview_cmd(
        &cmd("bat", &["--line-range", "$FIRST:$LAST", "--highlight-line", "$LINE", "$FILE"]),
        "a.rs",
        100,
    );
    assert_eq!(c.args, vec!["--line-range", "80:105", "--highlight-line", "100", "a.rs"]);
}

#[test]
fn range_preview_starts_at_line_one_near_the_top() {
    let c = file_range_preview_cmd(&cmd("bat", &["$FIRST:$LAST"]), "a.rs", 7);
    assert_eq!(c.args, vec!["1:12"]);
    let c = file_range_preview_cmd(&cmd("bat", &["$FIRST:$LAST"]), "a.rs", 21);
    assert_eq!(c.args, vec!["1:26"]);
    let c = file_range_preview_cmd(&cmd("bat", &["$FIRST:$LAST"]), "a.rs", 22);
    assert_eq!(c.args, vec!["2:27"]);
}
