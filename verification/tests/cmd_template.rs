use mds::config::cmd_template::{CmdTemplate, CmdTemplateError};

fn cmd(command: &str, args: &[&str]) -> CmdTemplate {
    CmdTemplate { command: command.to_string(), args: args.iter().map(|a| a.to_string()).collect() }
}

#[test]
fn replace_matching_element_replaces_only_the_first_exact_match() {
    let mut c = cmd("bat", &["--color=always", "$FILE", "$FILE", "x$FILE"]);
    c.replace_matching_element("$FILE", "notes.md");
    assert_eq!(c.command, "bat");
    assert_eq!(c.args, vec!["--color=always", "notes.md", "$FILE", "x$FILE"]);
}

#[test]
fn replace_matching_element_without_match_changes_nothing() {
    let mut c = cmd("ls", &["-la", "x$DIR"]);
    c.replace_matching_element("$DIR", "/tmp");
    assert_eq!(c.args, vec!["-la", "x$DIR"]);
}

#[test]
fn replace_in_matching_element_replaces_inside_every_argument() {
    let mut c = cmd("helix", &["$FILE:$LINE:$COLUMN", "--", "$LINE$LINE", "plain"]);
    c.replace_in_matching_element("$FILE", "a.md");
    c.replace_in_matching_element("$LINE", "12");
    c.replace_in_matching_element("$COLUMN", "3");
    assert_eq!(c.command, "helix");
    assert_eq!(c.args, vec!["a.md:12:3", "--", "1212", "plain"]);
}

#[test]
fn replacing_with_the_placeholder_itself_is_stable() {
    let mut c = cmd("x", &["$A-$A"]);
    c.replace_in_matching_element("$A", "$A$A");
    assert_eq!(c.args, vec!["$A$A-$A$A"]);
}

#[test]
fn values_make_a_command() {
    let c = CmdTemplate::try_from_values(vec![Some("bat".to_string()), Some("$FILE".to_string())]).unwrap();
    assert_eq!(c.command, "bat");
    assert_eq!(c.args, vec!["$FILE"]);
}

#[test]
fn no_values_is_no_command() {
    let r = CmdTemplate::try_from_values(vec![]);
    assert!(matches!(r, Err(CmdTemplateError::NoCommand)));
    assert_eq!(CmdTemplateError::NoCommand.message(), "no command specified");
}

#[test]
fn a_value_that_is_no_string_is_named_by_its_index() {
    let r = CmdTemplate::try_from_values(vec![Some("a".to_string()), Some("b".to_string()), None, None]);
    assert!(matches!(r, Err(CmdTemplateError::NotAString(2))));
    let r = CmdTemplate::try_from_values(vec![None]);
    assert!(matches!(r, Err(CmdTemplateError::NotAString(0))));
    assert_eq!(CmdTemplateError::NotAString(1).message(), "cannot be converted to str");
}
