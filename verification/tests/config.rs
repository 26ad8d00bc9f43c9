use mds::config::keymap::single_key::KeyCombo;
use mds::config::node::{ConfigDocument, ConfigError, NodeError};
use mds::config::read::{config_from_document, parse_config};
use mds::config::node::parse_document;

const CONFIG: &str = r####"
world {
    notes-work-dir "/home/me/notes"
    surf-parsing {
        markdown-reference-link-regex r#"\[(?P<description>[^\]]*)\]\((?P<url>[^)]+)\)"#
        url-regex "^https?://\\S+$"
        file-dest-has-line-regex ":\\d+$"
        task-item-regex r#"(?P<whitespace>(  )*)- \[(?P<checkmark>[x ])\]\s+(?P<task_text>.+)"#
    }
    external-commands {
        preview {
            dir "exa" "-l" "$DIR"
            file "bat" "$FILE"
            file-line "bat" "-r" "$FIRST:$LAST" "-H" "$LINE" "$FILE"
        }
        open {
            file "hx" "$FILE"
            file-jump "hx" "$FILE:$LINE:$COLUMN"
            dir "broot" "$DIR"
            url "firefox" "$URL"
            pipe-$SNIPPET_TEXT-into "wl-copy"
        }
    }
    color {
        theme "/themes/dark.tmTheme"
        elements {
            links {
                parent_name r#"{"r":1,"g":2,"b":3}"#
                url r#"{"r":4,"g":5,"b":6}"#
                file r#"{"r":7,"g":8,"b":9}"#
                dir r#"{"r":10,"g":11,"b":12}"#
                broken r#"{"r":13,"g":14,"b":15}"#
                code_block r#"{"r":16,"g":17,"b":18}"#
                unlisted r#"{"r":19,"g":20,"b":21}"#
                cycle r#"{"r":22,"g":23,"b":24}"#
            }
            notes {
                tag r#"{"r":25,"g":26,"b":27}"#
                special_tag r#"{"r":28,"g":29,"b":30}"#
            }
        }
    }
    keymap {
        surf {
            open_xdg "ctrl-o"
            jump_to_link_or_snippet "alt-o"
            return_to_explore "ctrl-e"
        }
        checkmark {
            jump_to_task "ctrl-j"
            copy_task_subtree_into_clipboard "ctrl-y"
            widen_context_to_all_tasks "ctrl-w"
            narrow_context_to_selected_task_subtree "ctrl-l"
            return_to_explore "ctrl-e"
        }
        stack {
            toggle_preview_type "ctrl-t"
            pop_note_from_stack "ctrl-p"
            move_note_to_top_of_stack "ctrl-m"
            return_to_explore "ctrl-e"
            swap_with_above "alt-k"
            swap_with_below "alt-j"
            deselect_all "ctrl-d"
        }
        explore {
            open_xdg "ctrl-o"
            populate_search_with_backlinks "ctrl-b"
            populate_search_with_forwardlinks "ctrl-f"
            toggle_preview_type "ctrl-t"
            widen_to_all_notes "ctrl-w"
            surf_note_subtree "ctrl-s"
            checkmark_note "ctrl-k"
            rename_note "ctrl-r"
            link_from_selected_note "ctrl-l"
            unlink_from_selected_note "ctrl-u"
            remove_note "ctrl-x"
            create_autolinked_note "ctrl-n"
            toggle_links_direction "ctrl-h"
            splice_reachable_children_of_note "ctrl-a"
            narrow_selection "ctrl-q"
            decrease_unlisted_threshold "alt-a"
            increase_unlisted_threshold "alt-s"
            push_note_to_stack "ctrl-p"
            switch_mode_to_stack "alt-p"
        }
    }
}
"####;

fn node_error(text: &str) -> NodeError {
    match parse_config(text) {
        Err(ConfigError::Node(e)) => e,
        Err(ConfigError::Syntax(e)) => panic!("syntax error: {e}"),
        Ok(_) => panic!("expected an error"),
    }
}

#[test]
fn a_complete_configuration_is_read() {
    let c = parse_config(CONFIG).ok().unwrap();
    assert_eq!(c.work_dir.0, "/home/me/notes");
    assert_eq!(c.surf_parsing.url_regex.as_str(), "^https?://\\S+$");
    assert_eq!(c.surf_parsing.has_line_regex.as_str(), ":\\d+$");
    assert_eq!(c.external_commands.preview.file_line_cmd.command, "bat");
    assert_eq!(c.external_commands.preview.file_line_cmd.args, vec!["-r", "$FIRST:$LAST", "-H", "$LINE", "$FILE"]);
    assert_eq!(c.external_commands.open.url_cmd.args, vec!["$URL"]);
    assert_eq!(c.external_commands.open.dir_cmd.command, "broot");
    assert!(c.external_commands.open.pipe_text_snippet_cmd.args.is_empty());
    assert_eq!(c.color.theme.0, "/themes/dark.tmTheme");
    let u = c.color.elements.links.url.0;
    assert_eq!((u.r, u.g, u.b), (4, 5, 6));
    let s = c.color.elements.notes.special_tag.0;
    assert_eq!((s.r, s.g, s.b), (28, 29, 30));
    assert_eq!(c.keymap.surf.jump_to_link_or_snippet.tui_combo, KeyCombo::Alt('o'));
    assert_eq!(c.keymap.explore.switch_mode_to_stack.combo, "alt-p");
    assert_eq!(c.keymap.stack.swap_with_below.tui_combo, KeyCombo::Alt('j'));
}

#[test]
fn a_document_without_world_is_refused() {
    let e = node_error("other { }\n");
    assert_eq!(e.description, "couldn't find top-level `world` node in kdl document");
}

#[test]
fn text_that_is_no_kdl_is_a_syntax_error() {
    assert!(matches!(parse_config("world {"), Err(ConfigError::Syntax(_))));
}

#[test]
fn a_missing_section_is_named() {
    let text = CONFIG.replace("notes-work-dir", "notes-dir");
    assert_eq!(node_error(&text).description, "no `world.notes-work-dir` in config");
}

#[test]
fn a_missing_key_is_named_before_a_wrong_one() {
    let text = CONFIG.replace("open_xdg \"ctrl-o\"\n            jump", "open_xdg \"ctrl-c\"\n            jump").replace(
        "return_to_explore \"ctrl-e\"\n        }\n        checkmark",
        "back \"ctrl-e\"\n        }\n        checkmark",
    );
    assert_eq!(node_error(&text).description, "no `world.keymap.surf.return_to_explore` in config");
}

#[test]
fn forbidden_keys_are_refused() {
    let text = CONFIG.replace("open_xdg \"ctrl-o\"\n            jump", "open_xdg \"ctrl-c\"\n            jump");
    assert_eq!(node_error(&text).description, "`ctrl-c` binding is forbidden");
}

#[test]
fn repeated_keys_are_refused() {
    let text = CONFIG.replace("jump_to_link_or_snippet \"alt-o\"", "jump_to_link_or_snippet \"ctrl-o\"");
    assert_eq!(node_error(&text).description, "has keys combo repetitions");
}

#[test]
fn a_section_without_children_is_named() {
    let text = CONFIG.replace("notes {\n                tag", "notes\n            nothing {\n                tag");
    assert_eq!(node_error(&text).description, "`world.color.elements.notes` should have children");
}

#[test]
fn colors_must_be_json() {
    let text = CONFIG.replace(r##"url r#"{"r":4,"g":5,"b":6}"#"##, "url \"blue\"");
    let d = node_error(&text).description;
    assert!(d.starts_with("RGB8 deserialization from json problem "), "{d}");
}

#[test]
fn values_must_be_strings() {
    let text = CONFIG.replace("notes-work-dir \"/home/me/notes\"", "notes-work-dir 5");
    assert_eq!(node_error(&text).description, "argument's value is expected to be of string type");
    let text = CONFIG.replace("notes-work-dir \"/home/me/notes\"", "notes-work-dir");
    assert_eq!(node_error(&text).description, "node's first argument not found");
    let text = CONFIG.replace("file \"bat\" \"$FILE\"", "file \"bat\" 3");
    assert_eq!(node_error(&text).description, "all of arguments' values are expected to be of string type");
    let text = CONFIG.replace("file \"bat\" \"$FILE\"", "file");
    assert_eq!(node_error(&text).description, "node expected to have at least 1 argument");
}

#[test]
fn regular_expressions_must_compile() {
    let text = CONFIG.replace("file-dest-has-line-regex \":\\\\d+$\"", "file-dest-has-line-regex \"(\"");
    let d = node_error(&text).description;
    assert!(d.contains("regex parse error"), "{d}");
}

#[test]
fn the_first_world_node_counts() {
    let text = format!("{}\nworld {{ }}\n", CONFIG);
    assert!(parse_config(&text).is_ok());
    let text = format!("world {{ }}\n{}", CONFIG);
    assert_eq!(node_error(&text).description, "no `world.surf-parsing` in config");
    let text = format!("world\n{}", CONFIG);
    assert_eq!(node_error(&text).description, "`world` should have children");
}

#[test]
fn errors_point_at_the_node() {
    let doc: ConfigDocument = parse_document("world {\n  color \"x\"\n}\n").ok().unwrap();
    let e = config_from_document(&doc).err().unwrap();
    assert_eq!(e.description, "no `world.surf-parsing` in config");
    assert_eq!(e.span.offset, 0);
}
