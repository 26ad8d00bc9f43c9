use vstd::prelude::*;
use crate::config::cmd_template::{CmdTemplate, is_first_match, replaced_within, string_views};
use crate::text::{u64_to_string, decimal};

verus! {

broadcast use vstd::string::group_string_axioms;

/// True when `r` is `t` with `value` in place of its first argument that is exactly
/// `placeholder`.
pub open spec fn replaced_first(r: CmdTemplate, t: CmdTemplate, placeholder: Seq<char>, value: Seq<char>) -> bool {
    &&& r.command@ == t.command@
    &&& r.args@.len() == t.args@.len()
    &&& forall|i: int|
        0 <= i < t.args@.len() ==> #[trigger] r.args@[i]@ == if is_first_match(arg_views(t), placeholder, i) {
            value
        } else {
            t.args@[i]@
        }
}

/// The arguments of a command after each placeholder in turn has been replaced inside them.
pub open spec fn replaced_in_all(args: Seq<Seq<char>>, subs: Seq<(Seq<char>, Seq<char>)>) -> Seq<Seq<char>>
    decreases subs.len(),
{
    if subs.len() == 0 {
        args
    } else {
        replaced_in_all(
            args.map_values(|a: Seq<char>| replaced_within(a, subs[0].0, subs[0].1)),
            subs.drop_first(),
        )
    }
}

/// The views of the arguments of a command.
pub open spec fn arg_views(t: CmdTemplate) -> Seq<Seq<char>> {
    string_views(t.args@)
}

/// The first line shown when previewing line `line` of a file: twenty lines before it, but no
/// earlier than the first line (lines are counted with wrapping arithmetic, as a release build
/// does).
pub open spec fn preview_first_line(line: u64) -> u64 {
    if line < 20 {
        1
    } else if line - 20 < 1 {
        1
    } else {
        (line - 20) as u64
    }
}

/// The last line shown when previewing line `line` of a file: five lines after it.
pub open spec fn preview_last_line(line: u64) -> u64 {
    ((line + 5) % 0x1_0000_0000_0000_0000) as u64
}

/// The command that previews a file: `file_cmd` with the file's path in place of `$FILE`.
pub fn file_preview_cmd(file_cmd: &CmdTemplate, file_path: &str) -> (r: CmdTemplate)
    ensures
        replaced_first(r, *file_cmd, "$FILE"@, file_path@),
{
    let mut cmd = file_cmd.duplicate();
    cmd.replace_matching_element("$FILE", file_path);
    proof {
        reveal_strlit("$FILE");
    }
    cmd
}

/// The command that previews a directory: `dir_cmd` with the directory's path in place of
/// `$DIR`.
pub fn dir_preview_cmd(dir_cmd: &CmdTemplate, dir: &str) -> (r: CmdTemplate)
    ensures
        replaced_first(r, *dir_cmd, "$DIR"@, dir@),
{
    let mut cmd = dir_cmd.duplicate();
    cmd.replace_matching_element("$DIR", dir);
    cmd
}

/// The command that previews the lines around line `line` of a file: inside the arguments of
/// `file_line_cmd`, `$FILE` becomes the path, `$FIRST` the first line shown, `$LAST` the last
/// one and `$LINE` the line itself.
pub fn file_range_preview_cmd(file_line_cmd: &CmdTemplate, file_path: &str, line: u64) -> (r: CmdTemplate)
    ensures
        r.command@ == file_line_cmd.command@,
        arg_views(r) == replaced_in_all(
            arg_views(*file_line_cmd),
            seq![
                ("$FILE"@, file_path@),
                ("$FIRST"@, decimal(preview_first_line(line) as nat)),
                ("$LAST"@, decimal(preview_last_line(line) as nat)),
                ("$LINE"@, decimal(line as nat)),
            ],
        ),
{
    let first = if line.wrapping_sub(20) > line {
        1
    } else if line - 20 < 1 {
        1
    } else {
        line - 20
    };
    let last = line.wrapping_add(5);
    let mut cmd = file_line_cmd.duplicate();
    let ghost a0 = arg_views(cmd);
    cmd.replace_in_matching_element("$FILE", file_path);
    let ghost a1 = arg_views(cmd);
    let first_text = u64_to_string(first);
    cmd.replace_in_matching_element("$FIRST", first_text.as_str());
    let ghost a2 = arg_views(cmd);
    let last_text = u64_to_string(last);
    cmd.replace_in_matching_element("$LAST", last_text.as_str());
    let ghost a3 = arg_views(cmd);
    let line_text = u64_to_string(line);
    cmd.replace_in_matching_element("$LINE", line_text.as_str());
    proof {
        let subs = seq![
            ("$FILE"@, file_path@),
            ("$FIRST"@, decimal(preview_first_line(line) as nat)),
            ("$LAST"@, decimal(preview_last_line(line) as nat)),
            ("$LINE"@, decimal(line as nat)),
        ];
        assert(a0 =~= arg_views(*file_line_cmd));
        assert(a1 =~= a0.map_values(|a: Seq<char>| replaced_within(a, subs[0].0, subs[0].1)));
        assert(a2 =~= a1.map_values(|a: Seq<char>| replaced_within(a, subs[1].0, subs[1].1)));
        assert(a3 =~= a2.map_values(|a: Seq<char>| replaced_within(a, subs[2].0, subs[2].1)));
        assert(arg_views(cmd) =~= a3.map_values(|a: Seq<char>| replaced_within(a, subs[3].0, subs[3].1)));
        assert(subs.drop_first().drop_first().drop_first().drop_first() =~= Seq::<(Seq<char>, Seq<char>)>::empty());
        reveal_with_fuel(replaced_in_all, 5);
        assert(subs.drop_first()[0] == subs[1]);
        assert(subs.drop_first().drop_first()[0] == subs[2]);
        assert(subs.drop_first().drop_first().drop_first()[0] == subs[3]);
    }
    cmd
}

} // verus!
