use vstd::prelude::*;
use crate::config::cmd_template::{string_views, CmdTemplate};
use crate::config::color::{Color, ColorScheme, ConfigRGB, Links, Notes, Rgb8};
use crate::config::external_commands::{ExternalCommands, Open, Preview};
use crate::config::surf_parsing::SurfParsing;
use crate::config::keymap::single_key::{combo_shape, key_combo_pattern, single_key_result, KeyCombo, SingleKey};
use crate::config::node::{
    child, child_of, document_matches, err_view, kdl_accepts, kdl_parsed, string_arg, string_arg_of, ConfigEntry, ConfigNode,
    ConfigValue, ErrView, NodeError,
};
use crate::config::surf_parsing::{regex_compile_error, regex_is_match, ConfigRegex};
use crate::config::keymap::Keymap;
use crate::config::{Config, ConfigPath};
use crate::config::node::{parse_document, ConfigDocument, ConfigError};
use crate::text::concat2;

verus! {

broadcast use vstd::string::group_string_axioms;

/// `serde_json`'s reading of an `rgb::RGB8` color from JSON text: its red, green and blue
/// components, or the message of the error.
pub uninterp spec fn rgb_json(text: Seq<char>) -> Result<(u8, u8, u8), Seq<char>>;

/// `serde_json::from_str` into `rgb::RGB8`: the components, or the error's message (its
/// `Display`).
#[verifier::external_body]
fn rgb_from_json(text: &str) -> (r: Result<(u8, u8, u8), String>)
    ensures
        match r {
            Ok(c) => rgb_json(text@) == Ok::<(u8, u8, u8), Seq<char>>(c),
            Err(m) => rgb_json(text@) == Err::<(u8, u8, u8), Seq<char>>(m@),
        },
{
    serde_json::from_str::<rgb::RGB8>(text).map(|c| (c.r, c.g, c.b)).map_err(|e| e.to_string())
}

/// A color node: its first argument, a JSON object of the red, green and blue components.
pub open spec fn rgb_result(n: ConfigNode) -> Result<ConfigRGB, ErrView> {
    match string_arg(n) {
        Err(e) => Err(e),
        Ok(s) => match rgb_json(s) {
            Ok(c) => Ok(ConfigRGB(Rgb8 { r: c.0, g: c.1, b: c.2 })),
            Err(m) => Err((n.span, "RGB8 deserialization from json problem "@ + m)),
        },
    }
}

/// The view of a result with a node error.
pub open spec fn plain_view<T>(r: Result<T, NodeError>) -> Result<T, ErrView> {
    match r {
        Ok(v) => Ok(v),
        Err(e) => Err(err_view(e)),
    }
}

/// Reads a color node (see [`rgb_result`]).
pub fn rgb_from_node(n: &ConfigNode) -> (r: Result<ConfigRGB, NodeError>)
    ensures
        plain_view(r) == rgb_result(*n),
{
    let s = match string_arg_of(n) {
        Ok(s) => s,
        Err(e) => {
            return Err(e);
        },
    };
    match rgb_from_json(s.as_str()) {
        Ok(c) => Ok(ConfigRGB(Rgb8 { r: c.0, g: c.1, b: c.2 })),
        Err(m) => {
            let d = concat2("RGB8 deserialization from json problem ", m.as_str());
            Err(NodeError { span: n.span, description: d })
        },
    }
}

/// A path node: its first argument.
pub open spec fn path_result(n: ConfigNode) -> Result<Seq<char>, ErrView> {
    string_arg(n)
}

/// The view of a result holding a path.
pub open spec fn path_view(r: Result<ConfigPath, NodeError>) -> Result<Seq<char>, ErrView> {
    match r {
        Ok(p) => Ok(p.0@),
        Err(e) => Err(err_view(e)),
    }
}

/// Reads a path node (see [`path_result`]).
pub fn path_from_node(n: &ConfigNode) -> (r: Result<ConfigPath, NodeError>)
    ensures
        path_view(r) == path_result(*n),
{
    match string_arg_of(n) {
        Ok(s) => Ok(ConfigPath(s)),
        Err(e) => Err(e),
    }
}

/// A regular expression node: its first argument, which must compile; else the compiler's
/// message.
pub open spec fn regex_result(n: ConfigNode) -> Result<Seq<char>, ErrView> {
    match string_arg(n) {
        Err(e) => Err(e),
        Ok(s) => match regex_compile_error(s) {
            Some(m) => Err((n.span, m)),
            None => Ok(s),
        },
    }
}

/// The view of a result holding a regular expression.
pub open spec fn regex_view(r: Result<ConfigRegex, NodeError>) -> Result<Seq<char>, ErrView> {
    match r {
        Ok(re) => Ok(re.pattern_view()),
        Err(e) => Err(err_view(e)),
    }
}

/// Reads a regular expression node (see [`regex_result`]).
pub fn regex_from_node(n: &ConfigNode) -> (r: Result<ConfigRegex, NodeError>)
    ensures
        regex_view(r) == regex_result(*n),
        r matches Ok(re) ==> re.wf(),
{
    let s = match string_arg_of(n) {
        Ok(s) => s,
        Err(e) => {
            return Err(e);
        },
    };
    match ConfigRegex::new(s.as_str()) {
        Ok(re) => Ok(re),
        Err(m) => Err(NodeError { span: n.span, description: m }),
    }
}

/// The index of the first entry of `es` whose value is not a string, or -1 when all are.
pub open spec fn first_non_string(es: Seq<ConfigEntry>) -> int
    decreases es.len(),
{
    if es.len() == 0 {
        -1
    } else if es[0].value is Other {
        0
    } else {
        let k = first_non_string(es.drop_first());
        if k < 0 {
            -1
        } else {
            k + 1
        }
    }
}

proof fn lemma_first_non_string(es: Seq<ConfigEntry>)
    ensures
        -1 <= first_non_string(es) < es.len(),
        first_non_string(es) >= 0 ==> es[first_non_string(es)].value is Other,
        forall|j: int|
            0 <= j < es.len() && (first_non_string(es) < 0 || j < first_non_string(es)) ==> es[j].value is Str,
    decreases es.len(),
{
    if es.len() > 0 && es[0].value is Str {
        lemma_first_non_string(es.drop_first());
        assert forall|j: int| 0 < j < es.len() implies es[j] == es.drop_first()[j - 1] by {}
    }
}

/// The text of a string entry.
pub open spec fn entry_text(e: ConfigEntry) -> Seq<char> {
    match e.value {
        ConfigValue::Str(s) => s@,
        ConfigValue::Other => Seq::empty(),
    }
}

/// The view of a command: its program and its arguments.
pub type CmdView = (Seq<char>, Seq<Seq<char>>);

/// The view of a command.
pub open spec fn cmd_view(c: CmdTemplate) -> CmdView {
    (c.command@, string_views(c.args@))
}

/// A command node: all its entries, which must be strings: the first is the program, the
/// rest its arguments. A node without entries fails at the node; a value that is no string
/// fails at that entry.
pub open spec fn cmd_result(n: ConfigNode) -> Result<CmdView, ErrView> {
    let es = n.entries@;
    if es.len() == 0 {
        Err((n.span, "node expected to have at least 1 argument"@))
    } else if first_non_string(es) >= 0 {
        Err((es[first_non_string(es)].span, "all of arguments' values are expected to be of string type"@))
    } else {
        Ok((entry_text(es[0]), es.skip(1).map_values(|e: ConfigEntry| entry_text(e))))
    }
}

/// The view of a result holding a command.
pub open spec fn cmd_res_view(r: Result<CmdTemplate, NodeError>) -> Result<CmdView, ErrView> {
    match r {
        Ok(c) => Ok(cmd_view(c)),
        Err(e) => Err(err_view(e)),
    }
}

/// Reads a command node (see [`cmd_result`]).
pub fn cmd_from_node(n: &ConfigNode) -> (r: Result<CmdTemplate, NodeError>)
    ensures
        cmd_res_view(r) == cmd_result(*n),
{
    let es = &n.entries;
    if es.len() == 0 {
        return Err(
            NodeError { span: n.span, description: String::from_str("node expected to have at least 1 argument") },
        );
    }
    proof {
        lemma_first_non_string(es@);
    }
    let mut command = String::new();
    let mut args: Vec<String> = Vec::new();
    let mut i: usize = 0;
    while i < es.len()
        invariant
            es@ == n.entries@,
            es@.len() > 0,
            i <= es@.len(),
            -1 <= first_non_string(es@) < es@.len(),
            first_non_string(es@) >= 0 ==> es@[first_non_string(es@)].value is Other,
            forall|j: int|
                0 <= j < es@.len() && (first_non_string(es@) < 0 || j < first_non_string(es@)) ==> es@[j].value is Str,
            first_non_string(es@) < 0 || i <= first_non_string(es@),
            i > 0 ==> command@ == entry_text(es@[0]),
            args@.len() == if i == 0 { 0 } else { i - 1 },
            forall|j: int| 0 <= j < args@.len() ==> args@[j]@ == entry_text(es@[j + 1]),
        decreases es@.len() - i,
    {
        match &es[i].value {
            ConfigValue::Str(s) => {
                if i == 0 {
                    command = s.clone();
                } else {
                    args.push(s.clone());
                }
            },
            ConfigValue::Other => {
                assert(first_non_string(es@) == i);
                return Err(
                    NodeError {
                        span: es[i].span,
                        description: String::from_str("all of arguments' values are expected to be of string type"),
                    },
                );
            },
        }
        i = i + 1;
    }
    let c = CmdTemplate { command, args };
    assert(string_views(c.args@) =~= es@.skip(1).map_values(|e: ConfigEntry| entry_text(e)));
    Ok(c)
}

/// The view of a key: how the configuration writes it and the key combination it names.
pub type KeyView = (Seq<char>, KeyCombo);

/// True when the key combination pattern matches `s` and `s` has the shape of a key
/// combination.
pub open spec fn combo_matches(s: Seq<char>) -> bool {
    regex_is_match(key_combo_pattern(), s) == Some(true) && combo_shape(s)
}

/// A key node: its first argument, a key combination such as `ctrl-t` or `alt-t`.
pub open spec fn key_result(n: ConfigNode) -> Result<KeyView, ErrView> {
    match string_arg(n) {
        Err(e) => Err(e),
        Ok(s) => match single_key_result(s, combo_matches(s)) {
            Ok(k) => Ok(k),
            Err(m) => Err((n.span, m)),
        },
    }
}

/// The view of a key.
pub open spec fn key_view(k: SingleKey) -> KeyView {
    (k.combo@, k.tui_combo)
}

/// The view of a result holding a key.
pub open spec fn key_res_view(r: Result<SingleKey, NodeError>) -> Result<KeyView, ErrView> {
    match r {
        Ok(k) => Ok(key_view(k)),
        Err(e) => Err(err_view(e)),
    }
}

/// Reads a key node (see [`key_result`]).
pub fn key_from_node(n: &ConfigNode) -> (r: Result<SingleKey, NodeError>)
    ensures
        key_res_view(r) == key_result(*n),
{
    let s = match string_arg_of(n) {
        Ok(s) => s,
        Err(e) => {
            return Err(e);
        },
    };
    match SingleKey::try_from_combo(s) {
        Ok(k) => Ok(k),
        Err(m) => Err(NodeError { span: n.span, description: m }),
    }
}

/// The views of a list of tags.
pub open spec fn tag_views(v: Seq<&str>) -> Seq<Seq<char>> {
    v.map_values(|t: &str| t@)
}

/// The first error met in looking up `tags` under `n` in order, if any; `parent` is the name
/// by which `n` is known in messages.
pub open spec fn missing_tag(n: ConfigNode, parent: Seq<char>, tags: Seq<Seq<char>>) -> Option<ErrView>
    decreases tags.len(),
{
    if tags.len() == 0 {
        None
    } else {
        match child_of(n, parent, tags[0]) {
            Err(e) => Some(e),
            Ok(_) => missing_tag(n, parent, tags.drop_first()),
        }
    }
}

/// The child of `n` named `tag`.
pub open spec fn tagged(n: ConfigNode, parent: Seq<char>, tag: Seq<char>) -> ConfigNode {
    child_of(n, parent, tag)->Ok_0
}

proof fn lemma_present(n: ConfigNode, parent: Seq<char>, tags: Seq<Seq<char>>, i: int)
    requires
        missing_tag(n, parent, tags) is None,
        0 <= i < tags.len(),
    ensures
        child_of(n, parent, tags[i]) is Ok,
    decreases tags.len(),
{
    if i > 0 {
        lemma_present(n, parent, tags.drop_first(), i - 1);
    }
}

/// Looks up `tags` under `n` in order and gives the first error met, if any.
pub fn check_tags(n: &ConfigNode, parent: &str, tags: &Vec<&str>) -> (r: Option<NodeError>)
    ensures
        match r {
            Some(e) => missing_tag(*n, parent@, tag_views(tags@)) == Some(err_view(e)),
            None => missing_tag(*n, parent@, tag_views(tags@)) is None,
        },
{
    let ghost all = tag_views(tags@);
    let mut i: usize = 0;
    assert(all.skip(0) =~= all);
    while i < tags.len()
        invariant
            all == tag_views(tags@),
            i <= tags@.len(),
            missing_tag(*n, parent@, all) == missing_tag(*n, parent@, all.skip(i as int)),
        decreases tags@.len() - i,
    {
        assert(all.skip(i as int)[0] == tags@[i as int]@);
        assert(all.skip(i as int).drop_first() =~= all.skip(i + 1));
        match child(n, parent, tags[i]) {
            Err(e) => {
                return Some(e);
            },
            Ok(_) => {},
        }
        i = i + 1;
    }
    assert(all.skip(i as int) =~= Seq::<Seq<char>>::empty());
    None
}

/// Prepends `done` to the values of `r`, keeping its error.
pub open spec fn prepend<V>(done: Seq<V>, r: Result<Seq<V>, ErrView>) -> Result<Seq<V>, ErrView> {
    match r {
        Ok(vs) => Ok(done + vs),
        Err(e) => Err(e),
    }
}

/// The keys of the children of `n` named `tags`, in order; the first that fails fails.
pub open spec fn keys_of(n: ConfigNode, parent: Seq<char>, tags: Seq<Seq<char>>) -> Result<Seq<KeyView>, ErrView>
    decreases tags.len(),
{
    if tags.len() == 0 {
        Ok(Seq::empty())
    } else {
        match key_result(tagged(n, parent, tags[0])) {
            Err(e) => Err(e),
            Ok(k) => prepend(seq![k], keys_of(n, parent, tags.drop_first())),
        }
    }
}

/// Reads the keys of the children of `n` named `tags` (see [`keys_of`]).
pub fn keys_from(n: &ConfigNode, parent: &str, tags: &Vec<&str>) -> (r: Result<Vec<SingleKey>, NodeError>)
    requires
        missing_tag(*n, parent@, tag_views(tags@)) is None,
    ensures
        r matches Ok(ks) ==> ks@.len() == tags@.len(),
        match r {
            Ok(ks) => keys_of(*n, parent@, tag_views(tags@)) == Ok::<Seq<KeyView>, ErrView>(
                ks@.map_values(|k: SingleKey| key_view(k)),
            ),
            Err(e) => keys_of(*n, parent@, tag_views(tags@)) == Err::<Seq<KeyView>, ErrView>(err_view(e)),
        },
{
    let ghost all = tag_views(tags@);
    let mut out: Vec<SingleKey> = Vec::new();
    let mut i: usize = 0;
    assert(all.skip(0) =~= all);
    assert(out@.map_values(|k: SingleKey| key_view(k)) =~= Seq::<KeyView>::empty());
    while i < tags.len()
        invariant
            all == tag_views(tags@),
            i <= tags@.len(),
            out@.len() == i,
            missing_tag(*n, parent@, all) is None,
            keys_of(*n, parent@, all) == prepend(
                out@.map_values(|k: SingleKey| key_view(k)),
                keys_of(*n, parent@, all.skip(i as int)),
            ),
        decreases tags@.len() - i,
    {
        assert(all.skip(i as int)[0] == all[i as int]);
        assert(all.skip(i as int).drop_first() =~= all.skip(i + 1));
        proof {
            lemma_present(*n, parent@, all, i as int);
        }
        let c = match child(n, parent, tags[i]) {
            Ok(c) => c,
            Err(e) => {
                return Err(e);
            },
        };
        match key_from_node(c) {
            Err(e) => {
                return Err(e);
            },
            Ok(k) => {
                let ghost before = out@.map_values(|k: SingleKey| key_view(k));
                out.push(k);
                assert(out@.map_values(|k: SingleKey| key_view(k)) =~= before + seq![key_view(k)]);
                assert(before + (seq![key_view(k)] + Seq::<KeyView>::empty()) =~= before + seq![key_view(k)]);
                proof {
                    match keys_of(*n, parent@, all.skip(i + 1)) {
                        Ok(rest) => {
                            assert(before + (seq![key_view(k)] + rest) =~= (before + seq![key_view(k)]) + rest);
                        },
                        Err(_) => {},
                    }
                }
            },
        }
        i = i + 1;
    }
    assert(all.skip(i as int) =~= Seq::<Seq<char>>::empty());
    assert(out@.map_values(|k: SingleKey| key_view(k)) + Seq::<KeyView>::empty() =~= out@.map_values(
        |k: SingleKey| key_view(k),
    ));
    Ok(out)
}

/// The colors of the children of `n` named `tags`, in order; the first that fails fails.
pub open spec fn rgbs_of(n: ConfigNode, parent: Seq<char>, tags: Seq<Seq<char>>) -> Result<Seq<ConfigRGB>, ErrView>
    decreases tags.len(),
{
    if tags.len() == 0 {
        Ok(Seq::empty())
    } else {
        match rgb_result(tagged(n, parent, tags[0])) {
            Err(e) => Err(e),
            Ok(k) => prepend(seq![k], rgbs_of(n, parent, tags.drop_first())),
        }
    }
}

/// Reads the colors of the children of `n` named `tags` (see [`rgbs_of`]).
pub fn rgbs_from(n: &ConfigNode, parent: &str, tags: &Vec<&str>) -> (r: Result<Vec<ConfigRGB>, NodeError>)
    requires
        missing_tag(*n, parent@, tag_views(tags@)) is None,
    ensures
        r matches Ok(ks) ==> ks@.len() == tags@.len(),
        match r {
            Ok(ks) => rgbs_of(*n, parent@, tag_views(tags@)) == Ok::<Seq<ConfigRGB>, ErrView>(
                ks@.map_values(|k: ConfigRGB| k),
            ),
            Err(e) => rgbs_of(*n, parent@, tag_views(tags@)) == Err::<Seq<ConfigRGB>, ErrView>(err_view(e)),
        },
{
    let ghost all = tag_views(tags@);
    let mut out: Vec<ConfigRGB> = Vec::new();
    let mut i: usize = 0;
    assert(all.skip(0) =~= all);
    assert(out@.map_values(|k: ConfigRGB| k) =~= Seq::<ConfigRGB>::empty());
    while i < tags.len()
        invariant
            all == tag_views(tags@),
            i <= tags@.len(),
            out@.len() == i,
            missing_tag(*n, parent@, all) is None,
            rgbs_of(*n, parent@, all) == prepend(
                out@.map_values(|k: ConfigRGB| k),
                rgbs_of(*n, parent@, all.skip(i as int)),
            ),
        decreases tags@.len() - i,
    {
        assert(all.skip(i as int)[0] == all[i as int]);
        assert(all.skip(i as int).drop_first() =~= all.skip(i + 1));
        proof {
            lemma_present(*n, parent@, all, i as int);
        }
        let c = match child(n, parent, tags[i]) {
            Ok(c) => c,
            Err(e) => {
                return Err(e);
            },
        };
        match rgb_from_node(c) {
            Err(e) => {
                return Err(e);
            },
            Ok(k) => {
                let ghost before = out@.map_values(|k: ConfigRGB| k);
                let ghost kv = k;
                out.push(k);
                assert(out@.map_values(|k: ConfigRGB| k) =~= before + seq![kv]);
                assert(before + (seq![kv] + Seq::<ConfigRGB>::empty()) =~= before + seq![kv]);
                proof {
                    match rgbs_of(*n, parent@, all.skip(i + 1)) {
                        Ok(rest) => {
                            assert(before + (seq![kv] + rest) =~= (before + seq![kv]) + rest);
                        },
                        Err(_) => {},
                    }
                }
            },
        }
        i = i + 1;
    }
    assert(all.skip(i as int) =~= Seq::<Seq<char>>::empty());
    assert(out@.map_values(|k: ConfigRGB| k) + Seq::<ConfigRGB>::empty() =~= out@.map_values(
        |k: ConfigRGB| k,
    ));
    Ok(out)
}

/// The commands of the children of `n` named `tags`, in order; the first that fails fails.
pub open spec fn cmds_of(n: ConfigNode, parent: Seq<char>, tags: Seq<Seq<char>>) -> Result<Seq<CmdView>, ErrView>
    decreases tags.len(),
{
    if tags.len() == 0 {
        Ok(Seq::empty())
    } else {
        match cmd_result(tagged(n, parent, tags[0])) {
            Err(e) => Err(e),
            Ok(k) => prepend(seq![k], cmds_of(n, parent, tags.drop_first())),
        }
    }
}

/// Reads the commands of the children of `n` named `tags` (see [`cmds_of`]).
pub fn cmds_from(n: &ConfigNode, parent: &str, tags: &Vec<&str>) -> (r: Result<Vec<CmdTemplate>, NodeError>)
    requires
        missing_tag(*n, parent@, tag_views(tags@)) is None,
    ensures
        r matches Ok(ks) ==> ks@.len() == tags@.len(),
        match r {
            Ok(ks) => cmds_of(*n, parent@, tag_views(tags@)) == Ok::<Seq<CmdView>, ErrView>(
                ks@.map_values(|k: CmdTemplate| cmd_view(k)),
            ),
            Err(e) => cmds_of(*n, parent@, tag_views(tags@)) == Err::<Seq<CmdView>, ErrView>(err_view(e)),
        },
{
    let ghost all = tag_views(tags@);
    let mut out: Vec<CmdTemplate> = Vec::new();
    let mut i: usize = 0;
    assert(all.skip(0) =~= all);
    assert(out@.map_values(|k: CmdTemplate| cmd_view(k)) =~= Seq::<CmdView>::empty());
    while i < tags.len()
        invariant
            all == tag_views(tags@),
            i <= tags@.len(),
            out@.len() == i,
            missing_tag(*n, parent@, all) is None,
            cmds_of(*n, parent@, all) == prepend(
                out@.map_values(|k: CmdTemplate| cmd_view(k)),
                cmds_of(*n, parent@, all.skip(i as int)),
            ),
        decreases tags@.len() - i,
    {
        assert(all.skip(i as int)[0] == all[i as int]);
        assert(all.skip(i as int).drop_first() =~= all.skip(i + 1));
        proof {
            lemma_present(*n, parent@, all, i as int);
        }
        let c = match child(n, parent, tags[i]) {
            Ok(c) => c,
            Err(e) => {
                return Err(e);
            },
        };
        match cmd_from_node(c) {
            Err(e) => {
                return Err(e);
            },
            Ok(k) => {
                let ghost before = out@.map_values(|k: CmdTemplate| cmd_view(k));
                let ghost kv = cmd_view(k);
                out.push(k);
                assert(out@.map_values(|k: CmdTemplate| cmd_view(k)) =~= before + seq![kv]);
                assert(before + (seq![kv] + Seq::<CmdView>::empty()) =~= before + seq![kv]);
                proof {
                    match cmds_of(*n, parent@, all.skip(i + 1)) {
                        Ok(rest) => {
                            assert(before + (seq![kv] + rest) =~= (before + seq![kv]) + rest);
                        },
                        Err(_) => {},
                    }
                }
            },
        }
        i = i + 1;
    }
    assert(all.skip(i as int) =~= Seq::<Seq<char>>::empty());
    assert(out@.map_values(|k: CmdTemplate| cmd_view(k)) + Seq::<CmdView>::empty() =~= out@.map_values(
        |k: CmdTemplate| cmd_view(k),
    ));
    Ok(out)
}

/// The regular expressions of the children of `n` named `tags`, in order; the first that fails fails.
pub open spec fn regexes_of(n: ConfigNode, parent: Seq<char>, tags: Seq<Seq<char>>) -> Result<Seq<Seq<char>>, ErrView>
    decreases tags.len(),
{
    if tags.len() == 0 {
        Ok(Seq::empty())
    } else {
        match regex_result(tagged(n, parent, tags[0])) {
            Err(e) => Err(e),
            Ok(k) => prepend(seq![k], regexes_of(n, parent, tags.drop_first())),
        }
    }
}

/// Reads the regular expressions of the children of `n` named `tags` (see [`regexes_of`]).
pub fn regexes_from(n: &ConfigNode, parent: &str, tags: &Vec<&str>) -> (r: Result<Vec<ConfigRegex>, NodeError>)
    requires
        missing_tag(*n, parent@, tag_views(tags@)) is None,
    ensures
        r matches Ok(ks) ==> ks@.len() == tags@.len(),
        match r {
            Ok(ks) => regexes_of(*n, parent@, tag_views(tags@)) == Ok::<Seq<Seq<char>>, ErrView>(
                ks@.map_values(|k: ConfigRegex| k.pattern_view()),
            ),
            Err(e) => regexes_of(*n, parent@, tag_views(tags@)) == Err::<Seq<Seq<char>>, ErrView>(err_view(e)),
        },
        r matches Ok(ks) ==> forall|i: int| 0 <= i < ks@.len() ==> (#[trigger] ks@[i]).wf(),
{
    let ghost all = tag_views(tags@);
    let mut out: Vec<ConfigRegex> = Vec::new();
    let mut i: usize = 0;
    assert(all.skip(0) =~= all);
    assert(out@.map_values(|k: ConfigRegex| k.pattern_view()) =~= Seq::<Seq<char>>::empty());
    while i < tags.len()
        invariant
            all == tag_views(tags@),
            i <= tags@.len(),
            out@.len() == i,
            missing_tag(*n, parent@, all) is None,
            regexes_of(*n, parent@, all) == prepend(
                out@.map_values(|k: ConfigRegex| k.pattern_view()),
                regexes_of(*n, parent@, all.skip(i as int)),
            ),
            forall|j: int| 0 <= j < out@.len() ==> (#[trigger] out@[j]).wf(),
        decreases tags@.len() - i,
    {
        assert(all.skip(i as int)[0] == all[i as int]);
        assert(all.skip(i as int).drop_first() =~= all.skip(i + 1));
        proof {
            lemma_present(*n, parent@, all, i as int);
        }
        let c = match child(n, parent, tags[i]) {
            Ok(c) => c,
            Err(e) => {
                return Err(e);
            },
        };
        match regex_from_node(c) {
            Err(e) => {
                return Err(e);
            },
            Ok(k) => {
                let ghost before = out@.map_values(|k: ConfigRegex| k.pattern_view());
                let ghost kv = k.pattern_view();
                out.push(k);
                assert(out@.map_values(|k: ConfigRegex| k.pattern_view()) =~= before + seq![kv]);
                assert(before + (seq![kv] + Seq::<Seq<char>>::empty()) =~= before + seq![kv]);
                proof {
                    match regexes_of(*n, parent@, all.skip(i + 1)) {
                        Ok(rest) => {
                            assert(before + (seq![kv] + rest) =~= (before + seq![kv]) + rest);
                        },
                        Err(_) => {},
                    }
                }
            },
        }
        i = i + 1;
    }
    assert(all.skip(i as int) =~= Seq::<Seq<char>>::empty());
    assert(out@.map_values(|k: ConfigRegex| k.pattern_view()) + Seq::<Seq<char>>::empty() =~= out@.map_values(
        |k: ConfigRegex| k.pattern_view(),
    ));
    Ok(out)
}

/// The tags of the colors of links, in the order in which they are read.
pub open spec fn links_tags() -> Seq<Seq<char>> {
    seq!["parent_name"@, "url"@, "file"@, "dir"@, "broken"@, "code_block"@, "unlisted"@, "cycle"@]
}

/// The `world.color.elements.links` node: a color for each kind of link and for the hints.
pub open spec fn links_result(n: ConfigNode) -> Result<Links, ErrView> {
    let p = "world.color.elements.links"@;
    match missing_tag(n, p, links_tags()) {
        Some(e) => Err(e),
        None => match rgbs_of(n, p, links_tags()) {
            Err(e) => Err(e),
            Ok(cs) => Ok(
                Links {
                    parent_name: cs[0],
                    url: cs[1],
                    file: cs[2],
                    dir: cs[3],
                    broken: cs[4],
                    code_block: cs[5],
                    unlisted: cs[6],
                    cycle: cs[7],
                },
            ),
        },
    }
}

/// Reads the colors of links (see [`links_result`]).
pub fn links_from_node(n: &ConfigNode) -> (r: Result<Links, NodeError>)
    ensures
        plain_view(r) == links_result(*n),
{
    let tags = vec!["parent_name", "url", "file", "dir", "broken", "code_block", "unlisted", "cycle"];
    assert(tag_views(tags@) =~= links_tags());
    if let Some(e) = check_tags(n, "world.color.elements.links", &tags) {
        return Err(e);
    }
    let cs = match rgbs_from(n, "world.color.elements.links", &tags) {
        Ok(cs) => cs,
        Err(e) => {
            return Err(e);
        },
    };
    assert(cs@.map_values(|k: ConfigRGB| k) =~= cs@);
    Ok(
        Links {
            parent_name: cs[0],
            url: cs[1],
            file: cs[2],
            dir: cs[3],
            broken: cs[4],
            code_block: cs[5],
            unlisted: cs[6],
            cycle: cs[7],
        },
    )
}

/// The tags of the colors of notes, in the order in which they are read.
pub open spec fn notes_tags() -> Seq<Seq<char>> {
    seq!["tag"@, "special_tag"@]
}

/// The `world.color.elements.notes` node: the colors of tags and of special tags.
pub open spec fn notes_result(n: ConfigNode) -> Result<Notes, ErrView> {
    let p = "world.color.elements.notes"@;
    match missing_tag(n, p, notes_tags()) {
        Some(e) => Err(e),
        None => match rgbs_of(n, p, notes_tags()) {
            Err(e) => Err(e),
            Ok(cs) => Ok(Notes { tag: cs[0], special_tag: cs[1] }),
        },
    }
}

/// Reads the colors of notes (see [`notes_result`]).
pub fn notes_from_node(n: &ConfigNode) -> (r: Result<Notes, NodeError>)
    ensures
        plain_view(r) == notes_result(*n),
{
    let tags = vec!["tag", "special_tag"];
    assert(tag_views(tags@) =~= notes_tags());
    if let Some(e) = check_tags(n, "world.color.elements.notes", &tags) {
        return Err(e);
    }
    let cs = match rgbs_from(n, "world.color.elements.notes", &tags) {
        Ok(cs) => cs,
        Err(e) => {
            return Err(e);
        },
    };
    assert(cs@.map_values(|k: ConfigRGB| k) =~= cs@);
    Ok(Notes { tag: cs[0], special_tag: cs[1] })
}

/// The `world.color.elements` node: the colors of links and of notes.
pub open spec fn color_scheme_result(n: ConfigNode) -> Result<ColorScheme, ErrView> {
    let p = "world.color.elements"@;
    match missing_tag(n, p, seq!["links"@, "notes"@]) {
        Some(e) => Err(e),
        None => match links_result(tagged(n, p, "links"@)) {
            Err(e) => Err(e),
            Ok(links) => match notes_result(tagged(n, p, "notes"@)) {
                Err(e) => Err(e),
                Ok(notes) => Ok(ColorScheme { links, notes }),
            },
        },
    }
}

/// Reads the color scheme (see [`color_scheme_result`]).
pub fn color_scheme_from_node(n: &ConfigNode) -> (r: Result<ColorScheme, NodeError>)
    ensures
        plain_view(r) == color_scheme_result(*n),
{
    let tags = vec!["links", "notes"];
    let ghost t = seq!["links"@, "notes"@];
    assert(tag_views(tags@) =~= t);
    if let Some(e) = check_tags(n, "world.color.elements", &tags) {
        return Err(e);
    }
    proof {
        lemma_present(*n, "world.color.elements"@, t, 0);
        lemma_present(*n, "world.color.elements"@, t, 1);
    }
    let ln = match child(n, "world.color.elements", "links") {
        Ok(c) => c,
        Err(e) => {
            return Err(e);
        },
    };
    let links = match links_from_node(ln) {
        Ok(v) => v,
        Err(e) => {
            return Err(e);
        },
    };
    let nn = match child(n, "world.color.elements", "notes") {
        Ok(c) => c,
        Err(e) => {
            return Err(e);
        },
    };
    let notes = match notes_from_node(nn) {
        Ok(v) => v,
        Err(e) => {
            return Err(e);
        },
    };
    Ok(ColorScheme { links, notes })
}

/// The view of the color section: the path of the theme and the color scheme.
pub open spec fn color_view(c: Color) -> (Seq<char>, ColorScheme) {
    (c.theme.0@, c.elements)
}

/// The `world.color` node: the path of the highlighting theme and the colors of elements.
pub open spec fn color_result(n: ConfigNode) -> Result<(Seq<char>, ColorScheme), ErrView> {
    let p = "world.color"@;
    match missing_tag(n, p, seq!["theme"@, "elements"@]) {
        Some(e) => Err(e),
        None => match path_result(tagged(n, p, "theme"@)) {
            Err(e) => Err(e),
            Ok(theme) => match color_scheme_result(tagged(n, p, "elements"@)) {
                Err(e) => Err(e),
                Ok(elements) => Ok((theme, elements)),
            },
        },
    }
}

/// Reads the color section (see [`color_result`]).
pub fn color_from_node(n: &ConfigNode) -> (r: Result<Color, NodeError>)
    ensures
        match r {
            Ok(c) => color_result(*n) == Ok::<(Seq<char>, ColorScheme), ErrView>(color_view(c)),
            Err(e) => color_result(*n) == Err::<(Seq<char>, ColorScheme), ErrView>(err_view(e)),
        },
{
    let tags = vec!["theme", "elements"];
    let ghost t = seq!["theme"@, "elements"@];
    assert(tag_views(tags@) =~= t);
    if let Some(e) = check_tags(n, "world.color", &tags) {
        return Err(e);
    }
    proof {
        lemma_present(*n, "world.color"@, t, 0);
        lemma_present(*n, "world.color"@, t, 1);
    }
    let tn = match child(n, "world.color", "theme") {
        Ok(c) => c,
        Err(e) => {
            return Err(e);
        },
    };
    let theme = match path_from_node(tn) {
        Ok(v) => v,
        Err(e) => {
            return Err(e);
        },
    };
    let en = match child(n, "world.color", "elements") {
        Ok(c) => c,
        Err(e) => {
            return Err(e);
        },
    };
    let elements = match color_scheme_from_node(en) {
        Ok(v) => v,
        Err(e) => {
            return Err(e);
        },
    };
    Ok(Color { theme, elements })
}

/// The tags of the preview commands, in the order in which they are read.
pub open spec fn preview_tags() -> Seq<Seq<char>> {
    seq!["dir"@, "file"@, "file-line"@]
}

/// The view of the preview commands, in the order of [`preview_tags`].
pub open spec fn preview_view(p: Preview) -> Seq<CmdView> {
    seq![cmd_view(p.dir_cmd), cmd_view(p.file_cmd), cmd_view(p.file_line_cmd)]
}

/// The `world.external-commands.preview` node: the commands that preview a directory, a
/// file, and a file from a line on.
pub open spec fn preview_result(n: ConfigNode) -> Result<Seq<CmdView>, ErrView> {
    let p = "world.external-commands.preview"@;
    match missing_tag(n, p, preview_tags()) {
        Some(e) => Err(e),
        None => cmds_of(n, p, preview_tags()),
    }
}

/// Reads the preview commands (see [`preview_result`]).
pub fn preview_from_node(n: &ConfigNode) -> (r: Result<Preview, NodeError>)
    ensures
        match r {
            Ok(v) => preview_result(*n) == Ok::<Seq<CmdView>, ErrView>(preview_view(v)),
            Err(e) => preview_result(*n) == Err::<Seq<CmdView>, ErrView>(err_view(e)),
        },
{
    let tags = vec!["dir", "file", "file-line"];
    assert(tag_views(tags@) =~= preview_tags());
    if let Some(e) = check_tags(n, "world.external-commands.preview", &tags) {
        return Err(e);
    }
    let mut cs = match cmds_from(n, "world.external-commands.preview", &tags) {
        Ok(cs) => cs,
        Err(e) => {
            return Err(e);
        },
    };
    let ghost all = cs@;
    let dir_cmd = cs.remove(0);
    let file_cmd = cs.remove(0);
    let file_line_cmd = cs.remove(0);
    let v = Preview { dir_cmd, file_cmd, file_line_cmd };
    assert(preview_view(v) =~= all.map_values(|k: CmdTemplate| cmd_view(k)));
    Ok(v)
}

/// The tags of the commands that open things, in the order in which they are read.
pub open spec fn open_tags() -> Seq<Seq<char>> {
    seq!["file"@, "file-jump"@, "dir"@, "url"@, "pipe-$SNIPPET_TEXT-into"@]
}

/// The view of the commands that open things, in the order of [`open_tags`].
pub open spec fn open_view(o: Open) -> Seq<CmdView> {
    seq![
        cmd_view(o.file_cmd),
        cmd_view(o.file_jump_cmd),
        cmd_view(o.dir_cmd),
        cmd_view(o.url_cmd),
        cmd_view(o.pipe_text_snippet_cmd),
    ]
}

/// The `world.external-commands.open` node: the commands that open a file, jump to a place in
/// a file, open a directory, open a url, and take a text snippet on standard input.
pub open spec fn open_result(n: ConfigNode) -> Result<Seq<CmdView>, ErrView> {
    let p = "world.external-commands.open"@;
    match missing_tag(n, p, open_tags()) {
        Some(e) => Err(e),
        None => cmds_of(n, p, open_tags()),
    }
}

/// Reads the commands that open things (see [`open_result`]).
pub fn open_from_node(n: &ConfigNode) -> (r: Result<Open, NodeError>)
    ensures
        match r {
            Ok(v) => open_result(*n) == Ok::<Seq<CmdView>, ErrView>(open_view(v)),
            Err(e) => open_result(*n) == Err::<Seq<CmdView>, ErrView>(err_view(e)),
        },
{
    let tags = vec!["file", "file-jump", "dir", "url", "pipe-$SNIPPET_TEXT-into"];
    assert(tag_views(tags@) =~= open_tags());
    if let Some(e) = check_tags(n, "world.external-commands.open", &tags) {
        return Err(e);
    }
    let mut cs = match cmds_from(n, "world.external-commands.open", &tags) {
        Ok(cs) => cs,
        Err(e) => {
            return Err(e);
        },
    };
    let ghost all = cs@;
    let file_cmd = cs.remove(0);
    let file_jump_cmd = cs.remove(0);
    let dir_cmd = cs.remove(0);
    let url_cmd = cs.remove(0);
    let pipe_text_snippet_cmd = cs.remove(0);
    let v = Open { file_cmd, file_jump_cmd, url_cmd, dir_cmd, pipe_text_snippet_cmd };
    assert(open_view(v) =~= all.map_values(|k: CmdTemplate| cmd_view(k)));
    Ok(v)
}

/// The `world.external-commands` node: the preview commands and the commands that open
/// things.
pub open spec fn external_commands_result(n: ConfigNode) -> Result<(Seq<CmdView>, Seq<CmdView>), ErrView> {
    let p = "world.external-commands"@;
    match missing_tag(n, p, seq!["preview"@, "open"@]) {
        Some(e) => Err(e),
        None => match preview_result(tagged(n, p, "preview"@)) {
            Err(e) => Err(e),
            Ok(pv) => match open_result(tagged(n, p, "open"@)) {
                Err(e) => Err(e),
                Ok(ov) => Ok((pv, ov)),
            },
        },
    }
}

/// The view of all external commands.
pub open spec fn external_commands_view(x: ExternalCommands) -> (Seq<CmdView>, Seq<CmdView>) {
    (preview_view(x.preview), open_view(x.open))
}

/// Reads all external commands (see [`external_commands_result`]).
pub fn external_commands_from_node(n: &ConfigNode) -> (r: Result<ExternalCommands, NodeError>)
    ensures
        match r {
            Ok(v) => external_commands_result(*n) == Ok::<(Seq<CmdView>, Seq<CmdView>), ErrView>(
                external_commands_view(v),
            ),
            Err(e) => external_commands_result(*n) == Err::<(Seq<CmdView>, Seq<CmdView>), ErrView>(err_view(e)),
        },
{
    let tags = vec!["preview", "open"];
    let ghost t = seq!["preview"@, "open"@];
    assert(tag_views(tags@) =~= t);
    if let Some(e) = check_tags(n, "world.external-commands", &tags) {
        return Err(e);
    }
    proof {
        lemma_present(*n, "world.external-commands"@, t, 0);
        lemma_present(*n, "world.external-commands"@, t, 1);
    }
    let pn = match child(n, "world.external-commands", "preview") {
        Ok(c) => c,
        Err(e) => {
            return Err(e);
        },
    };
    let preview = match preview_from_node(pn) {
        Ok(v) => v,
        Err(e) => {
            return Err(e);
        },
    };
    let on = match child(n, "world.external-commands", "open") {
        Ok(c) => c,
        Err(e) => {
            return Err(e);
        },
    };
    let open = match open_from_node(on) {
        Ok(v) => v,
        Err(e) => {
            return Err(e);
        },
    };
    Ok(ExternalCommands { preview, open })
}

/// The tags of the regular expressions, in the order in which they are read.
pub open spec fn surf_parsing_tags() -> Seq<Seq<char>> {
    seq!["markdown-reference-link-regex"@, "url-regex"@, "file-dest-has-line-regex"@, "task-item-regex"@]
}

/// The view of the regular expressions, in the order of [`surf_parsing_tags`].
pub open spec fn surf_parsing_view(s: SurfParsing) -> Seq<Seq<char>> {
    seq![
        s.markdown_reference_link_regex.pattern_view(),
        s.url_regex.pattern_view(),
        s.has_line_regex.pattern_view(),
        s.task_item_regex.pattern_view(),
    ]
}

/// The `world.surf-parsing` node: the regular expressions of reference links, urls, file
/// destinations with a line, and task items.
pub open spec fn surf_parsing_result(n: ConfigNode) -> Result<Seq<Seq<char>>, ErrView> {
    let p = "world.surf-parsing"@;
    match missing_tag(n, p, surf_parsing_tags()) {
        Some(e) => Err(e),
        None => regexes_of(n, p, surf_parsing_tags()),
    }
}

/// Reads the regular expressions (see [`surf_parsing_result`]).
pub fn surf_parsing_from_node(n: &ConfigNode) -> (r: Result<SurfParsing, NodeError>)
    ensures
        match r {
            Ok(v) => surf_parsing_result(*n) == Ok::<Seq<Seq<char>>, ErrView>(surf_parsing_view(v)) && v.wf(),
            Err(e) => surf_parsing_result(*n) == Err::<Seq<Seq<char>>, ErrView>(err_view(e)),
        },
{
    let tags = vec!["markdown-reference-link-regex", "url-regex", "file-dest-has-line-regex", "task-item-regex"];
    assert(tag_views(tags@) =~= surf_parsing_tags());
    if let Some(e) = check_tags(n, "world.surf-parsing", &tags) {
        return Err(e);
    }
    let mut cs = match regexes_from(n, "world.surf-parsing", &tags) {
        Ok(cs) => cs,
        Err(e) => {
            return Err(e);
        },
    };
    let ghost all = cs@;
    assert(all[0].wf() && all[1].wf() && all[2].wf() && all[3].wf());
    let markdown_reference_link_regex = cs.remove(0);
    let url_regex = cs.remove(0);
    let has_line_regex = cs.remove(0);
    let task_item_regex = cs.remove(0);
    let v = SurfParsing { url_regex, markdown_reference_link_regex, task_item_regex, has_line_regex };
    assert(surf_parsing_view(v) =~= all.map_values(|k: ConfigRegex| k.pattern_view()));
    Ok(v)
}

/// True when no two keys are written the same.
pub open spec fn combos_distinct(ks: Seq<KeyView>) -> bool {
    forall|i: int, j: int| 0 <= i < j < ks.len() ==> ks[i].0 != ks[j].0
}

/// A keymap section node `n`, known as `parent` in messages: the keys of its children named
/// `tags`, in order, none written twice.
pub open spec fn section_result(n: ConfigNode, parent: Seq<char>, tags: Seq<Seq<char>>) -> Result<Seq<KeyView>, ErrView> {
    match missing_tag(n, parent, tags) {
        Some(e) => Err(e),
        None => match keys_of(n, parent, tags) {
            Err(e) => Err(e),
            Ok(ks) => if combos_distinct(ks) {
                Ok(ks)
            } else {
                Err((n.span, "has keys combo repetitions"@))
            },
        },
    }
}

/// Reads a keymap section (see [`section_result`]).
pub fn section_from_node(n: &ConfigNode, parent: &str, tags: &Vec<&str>) -> (r: Result<Vec<SingleKey>, NodeError>)
    ensures
        r matches Ok(ks) ==> ks@.len() == tags@.len(),
        match r {
            Ok(ks) => section_result(*n, parent@, tag_views(tags@)) == Ok::<Seq<KeyView>, ErrView>(
                ks@.map_values(|k: SingleKey| key_view(k)),
            ),
            Err(e) => section_result(*n, parent@, tag_views(tags@)) == Err::<Seq<KeyView>, ErrView>(err_view(e)),
        },
{
    if let Some(e) = check_tags(n, parent, tags) {
        return Err(e);
    }
    let ks = match keys_from(n, parent, tags) {
        Ok(ks) => ks,
        Err(e) => {
            return Err(e);
        },
    };
    let ghost views = ks@.map_values(|k: SingleKey| key_view(k));
    if crate::config::keymap::all_keys_distinct(&ks) {
        assert forall|i: int, j: int| 0 <= i < j < views.len() implies views[i].0 != views[j].0 by {
            assert(views[i].0 == ks@[i].combo@);
            assert(views[j].0 == ks@[j].combo@);
        }
        Ok(ks)
    } else {
        assert(!combos_distinct(views)) by {
            let (i, j) = choose|i: int, j: int| 0 <= i < j < ks@.len() && ks@[i].combo@ == ks@[j].combo@;
            assert(views[i].0 == ks@[i].combo@);
            assert(views[j].0 == ks@[j].combo@);
        }
        Err(NodeError { span: n.span, description: String::from_str("has keys combo repetitions") })
    }
}

/// The view of a keymap section: its keys in the order of its actions.
pub open spec fn keys_view(keys: Seq<SingleKey>) -> Seq<KeyView> {
    keys.map_values(|x: SingleKey| key_view(x))
}

/// The view of the keymap: the keys of the surf, checkmark, stack and explore screens.
pub open spec fn keymap_view(k: Keymap) -> (Seq<KeyView>, Seq<KeyView>, Seq<KeyView>, Seq<KeyView>) {
    (
        keys_view(k.surf.spec_keys()),
        keys_view(k.checkmark.spec_keys()),
        keys_view(k.stack.spec_keys()),
        keys_view(k.explore.spec_keys()),
    )
}

/// The `world.keymap` node: the sections of the surf, checkmark, stack and explore screens.
pub open spec fn keymap_result(n: ConfigNode) -> Result<(Seq<KeyView>, Seq<KeyView>, Seq<KeyView>, Seq<KeyView>), ErrView> {
    let p = "world.keymap"@;
    match missing_tag(n, p, seq!["surf"@, "checkmark"@, "stack"@, "explore"@]) {
        Some(e) => Err(e),
        None => match section_result(tagged(n, p, "surf"@), crate::config::keymap::surf::section(), crate::config::keymap::surf::section_tags()) {
            Err(e) => Err(e),
            Ok(a) => match section_result(tagged(n, p, "checkmark"@), crate::config::keymap::checkmark::section(), crate::config::keymap::checkmark::section_tags()) {
                Err(e) => Err(e),
                Ok(b) => match section_result(tagged(n, p, "stack"@), crate::config::keymap::stack::section(), crate::config::keymap::stack::section_tags()) {
                    Err(e) => Err(e),
                    Ok(c) => match section_result(tagged(n, p, "explore"@), crate::config::keymap::explore::section(), crate::config::keymap::explore::section_tags()) {
                        Err(e) => Err(e),
                        Ok(d) => Ok((a, b, c, d)),
                    },
                },
            },
        },
    }
}

/// Reads the keymap (see [`keymap_result`]).
pub fn keymap_from_node(n: &ConfigNode) -> (r: Result<Keymap, NodeError>)
    ensures
        match r {
            Ok(k) => keymap_result(*n) == Ok::<(Seq<KeyView>, Seq<KeyView>, Seq<KeyView>, Seq<KeyView>), ErrView>(keymap_view(k)),
            Err(e) => keymap_result(*n) == Err::<(Seq<KeyView>, Seq<KeyView>, Seq<KeyView>, Seq<KeyView>), ErrView>(err_view(e)),
        },
{
    let tags = vec!["surf", "checkmark", "stack", "explore"];
    let ghost t = seq!["surf"@, "checkmark"@, "stack"@, "explore"@];
    assert(tag_views(tags@) =~= t);
    if let Some(e) = check_tags(n, "world.keymap", &tags) {
        return Err(e);
    }
    proof {
        lemma_present(*n, "world.keymap"@, t, 0);
        lemma_present(*n, "world.keymap"@, t, 1);
        lemma_present(*n, "world.keymap"@, t, 2);
        lemma_present(*n, "world.keymap"@, t, 3);
    }
    let surf_node = match child(n, "world.keymap", "surf") {
        Ok(c) => c,
        Err(e) => {
            return Err(e);
        },
    };
    let surf = match crate::config::keymap::surf::SurfKeymap::from_node(surf_node) {
        Ok(v) => v,
        Err(e) => {
            return Err(e);
        },
    };
    let checkmark_node = match child(n, "world.keymap", "checkmark") {
        Ok(c) => c,
        Err(e) => {
            return Err(e);
        },
    };
    let checkmark = match crate::config::keymap::checkmark::CheckmarkKeymap::from_node(checkmark_node) {
        Ok(v) => v,
        Err(e) => {
            return Err(e);
        },
    };
    let stack_node = match child(n, "world.keymap", "stack") {
        Ok(c) => c,
        Err(e) => {
            return Err(e);
        },
    };
    let stack = match crate::config::keymap::stack::StackKeymap::from_node(stack_node) {
        Ok(v) => v,
        Err(e) => {
            return Err(e);
        },
    };
    let explore_node = match child(n, "world.keymap", "explore") {
        Ok(c) => c,
        Err(e) => {
            return Err(e);
        },
    };
    let explore = match crate::config::keymap::explore::ExploreKeymap::from_node(explore_node) {
        Ok(v) => v,
        Err(e) => {
            return Err(e);
        },
    };
    Ok(Keymap { surf, checkmark, stack, explore })
}

/// The view of a configuration: its regular expressions, the notes' directory, the external
/// commands, the color section and the keymap.
pub open spec fn config_view(c: Config) -> (
    Seq<Seq<char>>,
    Seq<char>,
    (Seq<CmdView>, Seq<CmdView>),
    (Seq<char>, ColorScheme),
    (Seq<KeyView>, Seq<KeyView>, Seq<KeyView>, Seq<KeyView>),
) {
    (
        surf_parsing_view(c.surf_parsing),
        c.work_dir.0@,
        external_commands_view(c.external_commands),
        color_view(c.color),
        keymap_view(c.keymap),
    )
}

/// The `world` node: the sections `surf-parsing`, `notes-work-dir`, `external-commands`,
/// `color` and `keymap`, read in that order.
pub open spec fn config_result(n: ConfigNode) -> Result<
    (
        Seq<Seq<char>>,
        Seq<char>,
        (Seq<CmdView>, Seq<CmdView>),
        (Seq<char>, ColorScheme),
        (Seq<KeyView>, Seq<KeyView>, Seq<KeyView>, Seq<KeyView>),
    ),
    ErrView,
> {
    let p = "world"@;
    match missing_tag(n, p, seq!["surf-parsing"@, "notes-work-dir"@, "external-commands"@, "color"@, "keymap"@]) {
        Some(e) => Err(e),
        None => match surf_parsing_result(tagged(n, p, "surf-parsing"@)) {
            Err(e) => Err(e),
            Ok(a) => match path_result(tagged(n, p, "notes-work-dir"@)) {
                Err(e) => Err(e),
                Ok(b) => match external_commands_result(tagged(n, p, "external-commands"@)) {
                    Err(e) => Err(e),
                    Ok(c) => match color_result(tagged(n, p, "color"@)) {
                        Err(e) => Err(e),
                        Ok(d) => match keymap_result(tagged(n, p, "keymap"@)) {
                            Err(e) => Err(e),
                            Ok(k) => Ok((a, b, c, d, k)),
                        },
                    },
                },
            },
        },
    }
}

/// Reads the configuration from its `world` node (see [`config_result`]).
pub fn config_from_node(n: &ConfigNode) -> (r: Result<Config, NodeError>)
    ensures
        match r {
            Ok(c) => config_result(*n) matches Ok(v) && v == config_view(c) && c.surf_parsing.wf(),
            Err(e) => config_result(*n) matches Err(v) && v == err_view(e),
        },
{
    let tags = vec!["surf-parsing", "notes-work-dir", "external-commands", "color", "keymap"];
    let ghost t = seq!["surf-parsing"@, "notes-work-dir"@, "external-commands"@, "color"@, "keymap"@];
    assert(tag_views(tags@) =~= t);
    if let Some(e) = check_tags(n, "world", &tags) {
        return Err(e);
    }
    proof {
        lemma_present(*n, "world"@, t, 0);
        lemma_present(*n, "world"@, t, 1);
        lemma_present(*n, "world"@, t, 2);
        lemma_present(*n, "world"@, t, 3);
        lemma_present(*n, "world"@, t, 4);
    }
    let a = match child(n, "world", "surf-parsing") {
        Ok(c) => c,
        Err(e) => {
            return Err(e);
        },
    };
    let surf_parsing = match surf_parsing_from_node(a) {
        Ok(v) => v,
        Err(e) => {
            return Err(e);
        },
    };
    let b = match child(n, "world", "notes-work-dir") {
        Ok(c) => c,
        Err(e) => {
            return Err(e);
        },
    };
    let work_dir = match path_from_node(b) {
        Ok(v) => v,
        Err(e) => {
            return Err(e);
        },
    };
    let c = match child(n, "world", "external-commands") {
        Ok(c) => c,
        Err(e) => {
            return Err(e);
        },
    };
    let external_commands = match external_commands_from_node(c) {
        Ok(v) => v,
        Err(e) => {
            return Err(e);
        },
    };
    let d = match child(n, "world", "color") {
        Ok(c) => c,
        Err(e) => {
            return Err(e);
        },
    };
    let color = match color_from_node(d) {
        Ok(v) => v,
        Err(e) => {
            return Err(e);
        },
    };
    let k = match child(n, "world", "keymap") {
        Ok(c) => c,
        Err(e) => {
            return Err(e);
        },
    };
    let keymap = match keymap_from_node(k) {
        Ok(v) => v,
        Err(e) => {
            return Err(e);
        },
    };
    Ok(Config { work_dir, surf_parsing, external_commands, color, keymap })
}

/// The index of the first top-level node named `world`, or -1.
pub open spec fn world_index(d: ConfigDocument) -> int {
    crate::config::node::child_index(d.nodes@, "world"@)
}

/// Reads the configuration from its document: from the first top-level node named `world`;
/// a document without one fails at the whole document.
pub fn config_from_document(d: &ConfigDocument) -> (r: Result<Config, NodeError>)
    ensures
        world_index(*d) < 0 ==> (r matches Err(e) && e.span == d.span && e.description@
            == "couldn't find top-level `world` node in kdl document"@),
        world_index(*d) >= 0 ==> match r {
            Ok(c) => config_result(d.nodes@[world_index(*d)]) matches Ok(v) && v == config_view(c) && c.surf_parsing.wf(),
            Err(e) => config_result(d.nodes@[world_index(*d)]) matches Err(v) && v == err_view(e),
        },
{
    proof {
        crate::config::node::lemma_child_index(d.nodes@, "world"@);
    }
    let mut i: usize = 0;
    while i < d.nodes.len()
        invariant
            i <= d.nodes@.len(),
            -1 <= world_index(*d) < d.nodes@.len(),
            world_index(*d) >= 0 ==> d.nodes@[world_index(*d)].name@ == "world"@,
            forall|j: int| 0 <= j < d.nodes@.len() && (world_index(*d) < 0 || j < world_index(*d)) ==> d.nodes@[j].name@ != "world"@,
            world_index(*d) < 0 || i <= world_index(*d),
        decreases d.nodes@.len() - i,
    {
        if crate::text::str_eq(d.nodes[i].name.as_str(), "world") {
            assert(world_index(*d) == i);
            return config_from_node(&d.nodes[i]);
        }
        i = i + 1;
    }
    Err(
        NodeError {
            span: d.span,
            description: String::from_str("couldn't find top-level `world` node in kdl document"),
        },
    )
}

/// What is read from a document: what [`config_result`] reads from its first top-level node
/// named `world`, or, when it has none, the error for the whole document.
pub open spec fn document_reading(d: ConfigDocument) -> Result<
    (
        Seq<Seq<char>>,
        Seq<char>,
        (Seq<CmdView>, Seq<CmdView>),
        (Seq<char>, ColorScheme),
        (Seq<KeyView>, Seq<KeyView>, Seq<KeyView>, Seq<KeyView>),
    ),
    ErrView,
> {
    if world_index(d) < 0 {
        Err((d.span, "couldn't find top-level `world` node in kdl document"@))
    } else {
        config_result(d.nodes@[world_index(d)])
    }
}

/// Reads the configuration from its text: a KDL document whose first `world` node holds it.
/// It fails with a syntax error exactly on the texts that are no KDL document; otherwise it
/// returns what is read from the document that `kdl` makes of the text (see
/// [`document_reading`]): the configuration, or the error.
pub fn parse_config(text: &str) -> (r: Result<Config, ConfigError>)
    ensures
        kdl_accepts(text@) <==> !(r matches Err(ConfigError::Syntax(_))),
        r matches Ok(c) ==> c.surf_parsing.wf() && exists|d: ConfigDocument|
            document_matches(d, kdl_parsed(text@)) && (#[trigger] document_reading(d) matches Ok(v) && v
                == config_view(c)),
        r matches Err(ConfigError::Node(e)) ==> exists|d: ConfigDocument|
            document_matches(d, kdl_parsed(text@)) && (#[trigger] document_reading(d) matches Err(v) && v
                == err_view(e)),
{
    match parse_document(text) {
        Err(e) => Err(ConfigError::Syntax(e)),
        Ok(d) => match config_from_document(&d) {
            Ok(c) => {
                assert(document_reading(d) matches Ok(v) && v == config_view(c));
                Ok(c)
            },
            Err(e) => {
                assert(document_reading(d) matches Err(v) && v == err_view(e));
                Err(ConfigError::Node(e))
            },
        },
    }
}

/// A key combination that is read keeps the text it was read from, names the key that text
/// names, and is never Control-c.
pub proof fn lemma_read_key_not_ctrl_c(s: Seq<char>, matched: bool)
    ensures
        single_key_result(s, matched) matches Ok(k) ==> k.0 == s && k.1 == crate::config::keymap::single_key::combo_key(s)
            && k.1 != KeyCombo::Ctrl('c'),
{
}

/// In every configuration that is read, no screen binds one key combination twice, and no
/// screen binds Control-c.
pub proof fn lemma_config_keys_distinct(n: ConfigNode)
    ensures
        config_result(n) matches Ok(v) ==> {
            &&& combos_distinct(v.4.0)
            &&& combos_distinct(v.4.1)
            &&& combos_distinct(v.4.2)
            &&& combos_distinct(v.4.3)
            &&& no_ctrl_c(v.4.0)
            &&& no_ctrl_c(v.4.1)
            &&& no_ctrl_c(v.4.2)
            &&& no_ctrl_c(v.4.3)
        },
{
    let p = "world"@;
    if config_result(n) is Ok {
        let k = tagged(n, p, "keymap"@);
        let kp = "world.keymap"@;
        lemma_keys_no_ctrl_c(tagged(k, kp, "surf"@), crate::config::keymap::surf::section(), crate::config::keymap::surf::section_tags());
        lemma_keys_no_ctrl_c(tagged(k, kp, "checkmark"@), crate::config::keymap::checkmark::section(), crate::config::keymap::checkmark::section_tags());
        lemma_keys_no_ctrl_c(tagged(k, kp, "stack"@), crate::config::keymap::stack::section(), crate::config::keymap::stack::section_tags());
        lemma_keys_no_ctrl_c(tagged(k, kp, "explore"@), crate::config::keymap::explore::section(), crate::config::keymap::explore::section_tags());
    }
}

/// True when none of `ks` is Control-c.
pub open spec fn no_ctrl_c(ks: Seq<KeyView>) -> bool {
    forall|i: int| 0 <= i < ks.len() ==> ks[i].1 != KeyCombo::Ctrl('c')
}

proof fn lemma_keys_of_no_ctrl_c(n: ConfigNode, parent: Seq<char>, tags: Seq<Seq<char>>)
    ensures
        keys_of(n, parent, tags) matches Ok(ks) ==> no_ctrl_c(ks),
    decreases tags.len(),
{
    if tags.len() > 0 {
        lemma_keys_of_no_ctrl_c(n, parent, tags.drop_first());
        let c = tagged(n, parent, tags[0]);
        match string_arg(c) {
            Ok(s) => lemma_read_key_not_ctrl_c(s, combo_matches(s)),
            Err(_) => {},
        }
        if let Ok(ks) = keys_of(n, parent, tags) {
            let k = key_result(c)->Ok_0;
            let rest = keys_of(n, parent, tags.drop_first())->Ok_0;
            assert(ks == seq![k] + rest);
            assert forall|i: int| 0 <= i < ks.len() implies ks[i].1 != KeyCombo::Ctrl('c') by {
                if i > 0 {
                    assert(ks[i] == rest[i - 1]);
                }
            }
        }
    }
}

proof fn lemma_keys_no_ctrl_c(n: ConfigNode, parent: Seq<char>, tags: Seq<Seq<char>>)
    ensures
        section_result(n, parent, tags) matches Ok(ks) ==> no_ctrl_c(ks) && combos_distinct(ks),
{
    lemma_keys_of_no_ctrl_c(n, parent, tags);
}


/// Each color read from the children named `tags` is the color of the child with the tag at
/// its place.
proof fn lemma_rgbs_of_index(n: ConfigNode, parent: Seq<char>, tags: Seq<Seq<char>>)
    ensures
        rgbs_of(n, parent, tags) matches Ok(cs) ==> {
            &&& cs.len() == tags.len()
            &&& forall|k: int| 0 <= k < tags.len() ==> rgb_result(#[trigger] tagged(n, parent, tags[k])) == Ok::<ConfigRGB, ErrView>(cs[k])
        },
    decreases tags.len(),
{
    if tags.len() > 0 {
        lemma_rgbs_of_index(n, parent, tags.drop_first());
        if let Ok(cs) = rgbs_of(n, parent, tags) {
            let c = rgb_result(tagged(n, parent, tags[0]))->Ok_0;
            let rest = rgbs_of(n, parent, tags.drop_first())->Ok_0;
            assert(cs == seq![c] + rest);
            assert forall|k: int| 0 <= k < tags.len() implies rgb_result(#[trigger] tagged(n, parent, tags[k])) == Ok::<ConfigRGB, ErrView>(cs[k]) by {
                if k > 0 {
                    assert(tags[k] == tags.drop_first()[k - 1]);
                    assert(cs[k] == rest[k - 1]);
                }
            }
        }
    }
}

/// The colors of links that are read are each the color of the child named after the kind
/// of link: `file` colors file links, `dir` directory links, and so on for every field.
pub proof fn lemma_links_colors_come_from_their_tags(n: ConfigNode)
    ensures
        links_result(n) matches Ok(l) ==> {
            let p = "world.color.elements.links"@;
            &&& rgb_result(tagged(n, p, "parent_name"@)) == Ok::<ConfigRGB, ErrView>(l.parent_name)
            &&& rgb_result(tagged(n, p, "url"@)) == Ok::<ConfigRGB, ErrView>(l.url)
            &&& rgb_result(tagged(n, p, "file"@)) == Ok::<ConfigRGB, ErrView>(l.file)
            &&& rgb_result(tagged(n, p, "dir"@)) == Ok::<ConfigRGB, ErrView>(l.dir)
            &&& rgb_result(tagged(n, p, "broken"@)) == Ok::<ConfigRGB, ErrView>(l.broken)
            &&& rgb_result(tagged(n, p, "code_block"@)) == Ok::<ConfigRGB, ErrView>(l.code_block)
            &&& rgb_result(tagged(n, p, "unlisted"@)) == Ok::<ConfigRGB, ErrView>(l.unlisted)
            &&& rgb_result(tagged(n, p, "cycle"@)) == Ok::<ConfigRGB, ErrView>(l.cycle)
        },
{
    let p = "world.color.elements.links"@;
    let t = seq!["parent_name"@, "url"@, "file"@, "dir"@, "broken"@, "code_block"@, "unlisted"@, "cycle"@];
    lemma_rgbs_of_index(n, p, t);
    assert(t[0] == "parent_name"@ && t[1] == "url"@ && t[2] == "file"@ && t[3] == "dir"@);
    assert(t[4] == "broken"@ && t[5] == "code_block"@ && t[6] == "unlisted"@ && t[7] == "cycle"@);
    assert(tagged(n, p, t[2]) == tagged(n, p, "file"@));
}

/// The colors of notes that are read are the colors of the children named `tag` and
/// `special_tag`, each in its own field.
pub proof fn lemma_notes_colors_come_from_their_tags(n: ConfigNode)
    ensures
        notes_result(n) matches Ok(v) ==> {
            let p = "world.color.elements.notes"@;
            &&& rgb_result(tagged(n, p, "tag"@)) == Ok::<ConfigRGB, ErrView>(v.tag)
            &&& rgb_result(tagged(n, p, "special_tag"@)) == Ok::<ConfigRGB, ErrView>(v.special_tag)
        },
{
    let p = "world.color.elements.notes"@;
    let t = seq!["tag"@, "special_tag"@];
    lemma_rgbs_of_index(n, p, t);
    assert(t[0] == "tag"@ && t[1] == "special_tag"@);
}

/// Each command read from the children named `tags` is the command of the child with the
/// tag at its place.
proof fn lemma_cmds_of_index(n: ConfigNode, parent: Seq<char>, tags: Seq<Seq<char>>)
    ensures
        cmds_of(n, parent, tags) matches Ok(cs) ==> {
            &&& cs.len() == tags.len()
            &&& forall|k: int| 0 <= k < tags.len() ==> cmd_result(#[trigger] tagged(n, parent, tags[k])) == Ok::<CmdView, ErrView>(cs[k])
        },
    decreases tags.len(),
{
    if tags.len() > 0 {
        lemma_cmds_of_index(n, parent, tags.drop_first());
        if let Ok(cs) = cmds_of(n, parent, tags) {
            let c = cmd_result(tagged(n, parent, tags[0]))->Ok_0;
            let rest = cmds_of(n, parent, tags.drop_first())->Ok_0;
            assert(cs == seq![c] + rest);
            assert forall|k: int| 0 <= k < tags.len() implies cmd_result(#[trigger] tagged(n, parent, tags[k])) == Ok::<CmdView, ErrView>(cs[k]) by {
                if k > 0 {
                    assert(tags[k] == tags.drop_first()[k - 1]);
                    assert(cs[k] == rest[k - 1]);
                }
            }
        }
    }
}

/// Each regular expression read from the children named `tags` is the one of the child with
/// the tag at its place.
proof fn lemma_regexes_of_index(n: ConfigNode, parent: Seq<char>, tags: Seq<Seq<char>>)
    ensures
        regexes_of(n, parent, tags) matches Ok(cs) ==> {
            &&& cs.len() == tags.len()
            &&& forall|k: int| 0 <= k < tags.len() ==> regex_result(#[trigger] tagged(n, parent, tags[k])) == Ok::<Seq<char>, ErrView>(cs[k])
        },
    decreases tags.len(),
{
    if tags.len() > 0 {
        lemma_regexes_of_index(n, parent, tags.drop_first());
        if let Ok(cs) = regexes_of(n, parent, tags) {
            let c = regex_result(tagged(n, parent, tags[0]))->Ok_0;
            let rest = regexes_of(n, parent, tags.drop_first())->Ok_0;
            assert(cs == seq![c] + rest);
            assert forall|k: int| 0 <= k < tags.len() implies regex_result(#[trigger] tagged(n, parent, tags[k])) == Ok::<Seq<char>, ErrView>(cs[k]) by {
                if k > 0 {
                    assert(tags[k] == tags.drop_first()[k - 1]);
                    assert(cs[k] == rest[k - 1]);
                }
            }
        }
    }
}

/// The preview commands that are read are each the command of the child named after what it
/// previews: `dir` for directories, `file` for files, `file-line` for a file from a line on.
pub proof fn lemma_preview_commands_come_from_their_tags(n: ConfigNode, v: Preview)
    requires
        preview_result(n) == Ok::<Seq<CmdView>, ErrView>(preview_view(v)),
    ensures
        cmd_result(tagged(n, "world.external-commands.preview"@, "dir"@)) == Ok::<CmdView, ErrView>(cmd_view(v.dir_cmd)),
        cmd_result(tagged(n, "world.external-commands.preview"@, "file"@)) == Ok::<CmdView, ErrView>(cmd_view(v.file_cmd)),
        cmd_result(tagged(n, "world.external-commands.preview"@, "file-line"@)) == Ok::<CmdView, ErrView>(cmd_view(v.file_line_cmd)),
{
    let p = "world.external-commands.preview"@;
    let t = seq!["dir"@, "file"@, "file-line"@];
    lemma_cmds_of_index(n, p, t);
    assert(t[0] == "dir"@ && t[1] == "file"@ && t[2] == "file-line"@);
    assert(preview_view(v)[0] == cmd_view(v.dir_cmd));
    assert(preview_view(v)[1] == cmd_view(v.file_cmd));
    assert(preview_view(v)[2] == cmd_view(v.file_line_cmd));
}

/// The commands that open things, as read, are each the command of the child named after
/// what it opens: `file`, `file-jump`, `dir`, `url`, and `pipe-$SNIPPET_TEXT-into` for text
/// snippets.
pub proof fn lemma_open_commands_come_from_their_tags(n: ConfigNode, v: Open)
    requires
        open_result(n) == Ok::<Seq<CmdView>, ErrView>(open_view(v)),
    ensures
        cmd_result(tagged(n, "world.external-commands.open"@, "file"@)) == Ok::<CmdView, ErrView>(cmd_view(v.file_cmd)),
        cmd_result(tagged(n, "world.external-commands.open"@, "file-jump"@)) == Ok::<CmdView, ErrView>(cmd_view(v.file_jump_cmd)),
        cmd_result(tagged(n, "world.external-commands.open"@, "dir"@)) == Ok::<CmdView, ErrView>(cmd_view(v.dir_cmd)),
        cmd_result(tagged(n, "world.external-commands.open"@, "url"@)) == Ok::<CmdView, ErrView>(cmd_view(v.url_cmd)),
        cmd_result(tagged(n, "world.external-commands.open"@, "pipe-$SNIPPET_TEXT-into"@)) == Ok::<CmdView, ErrView>(
            cmd_view(v.pipe_text_snippet_cmd),
        ),
{
    let p = "world.external-commands.open"@;
    let t = seq!["file"@, "file-jump"@, "dir"@, "url"@, "pipe-$SNIPPET_TEXT-into"@];
    lemma_cmds_of_index(n, p, t);
    assert(t[0] == "file"@ && t[1] == "file-jump"@ && t[2] == "dir"@ && t[3] == "url"@);
    assert(t[4] == "pipe-$SNIPPET_TEXT-into"@);
    assert(open_view(v)[0] == cmd_view(v.file_cmd));
    assert(open_view(v)[1] == cmd_view(v.file_jump_cmd));
    assert(open_view(v)[2] == cmd_view(v.dir_cmd));
    assert(open_view(v)[3] == cmd_view(v.url_cmd));
    assert(open_view(v)[4] == cmd_view(v.pipe_text_snippet_cmd));
}

/// The regular expressions that are read are each the one of the child named after its use:
/// reference links, urls, file destinations with a line, and task items.
pub proof fn lemma_surf_regexes_come_from_their_tags(n: ConfigNode, v: SurfParsing)
    requires
        surf_parsing_result(n) == Ok::<Seq<Seq<char>>, ErrView>(surf_parsing_view(v)),
    ensures
        regex_result(tagged(n, "world.surf-parsing"@, "markdown-reference-link-regex"@)) == Ok::<Seq<char>, ErrView>(
            v.markdown_reference_link_regex.pattern_view(),
        ),
        regex_result(tagged(n, "world.surf-parsing"@, "url-regex"@)) == Ok::<Seq<char>, ErrView>(v.url_regex.pattern_view()),
        regex_result(tagged(n, "world.surf-parsing"@, "file-dest-has-line-regex"@)) == Ok::<Seq<char>, ErrView>(
            v.has_line_regex.pattern_view(),
        ),
        regex_result(tagged(n, "world.surf-parsing"@, "task-item-regex"@)) == Ok::<Seq<char>, ErrView>(
            v.task_item_regex.pattern_view(),
        ),
{
    let p = "world.surf-parsing"@;
    let t = seq!["markdown-reference-link-regex"@, "url-regex"@, "file-dest-has-line-regex"@, "task-item-regex"@];
    lemma_regexes_of_index(n, p, t);
    assert(t[0] == "markdown-reference-link-regex"@ && t[1] == "url-regex"@);
    assert(t[2] == "file-dest-has-line-regex"@ && t[3] == "task-item-regex"@);
    assert(surf_parsing_view(v)[0] == v.markdown_reference_link_regex.pattern_view());
    assert(surf_parsing_view(v)[1] == v.url_regex.pattern_view());
    assert(surf_parsing_view(v)[2] == v.has_line_regex.pattern_view());
    assert(surf_parsing_view(v)[3] == v.task_item_regex.pattern_view());
}

} // verus!
