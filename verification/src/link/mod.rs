use vstd::prelude::*;
use vstd::utf8::decode_utf8;
use vstd::string::*;
use crate::config::cmd_template::{is_first_match, CmdTemplate};
use crate::config::color::{ColorScheme, ConfigRGB, Links};
use crate::config::external_commands::{Open, Preview};
use crate::config::surf_parsing::{
    capture_spans, is_match, names_view, regex_capture_spans, regex_is_match, spans_in_text, spans_view,
    SurfParsing,
};
use crate::external_commands::{
    arg_views, dir_preview_cmd, file_preview_cmd, file_range_preview_cmd, preview_first_line,
    preview_last_line, replaced_first, replaced_in_all,
};
use crate::lines::{find_position, position_of, EditorPosition};
use crate::print::{
    lemma_painted_reads_as, lemma_plain_reads_as, lemma_reads_as_concat, no_escape, paint_truecolor, painted_truecolor,
    strip_escapes,
};
use crate::text::{
    byte_substring, concat2, decimal, parse_u64, parsed_u64, rsplit_once_char, u64_to_string,
    usize_to_string,
};

pub mod code_blocks;

verus! {

broadcast use vstd::string::group_string_axioms;

/// Where a link of a note leads.
#[derive(Clone, Debug)]
pub enum Destination {
    Url(String),
    File { file: String },
    Dir { dir: String },
    Broken(String, Option<u64>),
    CodeBlock { code_block: String, syntax_label: String },
    FileLine { file: String, line_number: u64 },
}

/// A link found in a note: a markdown reference link or a code block.
#[derive(Clone, Debug)]
pub struct Link {
    pub containing_file_name: String,
    pub parent_name: String,
    pub description: String,
    pub link: Destination,
    pub display_item: Option<String>,
    pub preview_item: Option<String>,
    pub start: EditorPosition,
    pub color_scheme: ColorScheme,
}

/// What a link's text names before the file system is asked about it: a url, or a path with
/// perhaps a line number after its last `:`.
#[derive(Clone, Debug, PartialEq, Eq)]
pub enum LinkTarget {
    Url(String),
    Path { path: String, line: Option<u64> },
}

/// A markdown reference link as found in the text of a note.
#[derive(Clone, Debug)]
pub struct RawLink {
    pub description: String,
    pub url: String,
    pub start: EditorPosition,
}

/// What previewing a link takes: a text that is ready, a command whose output is the preview,
/// or a code snippet to highlight with its syntax label.
#[derive(Clone, Debug)]
pub enum PreviewPlan {
    Text(String),
    Command(CmdTemplate),
    Highlight { code: String, syntax_label: String },
}

/// How to open a link: the command to run; whether its program path is to have environment
/// variables substituted first; the file from whose directory to run it, if any; and the text
/// to feed it on standard input, if any.
#[derive(Clone, Debug)]
pub struct OpenPlan {
    pub cmd: CmdTemplate,
    pub substitute_program: bool,
    pub run_in_dir_of: Option<String>,
    pub stdin: Option<String>,
}

/// What the desktop's default opener is given for a link.
#[derive(Clone, Debug, PartialEq, Eq)]
pub enum XdgTarget {
    Open(String),
    Broken(String),
    Snippet,
}

/// The color in which the description of a link is shown.
pub open spec fn description_color(d: Destination, links: Links) -> ConfigRGB {
    match d {
        Destination::Url(..) => links.url,
        Destination::File { .. } | Destination::FileLine { .. } => links.file,
        Destination::Dir { .. } => links.dir,
        Destination::Broken(..) => links.broken,
        Destination::CodeBlock { .. } => links.code_block,
    }
}

/// The destination of a path, from what the file system says of it and the line number the
/// link names.
pub open spec fn fs_destination(path: String, is_file: bool, is_dir: bool, line: Option<u64>) -> Destination {
    if is_file && !is_dir && line is None {
        Destination::File { file: path }
    } else if is_file && !is_dir && line is Some {
        Destination::FileLine { file: path, line_number: line->Some_0 }
    } else if !is_file && is_dir && line is None {
        Destination::Dir { dir: path }
    } else if !is_file && is_dir && line is Some {
        Destination::Broken(path, line)
    } else {
        Destination::Broken(path, None)
    }
}

/// The target that a link's text names, from whether it matches the url regular expression and
/// whether it matches the one for a line suffix; `None` when the second matches but the text
/// holds no `:`.
pub open spec fn target_of(link: Seq<char>, is_url: bool, has_line: bool) -> Option<(bool, Seq<char>, Option<u64>)> {
    if is_url {
        Some((true, link, None))
    } else if has_line {
        if exists|i: int| 0 <= i < link.len() && link[i] == ':' {
            let k = choose|k: int|
                0 <= k < link.len() && link[k] == ':' && forall|j: int| k < j < link.len() ==> link[j] != ':';
            Some((false, link.subrange(0, k), parsed_u64(link.subrange(k + 1, link.len() as int))))
        } else {
            None
        }
    } else {
        Some((false, link, None))
    }
}

/// The view of a link target: whether it is a url, its text, and the line it names.
pub open spec fn target_view(t: LinkTarget) -> (bool, Seq<char>, Option<u64>) {
    match t {
        LinkTarget::Url(u) => (true, u@, None),
        LinkTarget::Path { path, line } => (false, path@, line),
    }
}

/// True when `l` is the markdown reference link that the match with group spans `caps`
/// describes in a text with UTF-8 encoding `bytes`.
pub open spec fn raw_link_of_match(l: RawLink, bytes: Seq<u8>, caps: Seq<Option<(usize, usize)>>) -> bool {
    let (ds, de) = caps[0]->Some_0;
    let (us, ue) = caps[1]->Some_0;
    &&& l.description@ == decode_utf8(bytes.subrange(ds as int, de as int))
    &&& l.url@ == decode_utf8(bytes.subrange(us as int, ue as int))
    &&& (l.start.line as int, l.start.column as int) == position_of(bytes, ds as int)
}

/// True when every match holds a span for both groups.
pub open spec fn both_groups_present(spans: Seq<Seq<Option<(usize, usize)>>>) -> bool {
    forall|m: int, k: int| 0 <= m < spans.len() && 0 <= k < 2 ==> spans[m].len() == 2 && #[trigger] spans[m][k] is Some
}

/// The names of the groups of the reference link regular expression, in the order read.
pub open spec fn link_groups() -> Seq<Seq<char>> {
    seq!["description"@, "url"@]
}

/// The text of a link: its note's name, an arrow and its description in brackets.
pub open spec fn link_text(parent: Seq<char>, description: Seq<char>) -> Seq<char> {
    parent + " -> ["@ + description + "]"@
}

/// True when `s` is how link `l` is shown in the list: its note's name painted in the parent
/// color and its description in the color of its kind of destination.
pub open spec fn link_display(s: Seq<char>, l: Link) -> bool {
    exists|p: Seq<char>, d: Seq<char>|
        #![trigger link_text(p, d)]
        {
            let pc = l.color_scheme.links.parent_name.0;
            let dc = description_color(l.link, l.color_scheme.links).0;
            &&& painted_truecolor(p, l.parent_name@, pc.r, pc.g, pc.b)
            &&& painted_truecolor(d, l.description@, dc.r, dc.g, dc.b)
            &&& s == link_text(p, d)
        }
}

/// Whether `std::path::Path::is_relative` holds of the path `p`: a function of its text.
pub uninterp spec fn path_is_relative(p: Seq<char>) -> bool;

/// The text of `std::path::Path::parent` of the path `p`, or empty text when it has none.
pub uninterp spec fn path_parent(p: Seq<char>) -> Seq<char>;

/// The text of `std::path::Path::join` of the paths `base` and `p`.
pub uninterp spec fn path_join(base: Seq<char>, p: Seq<char>) -> Seq<char>;

/// `std::path::Path::is_relative`.
#[verifier::external_body]
fn is_relative_path(p: &str) -> (b: bool)
    ensures
        b == path_is_relative(p@),
{
    std::path::Path::new(p).is_relative()
}

/// `std::path::Path::parent`, as text; empty text for a path without a parent.
#[verifier::external_body]
fn parent_path(p: &str) -> (r: String)
    ensures
        r@ == path_parent(p@),
{
    std::path::Path::new(p).parent().map(|q| q.to_string_lossy().into_owned()).unwrap_or_default()
}

/// `std::path::Path::join`, as text.
#[verifier::external_body]
fn join_path(base: &str, p: &str) -> (r: String)
    ensures
        r@ == path_join(base@, p@),
{
    std::path::Path::new(base).join(p).to_string_lossy().into_owned()
}

/// The path that a file link of the note stored at `note_file` points to: a relative `path`
/// is taken from the note's directory, an absolute one as it is.
pub fn resolve_link_path(note_file: &str, path: &str) -> (r: String)
    ensures
        r@ == if path_is_relative(path@) {
            path_join(path_parent(note_file@), path@)
        } else {
            path@
        },
{
    if is_relative_path(path) {
        let parent = parent_path(note_file);
        join_path(parent.as_str(), path)
    } else {
        String::from_str(path)
    }
}

/// With its colors taken out, a link shown in the list reads `parent -> [description]`, as
/// its plain text does, whatever its kind of destination (when neither its note's name nor its
/// description holds an escape character).
pub proof fn lemma_link_display_reads_as_text(l: Link, s: Seq<char>)
    requires
        link_display(s, l),
        no_escape(l.parent_name@),
        no_escape(l.description@),
    ensures
        strip_escapes(s) == link_text(l.parent_name@, l.description@),
{
    let pc = l.color_scheme.links.parent_name.0;
    let dc = description_color(l.link, l.color_scheme.links).0;
    let (p, d) = choose|p: Seq<char>, d: Seq<char>|
        #![trigger link_text(p, d)]
        painted_truecolor(p, l.parent_name@, pc.r, pc.g, pc.b) && painted_truecolor(
            d,
            l.description@,
            dc.r,
            dc.g,
            dc.b,
        ) && s == link_text(p, d);
    lemma_painted_reads_as(p, l.parent_name@, pc.r, pc.g, pc.b);
    lemma_painted_reads_as(d, l.description@, dc.r, dc.g, dc.b);
    reveal_strlit(" -> [");
    reveal_strlit("]");
    lemma_plain_reads_as(" -> ["@);
    lemma_plain_reads_as("]"@);
    lemma_reads_as_concat(p, l.parent_name@, " -> ["@, " -> ["@);
    lemma_reads_as_concat(p + " -> ["@, l.parent_name@ + " -> ["@, d, l.description@);
    lemma_reads_as_concat(p + " -> ["@ + d, l.parent_name@ + " -> ["@ + l.description@, "]"@, "]"@);
}

impl Link {
    /// The color scheme the link is shown with.
    pub open spec fn spec_color_scheme(&self) -> ColorScheme {
        self.color_scheme
    }

    /// The color scheme the link is shown with.
    pub fn color_scheme(&self) -> (c: ColorScheme)
        ensures
            c == self.spec_color_scheme(),
    {
        self.color_scheme
    }

    /// A link of the note named `parent_name`, stored in `parent_note`, to `link`, whose
    /// description starts at `start`; nothing computed for display yet.
    pub fn with_destination(
        description: String,
        link: Destination,
        parent_note: String,
        parent_name: String,
        start: EditorPosition,
        color_scheme: ColorScheme,
    ) -> (l: Link)
        ensures
            l.description == description,
            l.link == link,
            l.containing_file_name == parent_note,
            l.parent_name == parent_name,
            l.start == start,
            l.spec_color_scheme() == color_scheme,
            l.display_item is None,
            l.preview_item is None,
    {
        Link {
            parent_name,
            description,
            link,
            preview_item: None,
            display_item: None,
            start,
            containing_file_name: parent_note,
            color_scheme,
        }
    }

    /// A link to a code block that starts at `line` and `column` of the note.
    pub fn new_code_block(
        parent_note: String,
        parent_name: String,
        description: String,
        code_block: String,
        syntax_label: String,
        line: usize,
        column: usize,
        color_scheme: ColorScheme,
    ) -> (l: Link)
        ensures
            l.description == description,
            l.link == (Destination::CodeBlock { code_block, syntax_label }),
            l.containing_file_name == parent_note,
            l.parent_name == parent_name,
            l.start == (EditorPosition { line, column }),
            l.spec_color_scheme() == color_scheme,
            l.display_item is None,
            l.preview_item is None,
    {
        Link::with_destination(
            description,
            Destination::CodeBlock { code_block, syntax_label },
            parent_note,
            parent_name,
            EditorPosition { line, column },
            color_scheme,
        )
    }

    /// The destination of a path, from whether the file system calls it a file or a directory
    /// and the line number the link names: a file, a line of a file, a directory, or broken
    /// (a directory with a line number keeps the number).
    pub fn fs_destination(path: String, is_file: bool, is_dir: bool, line: Option<u64>) -> (d: Destination)
        ensures
            d == fs_destination(path, is_file, is_dir, line),
    {
        match (is_file, is_dir, line) {
            (true, false, None) => Destination::File { file: path },
            (true, false, Some(line_suffix)) => Destination::FileLine { file: path, line_number: line_suffix },
            (false, true, None) => Destination::Dir { dir: path },
            (false, true, Some(l)) => Destination::Broken(path, Some(l)),
            _ => Destination::Broken(path, None),
        }
    }

    /// The target that a link's text names, given whether the text matches the url regular
    /// expression and whether it matches the line suffix one; `None` when the latter matches
    /// a text without `:`.
    pub fn target_from_matches(link: &str, is_url: bool, has_line: bool) -> (t: Option<LinkTarget>)
        ensures
            match t {
                Some(x) => target_of(link@, is_url, has_line) == Some(target_view(x)),
                None => target_of(link@, is_url, has_line) is None,
            },
    {
        if is_url {
            return Some(LinkTarget::Url(String::from_str(link)));
        }
        if has_line {
            match rsplit_once_char(link, ':') {
                Some((before, after)) => {
                    let line = parse_u64(after.as_str());
                    proof {
                        let s = link@;
                        let k = choose|k: int|
                            0 <= k < s.len() && s[k] == ':' && forall|j: int| k < j < s.len() ==> s[j] != ':';
                        let k2 = choose|k2: int|
                            0 <= k2 < s.len() && s[k2] == ':' && (forall|j: int| k2 < j < s.len() ==> s[j] != ':')
                                && before@ == s.subrange(0, k2) && after@ == s.subrange(k2 + 1, s.len() as int);
                        if k < k2 {
                            assert(s[k2] != ':');
                        } else if k > k2 {
                            assert(s[k] != ':');
                        }
                    }
                    Some(LinkTarget::Path { path: before, line })
                },
                None => None,
            }
        } else {
            Some(LinkTarget::Path { path: String::from_str(link), line: None })
        }
    }

    /// The target that a link's text names, by the url and line suffix regular expressions of
    /// `surf`; `None` when the line suffix expression matches a text without `:`.
    pub fn target(link: &str, surf: &SurfParsing) -> (t: Option<LinkTarget>)
        requires
            surf.wf(),
        ensures
            regex_is_match(surf.url_regex.pattern_view(), link@) matches Some(is_url) && regex_is_match(
                surf.has_line_regex.pattern_view(),
                link@,
            ) matches Some(has_line) && match t {
                Some(x) => target_of(link@, is_url, has_line) == Some(target_view(x)),
                None => target_of(link@, is_url, has_line) is None,
            },
    {
        let is_url = is_match(surf.url_regex.as_str(), link).unwrap();
        let has_line = is_match(surf.has_line_regex.as_str(), link).unwrap();
        Link::target_from_matches(link, is_url, has_line)
    }

    /// The markdown reference links that the matches with complete group spans `spans`
    /// describe in `content`, in order.
    pub fn reference_links_from_spans(content: &str, spans: &Vec<Vec<Option<(usize, usize)>>>) -> (links: Vec<RawLink>)
        requires
            content.spec_bytes().len() < usize::MAX,
            both_groups_present(spans_view(spans@)),
            spans_in_text(spans_view(spans@), content.spec_bytes(), 2),
        ensures
            links@.len() == spans@.len(),
            forall|i: int|
                0 <= i < links@.len() ==> raw_link_of_match(
                    #[trigger] links@[i],
                    content.spec_bytes(),
                    spans@[i]@,
                ),
    {
        let mut links: Vec<RawLink> = Vec::new();
        let mut i: usize = 0;
        while i < spans.len()
            invariant
                i <= spans@.len(),
                content.spec_bytes().len() < usize::MAX,
                both_groups_present(spans_view(spans@)),
                spans_in_text(spans_view(spans@), content.spec_bytes(), 2),
                links@.len() == i,
                forall|j: int|
                    0 <= j < i ==> raw_link_of_match(#[trigger] links@[j], content.spec_bytes(), spans@[j]@),
            decreases spans@.len() - i,
        {
            let caps = &spans[i];
            proof {
                assert(spans_view(spans@)[i as int] == caps@);
                assert(spans_view(spans@)[i as int][0] is Some);
                assert(spans_view(spans@)[i as int][1] is Some);
            }
            let (ds, de) = caps[0].unwrap();
            let (us, ue) = caps[1].unwrap();
            proof {
                assert(spans_view(spans@)[i as int][0] == caps@[0]);
                assert(spans_view(spans@)[i as int][1] == caps@[1]);
            }
            let description = byte_substring(content, ds, de);
            let url = byte_substring(content, us, ue);
            let start = find_position(content, ds);
            links.push(RawLink { description, url, start });
            i = i + 1;
        }
        links
    }

    /// The markdown reference links that the reference link regular expression of `surf` finds
    /// in `content`, in order; `None` when some match lacks the group `description` or `url`.
    pub fn reference_links(content: &str, surf: &SurfParsing) -> (r: Option<Vec<RawLink>>)
        requires
            surf.wf(),
            content.spec_bytes().len() < usize::MAX,
        ensures
            r is Some <==> (regex_capture_spans(surf.markdown_reference_link_regex.pattern_view(), content@, link_groups())
                matches Some(spans) && both_groups_present(spans)),
            r matches Some(links) ==> (regex_capture_spans(
                surf.markdown_reference_link_regex.pattern_view(),
                content@,
                link_groups(),
            ) matches Some(spans) && links@.len() == spans.len() && forall|i: int|
                0 <= i < links@.len() ==> raw_link_of_match(#[trigger] links@[i], content.spec_bytes(), spans[i])),
    {
        let mut groups: Vec<String> = Vec::new();
        groups.push(String::from_str("description"));
        groups.push(String::from_str("url"));
        proof {
            reveal_strlit("description");
            reveal_strlit("url");
            assert(names_view(groups@) =~= link_groups());
        }
        let spans = match capture_spans(surf.markdown_reference_link_regex.as_str(), content, &groups) {
            Some(s) => s,
            None => {
                return None;
            },
        };
        let mut m: usize = 0;
        while m < spans.len()
            invariant
                m <= spans@.len(),
                Some(spans_view(spans@)) == regex_capture_spans(
                    surf.markdown_reference_link_regex.pattern_view(),
                    content@,
                    link_groups(),
                ),
                spans_in_text(spans_view(spans@), content.spec_bytes(), 2),
                forall|j: int, k: int|
                    0 <= j < m && 0 <= k < 2 ==> spans_view(spans@)[j].len() == 2
                        && #[trigger] spans_view(spans@)[j][k] is Some,
            decreases spans@.len() - m,
        {
            if spans[m].len() != 2 || spans[m][0].is_none() || spans[m][1].is_none() {
                proof {
                    let k: int = if spans@[m as int]@.len() != 2 {
                        0
                    } else if spans@[m as int]@[0] is None {
                        0
                    } else {
                        1
                    };
                    assert(!(spans_view(spans@)[m as int].len() == 2 && spans_view(spans@)[m as int][k] is Some));
                }
                return None;
            }
            m = m + 1;
        }
        assert(both_groups_present(spans_view(spans@)));
        Some(Link::reference_links_from_spans(content, &spans))
    }

    /// The text of the link: `parent -> [description]`.
    pub fn text(&self) -> (s: String)
        ensures
            s@ == link_text(self.parent_name@, self.description@),
    {
        let a = concat2(self.parent_name.as_str(), " -> [");
        let b = concat2(a.as_str(), self.description.as_str());
        concat2(b.as_str(), "]")
    }

    /// The link for the list of links: its note's name in the parent color and its
    /// description in the color of its kind of destination.
    pub fn skim_display(&self) -> (s: String)
        ensures
            link_display(s@, *self),
    {
        let links = self.color_scheme.links;
        let pc = links.parent_name.0;
        let parent_name = paint_truecolor(self.parent_name.as_str(), pc.r, pc.g, pc.b);
        let dc = match self.link {
            Destination::Url(..) => links.url.0,
            Destination::File { .. } | Destination::FileLine { .. } => links.file.0,
            Destination::Dir { .. } => links.dir.0,
            Destination::Broken(..) => links.broken.0,
            Destination::CodeBlock { .. } => links.code_block.0,
        };
        let description = paint_truecolor(self.description.as_str(), dc.r, dc.g, dc.b);
        let a = concat2(parent_name.as_str(), " -> [");
        let b = concat2(a.as_str(), description.as_str());
        let r = concat2(b.as_str(), "]");
        assert(r@ == link_text(parent_name@, description@));
        r
    }

    /// Computes the text shown for the link in the list.
    pub fn prepare_display(&mut self)
        ensures
            final(self).display_item matches Some(s) && link_display(s@, *old(self)),
            *final(self) == (Link { display_item: final(self).display_item, ..*old(self) }),
    {
        let input = self.skim_display();
        self.display_item = Some(input);
    }

    /// Stores the preview computed for the link.
    pub fn set_preview(&mut self, preview: String)
        ensures
            *final(self) == (Link { preview_item: Some(preview), ..*old(self) }),
    {
        self.preview_item = Some(preview);
    }
}

/// The line shown after the path of a broken link: `<line:N>` when the link names line `N`.
pub open spec fn broken_line_text(line: Option<u64>) -> Seq<char> {
    match line {
        Some(l) => "<line:"@ + decimal(l as nat) + ">"@,
        None => Seq::empty(),
    }
}

/// True when `plan` previews destination `d` with the commands `preview` and colors `colors`.
pub open spec fn preview_plan_of(plan: PreviewPlan, d: Destination, preview: Preview, colors: ColorScheme) -> bool {
    match d {
        Destination::Url(url) => plan matches PreviewPlan::Text(t) && painted_truecolor(
            t@,
            url@,
            colors.links.url.0.r,
            colors.links.url.0.g,
            colors.links.url.0.b,
        ),
        Destination::File { file } => plan matches PreviewPlan::Command(c) && replaced_first(
            c,
            preview.file_cmd,
            "$FILE"@,
            file@,
        ),
        Destination::FileLine { file, line_number } => plan matches PreviewPlan::Command(c) && c.command@
            == preview.file_line_cmd.command@ && arg_views(c) == replaced_in_all(
            arg_views(preview.file_line_cmd),
            seq![
                ("$FILE"@, file@),
                ("$FIRST"@, decimal(preview_first_line(line_number) as nat)),
                ("$LAST"@, decimal(preview_last_line(line_number) as nat)),
                ("$LINE"@, decimal(line_number as nat)),
            ],
        ),
        Destination::Dir { dir } => plan matches PreviewPlan::Command(c) && replaced_first(
            c,
            preview.dir_cmd,
            "$DIR"@,
            dir@,
        ),
        Destination::Broken(path, line) => plan matches PreviewPlan::Text(t) && exists|p: Seq<char>|
            painted_truecolor(
                p,
                path@,
                colors.links.broken.0.r,
                colors.links.broken.0.g,
                colors.links.broken.0.b,
            ) && t@ == "Broken path: "@ + p + " "@ + broken_line_text(line),
        Destination::CodeBlock { code_block, syntax_label } => plan matches PreviewPlan::Highlight {
            code,
            syntax_label: label,
        } && code@ == code_block@ && label@ == syntax_label@,
    }
}

/// True when `plan` opens destination `d` with the commands `cfg`; `Err` carries the path of
/// a broken link, which cannot be opened.
pub open spec fn open_plan_of(plan: Result<OpenPlan, String>, d: Destination, cfg: Open) -> bool {
    match d {
        Destination::Url(url) => plan matches Ok(p) && replaced_first(p.cmd, cfg.url_cmd, "$URL"@, url@)
            && !p.substitute_program && p.run_in_dir_of is None && p.stdin is None,
        Destination::File { file } => plan matches Ok(p) && replaced_first(
            p.cmd,
            cfg.file_cmd,
            "$FILE"@,
            file@,
        ) && p.substitute_program && p.run_in_dir_of is None && p.stdin is None,
        Destination::FileLine { file, line_number } => plan matches Ok(p) && p.cmd.command@
            == cfg.file_jump_cmd.command@ && arg_views(p.cmd) == replaced_in_all(
            arg_views(cfg.file_jump_cmd),
            seq![("$FILE"@, file@), ("$LINE"@, decimal(line_number as nat)), ("$COLUMN"@, "1"@)],
        ) && p.substitute_program && p.run_in_dir_of == Some(file) && p.stdin is None,
        Destination::Dir { dir } => plan matches Ok(p) && replaced_first(p.cmd, cfg.dir_cmd, "$DIR"@, dir@)
            && !p.substitute_program && p.run_in_dir_of is None && p.stdin is None,
        Destination::Broken(path, _) => plan matches Err(e) && e@ == path@,
        Destination::CodeBlock { code_block, .. } => plan matches Ok(p) && p.cmd.command@
            == cfg.pipe_text_snippet_cmd.command@ && arg_views(p.cmd) == arg_views(cfg.pipe_text_snippet_cmd)
            && !p.substitute_program && p.run_in_dir_of is None && (p.stdin matches Some(i) && i@
            == code_block@),
    }
}

/// True when `out` is the arguments `args` with `value` in the place of the first one that is
/// exactly `placeholder`, every other argument kept.
pub open spec fn fills_first(out: Seq<Seq<char>>, args: Seq<Seq<char>>, placeholder: Seq<char>, value: Seq<char>) -> bool {
    &&& out.len() == args.len()
    &&& forall|i: int| 0 <= i < args.len() && args[i] != placeholder ==> #[trigger] out[i] == args[i]
    &&& forall|i: int|
        0 <= i < args.len() && args[i] == placeholder && (forall|j: int| 0 <= j < i ==> args[j] != placeholder)
            ==> #[trigger] out[i] == value
    &&& forall|i: int, j: int|
        0 <= j < i < args.len() && args[j] == placeholder && args[i] == placeholder ==> #[trigger] out[i] == args[i]
            && #[trigger] args[j] == placeholder
}

/// Each kind of link opens with the command configured for that kind: a url with the url
/// command, a file with the file command, a line of a file with the jump command, a
/// directory with the directory command, a code block piped into the snippet command; a
/// broken link opens with none and gives back its path. The path, url or directory takes the
/// place of the command's first `$FILE`, `$URL` or `$DIR` argument, and nothing else changes.
pub proof fn lemma_links_open_with_their_kind_command(plan: Result<OpenPlan, String>, d: Destination, cfg: Open)
    requires
        open_plan_of(plan, d, cfg),
    ensures
        d matches Destination::File { file } ==> (plan matches Ok(p) && p.cmd.command@ == cfg.file_cmd.command@
            && fills_first(arg_views(p.cmd), arg_views(cfg.file_cmd), "$FILE"@, file@) && p.substitute_program),
        d matches Destination::Dir { dir } ==> (plan matches Ok(p) && p.cmd.command@ == cfg.dir_cmd.command@
            && fills_first(arg_views(p.cmd), arg_views(cfg.dir_cmd), "$DIR"@, dir@) && !p.substitute_program),
        d matches Destination::Url(url) ==> (plan matches Ok(p) && p.cmd.command@ == cfg.url_cmd.command@
            && fills_first(arg_views(p.cmd), arg_views(cfg.url_cmd), "$URL"@, url@) && !p.substitute_program),
        d is FileLine ==> (plan matches Ok(p) && p.cmd.command@ == cfg.file_jump_cmd.command@),
        d matches Destination::CodeBlock { code_block, .. } ==> (plan matches Ok(p) && p.cmd.command@
            == cfg.pipe_text_snippet_cmd.command@ && (p.stdin matches Some(i) && i@ == code_block@)),
        d matches Destination::Broken(path, _) ==> (plan matches Err(e) && e@ == path@),
{
    match d {
        Destination::File { file } => lemma_replaced_first_fills(plan->Ok_0.cmd, cfg.file_cmd, "$FILE"@, file@),
        Destination::Dir { dir } => lemma_replaced_first_fills(plan->Ok_0.cmd, cfg.dir_cmd, "$DIR"@, dir@),
        Destination::Url(url) => lemma_replaced_first_fills(plan->Ok_0.cmd, cfg.url_cmd, "$URL"@, url@),
        _ => {},
    }
}

/// A link to a file and a link to a directory with the same path open with different commands
/// whenever the file and directory commands differ: neither stands in for the other.
pub proof fn lemma_files_and_dirs_open_apart(
    pf: Result<OpenPlan, String>,
    pd: Result<OpenPlan, String>,
    path: String,
    cfg: Open,
)
    requires
        open_plan_of(pf, Destination::File { file: path }, cfg),
        open_plan_of(pd, Destination::Dir { dir: path }, cfg),
        cfg.file_cmd.command@ != cfg.dir_cmd.command@,
    ensures
        pf->Ok_0.cmd.command@ != pd->Ok_0.cmd.command@,
{
}

/// Each kind of link is previewed as its kind calls for: a directory with the directory
/// preview command, a file with the file preview command, a line of a file with the
/// file-from-a-line command, each with the path in place of the first `$DIR` or `$FILE`
/// argument; a code block is highlighted as its syntax label says; a url is shown as text.
pub proof fn lemma_links_preview_with_their_kind_command(plan: PreviewPlan, d: Destination, preview: Preview, colors: ColorScheme)
    requires
        preview_plan_of(plan, d, preview, colors),
    ensures
        d matches Destination::Dir { dir } ==> (plan matches PreviewPlan::Command(c) && c.command@
            == preview.dir_cmd.command@ && fills_first(arg_views(c), arg_views(preview.dir_cmd), "$DIR"@, dir@)),
        d matches Destination::File { file } ==> (plan matches PreviewPlan::Command(c) && c.command@
            == preview.file_cmd.command@ && fills_first(arg_views(c), arg_views(preview.file_cmd), "$FILE"@, file@)),
        d is FileLine ==> (plan matches PreviewPlan::Command(c) && c.command@ == preview.file_line_cmd.command@),
        d matches Destination::CodeBlock { code_block, syntax_label } ==> (plan matches PreviewPlan::Highlight {
            code,
            syntax_label: label,
        } && code@ == code_block@ && label@ == syntax_label@),
        d is Url ==> (plan is Text),
        d is Broken ==> (plan is Text),
{
    match d {
        Destination::Dir { dir } => lemma_replaced_first_fills(plan->Command_0, preview.dir_cmd, "$DIR"@, dir@),
        Destination::File { file } => lemma_replaced_first_fills(plan->Command_0, preview.file_cmd, "$FILE"@, file@),
        _ => {},
    }
}

pub(crate) proof fn lemma_replaced_first_fills(r: CmdTemplate, t: CmdTemplate, placeholder: Seq<char>, value: Seq<char>)
    requires
        replaced_first(r, t, placeholder, value),
    ensures
        fills_first(arg_views(r), arg_views(t), placeholder, value),
{
    let out = arg_views(r);
    let args = arg_views(t);
    assert forall|i: int| 0 <= i < args.len() && args[i] != placeholder implies #[trigger] out[i] == args[i] by {
        assert(r.args@[i]@ == t.args@[i]@);
    }
    assert forall|i: int|
        0 <= i < args.len() && args[i] == placeholder && (forall|j: int| 0 <= j < i ==> args[j] != placeholder)
        implies #[trigger] out[i] == value by {
        assert(is_first_match(args, placeholder, i));
        assert(r.args@[i]@ == value);
    }
    assert forall|i: int, j: int|
        0 <= j < i < args.len() && args[j] == placeholder && args[i] == placeholder implies #[trigger] out[i]
        == args[i] && #[trigger] args[j] == placeholder by {
        assert(!is_first_match(args, placeholder, i));
        assert(r.args@[i]@ == t.args@[i]@);
    }
}

pub(crate) fn replace_in_three(
    cmd: &CmdTemplate,
    p1: &str,
    v1: &str,
    p2: &str,
    v2: &str,
    p3: &str,
    v3: &str,
) -> (r: CmdTemplate)
    ensures
        r.command@ == cmd.command@,
        arg_views(r) == replaced_in_all(arg_views(*cmd), seq![(p1@, v1@), (p2@, v2@), (p3@, v3@)]),
{
    let mut c = cmd.duplicate();
    let ghost a0 = arg_views(c);
    c.replace_in_matching_element(p1, v1);
    let ghost a1 = arg_views(c);
    c.replace_in_matching_element(p2, v2);
    let ghost a2 = arg_views(c);
    c.replace_in_matching_element(p3, v3);
    proof {
        let subs = seq![(p1@, v1@), (p2@, v2@), (p3@, v3@)];
        assert(a0 =~= arg_views(*cmd));
        assert(a1 =~= a0.map_values(|a: Seq<char>| crate::config::cmd_template::replaced_within(a, subs[0].0, subs[0].1)));
        assert(a2 =~= a1.map_values(|a: Seq<char>| crate::config::cmd_template::replaced_within(a, subs[1].0, subs[1].1)));
        assert(arg_views(c) =~= a2.map_values(|a: Seq<char>| crate::config::cmd_template::replaced_within(a, subs[2].0, subs[2].1)));
        assert(subs.drop_first().drop_first().drop_first() =~= Seq::<(Seq<char>, Seq<char>)>::empty());
        reveal_with_fuel(replaced_in_all, 4);
        assert(subs.drop_first()[0] == subs[1]);
        assert(subs.drop_first().drop_first()[0] == subs[2]);
    }
    c
}

impl Link {
    /// A link to a url.
    pub fn new_url(
        description: String,
        url: String,
        parent_note: String,
        parent_name: String,
        start: EditorPosition,
        color_scheme: ColorScheme,
    ) -> (l: Link)
        ensures
            l.description == description,
            l.link == Destination::Url(url),
            l.containing_file_name == parent_note,
            l.parent_name == parent_name,
            l.start == start,
            l.color_scheme == color_scheme,
            l.display_item is None,
            l.preview_item is None,
    {
        Link::with_destination(description, Destination::Url(url), parent_note, parent_name, start, color_scheme)
    }

    /// A link to a path of the file system, of which the file system says whether it is a file
    /// or a directory; `line` is the line number the link names.
    pub fn new_fs(
        description: String,
        path: String,
        is_file: bool,
        is_dir: bool,
        line: Option<u64>,
        parent_note: String,
        parent_name: String,
        start: EditorPosition,
        color_scheme: ColorScheme,
    ) -> (l: Link)
        ensures
            l.description == description,
            l.link == fs_destination(path, is_file, is_dir, line),
            l.containing_file_name == parent_note,
            l.parent_name == parent_name,
            l.start == start,
            l.color_scheme == color_scheme,
            l.display_item is None,
            l.preview_item is None,
    {
        let d = Link::fs_destination(path, is_file, is_dir, line);
        Link::with_destination(description, d, parent_note, parent_name, start, color_scheme)
    }

    /// How the preview of the link is computed.
    pub fn preview_plan(&self, preview_cmds: &Preview, color_scheme: ColorScheme) -> (plan: PreviewPlan)
        ensures
            preview_plan_of(plan, self.link, *preview_cmds, color_scheme),
    {
        match &self.link {
            Destination::Url(url) => {
                let c = color_scheme.links.url.0;
                PreviewPlan::Text(paint_truecolor(url.as_str(), c.r, c.g, c.b))
            },
            Destination::File { file } => PreviewPlan::Command(file_preview_cmd(&preview_cmds.file_cmd, file.as_str())),
            Destination::FileLine { file, line_number } => PreviewPlan::Command(
                file_range_preview_cmd(&preview_cmds.file_line_cmd, file.as_str(), *line_number),
            ),
            Destination::Dir { dir } => PreviewPlan::Command(dir_preview_cmd(&preview_cmds.dir_cmd, dir.as_str())),
            Destination::Broken(broken, line) => {
                let line_text = match line {
                    Some(l) => {
                        let n = u64_to_string(*l);
                        let a = concat2("<line:", n.as_str());
                        concat2(a.as_str(), ">")
                    },
                    None => String::new(),
                };
                let c = color_scheme.links.broken.0;
                let painted = paint_truecolor(broken.as_str(), c.r, c.g, c.b);
                let a = concat2("Broken path: ", painted.as_str());
                let b = concat2(a.as_str(), " ");
                let t = concat2(b.as_str(), line_text.as_str());
                assert(line_text@ == broken_line_text(*line));
                PreviewPlan::Text(t)
            },
            Destination::CodeBlock { code_block, syntax_label } => PreviewPlan::Highlight {
                code: code_block.clone(),
                syntax_label: syntax_label.clone(),
            },
        }
    }

    /// How the link is opened with the commands `cfg`; a broken link cannot be, and its path
    /// is returned.
    pub fn open_plan(&self, cfg: &Open) -> (plan: Result<OpenPlan, String>)
        ensures
            open_plan_of(plan, self.link, *cfg),
    {
        match &self.link {
            Destination::Url(url) => {
                let mut cmd = cfg.url_cmd.duplicate();
                cmd.replace_matching_element("$URL", url.as_str());
                Ok(OpenPlan { cmd, substitute_program: false, run_in_dir_of: None, stdin: None })
            },
            Destination::File { file } => {
                let mut cmd = cfg.file_cmd.duplicate();
                cmd.replace_matching_element("$FILE", file.as_str());
                Ok(OpenPlan { cmd, substitute_program: true, run_in_dir_of: None, stdin: None })
            },
            Destination::FileLine { file, line_number } => {
                let line = u64_to_string(*line_number);
                let cmd = replace_in_three(
                    &cfg.file_jump_cmd,
                    "$FILE",
                    file.as_str(),
                    "$LINE",
                    line.as_str(),
                    "$COLUMN",
                    "1",
                );
                Ok(OpenPlan { cmd, substitute_program: true, run_in_dir_of: Some(file.clone()), stdin: None })
            },
            Destination::Dir { dir } => {
                let mut cmd = cfg.dir_cmd.duplicate();
                cmd.replace_matching_element("$DIR", dir.as_str());
                Ok(OpenPlan { cmd, substitute_program: false, run_in_dir_of: None, stdin: None })
            },
            Destination::Broken(broken, _line) => Err(broken.clone()),
            Destination::CodeBlock { code_block, .. } => {
                let cmd = cfg.pipe_text_snippet_cmd.duplicate();
                Ok(OpenPlan { cmd, substitute_program: false, run_in_dir_of: None, stdin: Some(code_block.clone()) })
            },
        }
    }

    /// How to jump to the link in its note with the commands `cfg`: inside the arguments of
    /// the file jump command, `$FILE` becomes the note's file, `$LINE` and `$COLUMN` the
    /// position of the link's description.
    pub fn jump_plan(&self, cfg: &Open) -> (plan: OpenPlan)
        ensures
            plan.cmd.command@ == cfg.file_jump_cmd.command@,
            arg_views(plan.cmd) == replaced_in_all(
                arg_views(cfg.file_jump_cmd),
                seq![
                    ("$FILE"@, self.containing_file_name@),
                    ("$LINE"@, decimal(self.start.line as nat)),
                    ("$COLUMN"@, decimal(self.start.column as nat)),
                ],
            ),
            plan.substitute_program,
            plan.run_in_dir_of is None,
            plan.stdin is None,
    {
        let line = usize_to_string(self.start.line);
        let column = usize_to_string(self.start.column);
        let cmd = replace_in_three(
            &cfg.file_jump_cmd,
            "$FILE",
            self.containing_file_name.as_str(),
            "$LINE",
            line.as_str(),
            "$COLUMN",
            column.as_str(),
        );
        OpenPlan { cmd, substitute_program: true, run_in_dir_of: None, stdin: None }
    }

    /// What the desktop opener is given for the link: the url, file or directory; a broken
    /// link's path, which cannot be opened; nothing for a code block.
    pub fn xdg_target(&self) -> (t: XdgTarget)
        ensures
            match self.link {
                Destination::Url(u) => t == XdgTarget::Open(u),
                Destination::File { file } | Destination::FileLine { file, .. } => t == XdgTarget::Open(file),
                Destination::Dir { dir } => t == XdgTarget::Open(dir),
                Destination::Broken(path, _) => t == XdgTarget::Broken(path),
                Destination::CodeBlock { .. } => t == XdgTarget::Snippet,
            },
    {
        match &self.link {
            Destination::Url(url) => XdgTarget::Open(url.clone()),
            Destination::File { file } | Destination::FileLine { file, .. } => XdgTarget::Open(file.clone()),
            Destination::Dir { dir } => XdgTarget::Open(dir.clone()),
            Destination::Broken(broken, _) => XdgTarget::Broken(broken.clone()),
            Destination::CodeBlock { .. } => XdgTarget::Snippet,
        }
    }
}

} // verus!
