use vstd::prelude::*;

pub mod task_tree_build;
pub mod tree_build;
pub mod details;
pub mod links_term_tree;
pub mod random;
pub mod render;
pub mod reachable;
pub mod task_items_term_tree;
use crate::config::color::ColorScheme;
use crate::config::{ExternalCommands, Open, SurfParsing};
use crate::external_commands::{arg_views, replaced_first};
use crate::link::{fills_first, lemma_replaced_first_fills};
use crate::link::OpenPlan;
use crate::print::{paint_truecolor, painted_truecolor};
use crate::text::{concat2, i64_to_string, signed_decimal, str_eq};
use crate::note::random::{is_ascii_alphanumeric, rand_suffix};
use crate::highlight::{highlight_markdown, markdown_highlight, MarkdownStatic};

verus! {

broadcast use vstd::string::group_string_axioms;

/// What the preview pane shows for a note.
#[derive(Clone, Debug, Copy, PartialEq, Eq, Hash)]
pub enum PreviewType {
    Details,
    LinkStructure,
    TaskStructure,
}

impl PreviewType {
    /// The preview type that follows this one in the cycle details, link structure, task
    /// structure.
    pub open spec fn spec_next(self) -> PreviewType {
        match self {
            PreviewType::Details => PreviewType::LinkStructure,
            PreviewType::LinkStructure => PreviewType::TaskStructure,
            PreviewType::TaskStructure => PreviewType::Details,
        }
    }

    /// The next preview type in the cycle.
    pub fn toggle(&self) -> (r: Self)
        ensures
            r == self.spec_next(),
    {
        match self {
            Self::Details => Self::LinkStructure,
            Self::LinkStructure => Self::TaskStructure,
            Self::TaskStructure => Self::Details,
        }
    }
}

impl Default for PreviewType {
    /// The preview type that notes start with: the link structure.
    fn default() -> (r: Self)
        ensures
            r == PreviewType::LinkStructure,
    {
        Self::LinkStructure
    }
}

/// Toggling the preview type three times gives back the type one started with, and each of
/// the three types is reached on the way.
pub proof fn lemma_toggle_cycles(p: PreviewType, q: PreviewType)
    ensures
        p.spec_next().spec_next().spec_next() == p,
        p.spec_next() != p,
        p.spec_next().spec_next() != p,
        q == p || q == p.spec_next() || q == p.spec_next().spec_next(),
{
}

/// The view of an optional string.
pub open spec fn opt_string_view(o: Option<String>) -> Option<Seq<char>> {
    match o {
        Some(s) => Some(s@),
        None => None,
    }
}

/// What a note needs to compute its preview, and the preview once computed.
#[derive(Clone, Debug)]
pub struct DynResources {
    pub external_commands: ExternalCommands,
    pub surf_parsing: SurfParsing,
    pub preview_type: PreviewType,
    pub preview_result: Option<String>,
}

/// A note: a markdown file with a name, or a tag, which has a name and no file.
#[derive(Clone, Debug)]
pub enum Note {
    MdFile {
        name: String,
        file_path: String,
        resources: Option<DynResources>,
        name_markdown: Option<String>,
        color_scheme: ColorScheme,
    },
    Tag {
        name: String,
        resources: Option<DynResources>,
        color_scheme: ColorScheme,
    },
}

impl Note {
    /// The name of the note.
    pub open spec fn spec_name(&self) -> Seq<char> {
        match self {
            Note::MdFile { name, .. } => name@,
            Note::Tag { name, .. } => name@,
        }
    }

    /// The note with its resources replaced by `r`, all else kept.
    pub open spec fn with_resources(self, r: Option<DynResources>) -> Note {
        match self {
            Note::MdFile { name, file_path, name_markdown, color_scheme, .. } => Note::MdFile {
                name,
                file_path,
                resources: r,
                name_markdown,
                color_scheme,
            },
            Note::Tag { name, color_scheme, .. } => Note::Tag { name, resources: r, color_scheme },
        }
    }

    /// The resources of the note.
    pub open spec fn spec_resources(&self) -> Option<DynResources> {
        match self {
            Note::MdFile { resources, .. } => *resources,
            Note::Tag { resources, .. } => *resources,
        }
    }

    /// The color scheme of the note.
    pub open spec fn spec_color_scheme(&self) -> ColorScheme {
        match self {
            Note::MdFile { color_scheme, .. } => *color_scheme,
            Note::Tag { color_scheme, .. } => *color_scheme,
        }
    }

    /// The path of the note's file; `None` for a tag.
    pub open spec fn spec_file_path(&self) -> Option<Seq<char>> {
        match self {
            Note::MdFile { file_path, .. } => Some(file_path@),
            Note::Tag { .. } => None,
        }
    }

    /// A note named `name`: a markdown file when it has a file path, a tag otherwise; no
    /// resources and no rendered name yet.
    pub fn new(name: String, file_path: Option<String>, color_scheme: ColorScheme) -> (n: Self)
        ensures
            n.spec_name() == name@,
            n.spec_file_path() == opt_string_view(file_path),
            n.spec_resources() is None,
            n.spec_color_scheme() == color_scheme,
            n matches Note::MdFile { name_markdown, .. } ==> name_markdown is None,
    {
        match file_path {
            Some(file_path) => Self::MdFile {
                name,
                file_path,
                resources: None,
                name_markdown: None,
                color_scheme,
            },
            None => Self::Tag { name, resources: None, color_scheme },
        }
    }

    /// The name of the note.
    pub fn name(&self) -> (s: String)
        ensures
            s@ == self.spec_name(),
    {
        match self {
            Self::MdFile { name, .. } => name.clone(),
            Self::Tag { name, .. } => name.clone(),
        }
    }

    /// The path of the note's file; `None` for a tag.
    pub fn file_path(&self) -> (p: Option<&String>)
        ensures
            match p {
                Some(s) => self.spec_file_path() == Some(s@),
                None => self.spec_file_path() is None,
            },
    {
        match self {
            Self::MdFile { file_path, .. } => Some(file_path),
            Self::Tag { .. } => None,
        }
    }

    /// Whether the note is a tag.
    pub fn is_tag(&self) -> (b: bool)
        ensures
            b == (self.spec_file_path() is None),
    {
        match self {
            Self::MdFile { .. } => false,
            Self::Tag { .. } => true,
        }
    }

    /// The color scheme the note is shown with.
    pub fn color_scheme(&self) -> (c: ColorScheme)
        ensures
            c == self.spec_color_scheme(),
    {
        match self {
            Self::MdFile { color_scheme, .. } => *color_scheme,
            Self::Tag { color_scheme, .. } => *color_scheme,
        }
    }

    /// Whether two notes are the same note: notes are told apart by name alone.
    pub fn same_note(&self, other: &Note) -> (b: bool)
        ensures
            b == (self.spec_name() == other.spec_name()),
    {
        let a = self.name();
        let o = other.name();
        str_eq(a.as_str(), o.as_str())
    }

    /// Gives the note the resources its preview is computed with.
    pub fn set_resources(&mut self, to_set: DynResources)
        ensures
            *final(self) == old(self).with_resources(Some(to_set)),
    {
        match self {
            Self::MdFile { resources, .. } => {
                *resources = Some(to_set);
            },
            Self::Tag { resources, .. } => {
                *resources = Some(to_set);
            },
        }
    }

    /// The resources of the note, if it has been given any.
    pub fn resources(&self) -> (r: Option<&DynResources>)
        ensures
            match r {
                Some(x) => self.spec_resources() == Some(*x),
                None => self.spec_resources() is None,
            },
    {
        match self {
            Self::MdFile { resources, .. } => resources.as_ref(),
            Self::Tag { resources, .. } => resources.as_ref(),
        }
    }

    /// Stores `result` as the computed preview, when the note has resources.
    pub fn set_preview_result(&mut self, result: Option<String>)
        ensures
            *final(self) == match old(self).spec_resources() {
                Some(r) => old(self).with_resources(Some(DynResources { preview_result: result, ..r })),
                None => *old(self),
            },
    {
        match self {
            Self::MdFile { resources, .. } => {
                if let Some(r) = resources {
                    r.preview_result = result;
                }
            },
            Self::Tag { resources, .. } => {
                if let Some(r) = resources {
                    r.preview_result = result;
                }
            },
        }
    }

    /// Renders the name of a markdown note: its highlighted form (as the caller highlighted
    /// it), a space, and a space painted black. Tags are left as they are.
    pub fn set_rendered_name(&mut self, highlighted_name: &str)
        ensures
            final(self).spec_name() == old(self).spec_name(),
            final(self).spec_file_path() == old(self).spec_file_path(),
            final(self).spec_resources() == old(self).spec_resources(),
            final(self).spec_color_scheme() == old(self).spec_color_scheme(),
            *old(self) is Tag ==> *final(self) == *old(self),
            *final(self) matches Note::MdFile { name_markdown, .. } ==> (name_markdown matches Some(
                m,
            ) && exists|dark: Seq<char>|
                painted_truecolor(dark, seq![' '], 0, 0, 0) && m@ == highlighted_name@ + seq![' ']
                    + dark),
    {
        match self {
            Self::MdFile { name_markdown, .. } => {
                proof {
                    reveal_strlit(" ");
                }
                let dark = paint_truecolor(" ", 0, 0, 0);
                let head = concat2(highlighted_name, " ");
                let markdown = concat2(head.as_str(), dark.as_str());
                assert(" "@ == seq![' ']);
                assert(painted_truecolor(dark@, seq![' '], 0, 0, 0));
                *name_markdown = Some(markdown);
            },
            Self::Tag { .. } => {},
        }
    }

    /// Renames the note, and renders its new name from `highlighted_name`.
    pub fn rename_rendered(&mut self, new_name: &str, highlighted_name: &str)
        ensures
            final(self).spec_name() == new_name@,
            final(self).spec_file_path() == old(self).spec_file_path(),
            final(self).spec_resources() == old(self).spec_resources(),
            final(self).spec_color_scheme() == old(self).spec_color_scheme(),
            *final(self) matches Note::MdFile { name_markdown, .. } ==> (name_markdown matches Some(
                m,
            ) && exists|dark: Seq<char>|
                painted_truecolor(dark, seq![' '], 0, 0, 0) && m@ == highlighted_name@ + seq![' ']
                    + dark),
    {
        match self {
            Self::MdFile { name, .. } => {
                *name = String::from_str(new_name);
            },
            Self::Tag { name, .. } => {
                *name = String::from_str(new_name);
            },
        }
        self.set_rendered_name(highlighted_name);
    }

    /// The note as shown in lists: a markdown note by its rendered name, a tag by its name
    /// painted in the tag color, or in the special tag color for the tags `METATAG` and `root`.
    pub fn display(&self) -> (s: String)
        requires
            self.is_displayable(),
        ensures
            note_shown(*self, s@),
    {
        match self {
            Self::MdFile { name_markdown, .. } => match name_markdown {
                Some(m) => m.clone(),
                None => String::new(),
            },
            Self::Tag { name, color_scheme, .. } => {
                let special = str_eq(name.as_str(), "METATAG") || str_eq(name.as_str(), "root");
                let c = if special {
                    color_scheme.notes.special_tag.0
                } else {
                    color_scheme.notes.tag.0
                };
                paint_truecolor(name.as_str(), c.r, c.g, c.b)
            },
        }
    }
}

/// True when `s` is how note `n` is shown in lists: a markdown note by its rendered name, a
/// tag by its name painted in the tag color, or in the special tag color for the tags
/// `METATAG` and `root`.
pub open spec fn note_shown(n: Note, s: Seq<char>) -> bool {
    match n {
        Note::MdFile { name_markdown, .. } => s == name_markdown->Some_0@,
        Note::Tag { name, color_scheme, .. } => {
            let c = if name@ == "METATAG"@ || name@ == "root"@ {
                color_scheme.notes.special_tag.0
            } else {
                color_scheme.notes.tag.0
            };
            painted_truecolor(s, name@, c.r, c.g, c.b)
        },
    }
}

/// The file name of a note created at Unix time `timestamp` with random suffix `suffix`, in
/// the current directory: `./<timestamp>_<suffix>.md`.
pub open spec fn note_file_name_of(timestamp: int, suffix: Seq<char>) -> Seq<char> {
    "./"@ + signed_decimal(timestamp) + "_"@ + suffix + ".md"@
}

/// The file name of a note created at Unix time `timestamp` with random suffix `suffix`.
pub fn note_file_name(timestamp: i64, suffix: &str) -> (s: String)
    ensures
        s@ == note_file_name_of(timestamp as int, suffix@),
{
    let t = i64_to_string(timestamp);
    let a = concat2("./", t.as_str());
    let b = concat2(a.as_str(), "_");
    let c = concat2(b.as_str(), suffix);
    concat2(c.as_str(), ".md")
}

/// `chrono`'s current time in UTC as seconds since the Unix epoch. It is the clock's reading,
/// so nothing is said of its value.
#[verifier::external_body]
fn utc_timestamp() -> (t: i64) {
    chrono::Utc::now().timestamp()
}

/// The first line written into the file of a new note named `name`: `# 💖 <name>`.
pub open spec fn heading_of(name: Seq<char>) -> Seq<char> {
    "# 💖 "@ + name + "\n"@
}

impl Note {
    /// True when the note can be shown: a markdown note once its name has been rendered.
    pub open spec fn is_displayable(&self) -> bool {
        self matches Note::MdFile { name_markdown, .. } ==> name_markdown is Some
    }

    /// A new note named `name`: a tag, or a markdown note whose file, in the current
    /// directory, is named after the current time and a random suffix; its name rendered from
    /// `highlighted_name`.
    pub fn init_rendered(name: String, is_tag: bool, highlighted_name: &str, color_scheme: ColorScheme) -> (n: Note)
        ensures
            n.spec_name() == name@,
            n.spec_resources() is None,
            n.spec_color_scheme() == color_scheme,
            is_tag <==> n is Tag,
            n.is_displayable(),
            n matches Note::MdFile { file_path, name_markdown, .. } ==> {
                &&& exists|t: i64, sfx: Seq<char>| {
                    &&& sfx.len() == 7
                    &&& (forall|i: int| 0 <= i < 7 ==> is_ascii_alphanumeric(#[trigger] sfx[i]))
                    &&& file_path@ == note_file_name_of(t as int, sfx)
                }
                &&& exists|dark: Seq<char>| painted_truecolor(dark, seq![' '], 0, 0, 0)
                    && name_markdown->Some_0@ == highlighted_name@ + seq![' '] + dark
            },
    {
        let file_path = if is_tag {
            None
        } else {
            let t = utc_timestamp();
            let suffix = rand_suffix();
            Some(note_file_name(t, suffix.as_str()))
        };
        let mut note = Self::new(name, file_path, color_scheme);
        note.set_rendered_name(highlighted_name);
        note
    }

    /// What a new note's file holds when it is first written: its heading, for a markdown
    /// note; nothing is written for a tag.
    pub fn persisted_content(&self) -> (c: Option<String>)
        ensures
            match self {
                Note::MdFile { name, .. } => c matches Some(t) && t@ == heading_of(name@),
                Note::Tag { .. } => c is None,
            },
    {
        match self {
            Self::MdFile { name, .. } => {
                let a = concat2("# 💖 ", name.as_str());
                Some(concat2(a.as_str(), "\n"))
            },
            Self::Tag { .. } => None,
        }
    }
}

/// True when `plan` opens a note whose file is `path` (none for a tag) with the commands
/// `cfg`: the file command with the path in place of `$FILE`; no plan for a tag.
pub open spec fn note_open_plan_of(plan: Option<OpenPlan>, path: Option<Seq<char>>, cfg: Open) -> bool {
    match path {
        Some(path) => plan matches Some(p) && replaced_first(p.cmd, cfg.file_cmd, "$FILE"@, path)
            && !p.substitute_program && p.run_in_dir_of is None && p.stdin is None,
        None => plan is None,
    }
}

/// A note with a file opens with the configured file command, whose first `$FILE` argument
/// becomes the note's path and whose other arguments stay; a tag is not opened.
pub proof fn lemma_notes_open_with_the_file_command(plan: Option<OpenPlan>, path: Option<Seq<char>>, cfg: Open)
    requires
        note_open_plan_of(plan, path, cfg),
    ensures
        path matches Some(f) ==> (plan matches Some(p) && p.cmd.command@ == cfg.file_cmd.command@
            && fills_first(arg_views(p.cmd), arg_views(cfg.file_cmd), "$FILE"@, f)),
        path is None ==> plan is None,
{
    if let Some(f) = path {
        lemma_replaced_first_fills(plan->Some_0.cmd, cfg.file_cmd, "$FILE"@, f);
    }
}

impl Note {
    /// How the note is opened with the commands `cfg`: its file with the file command, in
    /// which `$FILE` becomes the note's path; a tag has no file and is not opened.
    pub fn open_plan(&self, cfg: &Open) -> (plan: Option<OpenPlan>)
        ensures
            note_open_plan_of(plan, self.spec_file_path(), *cfg),
    {
        match self {
            Self::MdFile { file_path, .. } => {
                let mut cmd = cfg.file_cmd.duplicate();
                cmd.replace_matching_element("$FILE", file_path.as_str());
                Some(OpenPlan { cmd, substitute_program: false, run_in_dir_of: None, stdin: None })
            },
            Self::Tag { .. } => None,
        }
    }
}

/// True when `m` is the rendered name of a note whose name is `name`: the name highlighted as
/// markdown (see [`markdown_highlight`]), a space, and a space painted black.
pub open spec fn rendered_from(m: Seq<char>, name: Seq<char>, md: MarkdownStatic) -> bool {
    &&& markdown_highlight(md, name) is Some
    &&& exists|dark: Seq<char>|
        painted_truecolor(dark, seq![' '], 0, 0, 0) && m == markdown_highlight(md, name)->Some_0 + seq![' '] + dark
}

impl Note {
    /// Renders the name of a markdown note, highlighting it as markdown; tags are left as
    /// they are. `false`, and the note unchanged, when the highlighter fails.
    pub fn set_markdown(&mut self, md_static: &MarkdownStatic) -> (ok: bool)
        ensures
            ok ==> final(self).spec_name() == old(self).spec_name() && final(self).spec_file_path()
                == old(self).spec_file_path() && final(self).spec_resources() == old(self).spec_resources()
                && final(self).spec_color_scheme() == old(self).spec_color_scheme(),
            ok && *old(self) is Tag ==> *final(self) == *old(self),
            ok && *final(self) is MdFile ==> (*final(self) matches Note::MdFile { name_markdown, .. }
                && name_markdown is Some && rendered_from(name_markdown->Some_0@, final(self).spec_name(), *md_static)),
            !ok ==> *final(self) == *old(self) && *old(self) is MdFile,
            ok <==> (*old(self) is Tag || markdown_highlight(*md_static, old(self).spec_name()) is Some),
    {
        match self {
            Self::Tag { .. } => true,
            Self::MdFile { name, .. } => {
                let highlighted = highlight_markdown(name.as_str(), md_static);
                let ghost nm = name@;
                assert(nm == old(self).spec_name());
                match highlighted {
                    Some(h) => {
                        self.set_rendered_name(h.as_str());
                        assert(markdown_highlight(*md_static, self.spec_name()) == Some(h@));
                        true
                    },
                    None => false,
                }
            },
        }
    }

    /// Renames the note and renders its new name, highlighting it as markdown. `false` when
    /// the highlighter fails; the name is changed then all the same.
    pub fn rename(&mut self, new_name: &str, md_static: &MarkdownStatic) -> (ok: bool)
        ensures
            final(self).spec_name() == new_name@,
            final(self).spec_file_path() == old(self).spec_file_path(),
            final(self).spec_color_scheme() == old(self).spec_color_scheme(),
            final(self).spec_resources() == old(self).spec_resources(),
            ok <==> (*final(self) is Tag || markdown_highlight(*md_static, new_name@) is Some),
            ok && *final(self) is MdFile ==> (*final(self) matches Note::MdFile { name_markdown, .. }
                && name_markdown is Some && rendered_from(name_markdown->Some_0@, new_name@, *md_static)),
    {
        match self {
            Self::MdFile { name, .. } => {
                *name = String::from_str(new_name);
            },
            Self::Tag { name, .. } => {
                *name = String::from_str(new_name);
            },
        }
        self.set_markdown(md_static)
    }

    /// A new note named `name` (see [`Note::init_rendered`]), its name highlighted as
    /// markdown; `None` when the highlighter fails. A tag's name is not highlighted, and
    /// neither is an empty name, so these always give a note.
    pub fn init(name: String, is_tag: bool, md_static: &MarkdownStatic, color_scheme: ColorScheme) -> (r: Option<Note>)
        ensures
            r is Some <==> (is_tag || markdown_highlight(*md_static, name@) is Some),
            is_tag || name@.len() == 0 ==> r is Some,
            r matches Some(n) ==> {
                &&& n.spec_name() == name@
                &&& n.spec_resources() is None
                &&& n.spec_color_scheme() == color_scheme
                &&& (is_tag <==> n is Tag)
                &&& n.is_displayable()
                &&& n matches Note::MdFile { file_path, name_markdown, .. } ==> {
                    &&& exists|t: i64, sfx: Seq<char>| {
                        &&& sfx.len() == 7
                        &&& (forall|i: int| 0 <= i < 7 ==> is_ascii_alphanumeric(#[trigger] sfx[i]))
                        &&& file_path@ == note_file_name_of(t as int, sfx)
                    }
                    &&& rendered_from(name_markdown->Some_0@, name@, *md_static)
                }
            },
    {
        if is_tag {
            return Some(Self::init_rendered(name, true, "", color_scheme));
        }
        let highlighted = highlight_markdown(name.as_str(), md_static);
        let ghost nm = name@;
        match highlighted {
            Some(h) => {
                let n = Self::init_rendered(name, false, h.as_str(), color_scheme);
                assert(markdown_highlight(*md_static, nm) == Some(h@));
                assert(n.spec_name() == nm);
                Some(n)
            },
            None => None,
        }
    }
}

} // verus!
