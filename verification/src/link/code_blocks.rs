use vstd::prelude::*;
use crate::config::color::ColorScheme;
use crate::lines::EditorPosition;
use crate::link::{Destination, Link};
use crate::text::{concat2, decimal, first_line, first_line_of, usize_to_string};

verus! {

broadcast use vstd::string::group_string_axioms;

/// A fenced or indented code block of a markdown text: its info string (the syntax label),
/// its text, and the line and column where it starts.
#[derive(Clone, Debug)]
pub struct CodeBlockNode {
    pub info: String,
    pub literal: String,
    pub line: usize,
    pub column: usize,
}

/// The view of a code block node.
pub open spec fn node_view(n: Option<CodeBlockNode>) -> Option<(Seq<char>, Seq<char>, usize, usize)> {
    match n {
        Some(b) => Some((b.info@, b.literal@, b.line, b.column)),
        None => None,
    }
}

/// The views of a list of nodes.
pub open spec fn node_views(v: Seq<Option<CodeBlockNode>>) -> Seq<Option<(Seq<char>, Seq<char>, usize, usize)>> {
    v.map_values(|n: Option<CodeBlockNode>| node_view(n))
}

/// The nodes of the markdown document `content` in document order (each node before the
/// nodes inside it), each seen as the code block it is, or `None` when it is no code block.
pub uninterp spec fn markdown_code_block_nodes(content: Seq<char>) -> Seq<Option<(Seq<char>, Seq<char>, usize, usize)>>;

/// `comrak`'s `parse_document` with the default options, its nodes walked in document order
/// and each code block read as its info string, text and start position.
#[verifier::external_body]
pub(crate) fn markdown_nodes(content: &str) -> (r: Vec<Option<CodeBlockNode>>)
    ensures
        node_views(r@) == markdown_code_block_nodes(content@),
{
    let arena = comrak::Arena::new();
    let root = comrak::parse_document(&arena, content, &comrak::ComrakOptions::default());
    root.descendants().map(|node| {
        let data = node.data.borrow();
        match &data.value {
            comrak::nodes::NodeValue::CodeBlock(block) => Some(CodeBlockNode { info: block.info.clone(), literal: block.literal.clone(), line: data.sourcepos.start.line, column: data.sourcepos.start.column }),
            _ => None,
        }
    }).collect()
}

/// The code blocks among `nodes`, in order.
pub open spec fn blocks_of(nodes: Seq<Option<CodeBlockNode>>) -> Seq<CodeBlockNode>
    decreases nodes.len(),
{
    if nodes.len() == 0 {
        Seq::empty()
    } else if nodes.last() is Some {
        blocks_of(nodes.drop_last()).push(nodes.last()->Some_0)
    } else {
        blocks_of(nodes.drop_last())
    }
}

/// The description of the `k`-th code block of a note: its first line, or `snippet[k]` when
/// it is empty.
pub open spec fn block_description(literal: Seq<char>, k: nat) -> Seq<char> {
    if literal.len() > 0 {
        first_line(literal)
    } else {
        "snippet["@ + decimal(k) + "]"@
    }
}

/// True when `l` is the link to code block `b`, the `k`-th of the note named `parent_name`
/// stored in `file_path`.
pub open spec fn code_block_link(l: Link, b: CodeBlockNode, k: nat, file_path: Seq<char>, parent_name: Seq<char>, colors: ColorScheme) -> bool {
    &&& l.description@ == block_description(b.literal@, k)
    &&& l.link matches Destination::CodeBlock { code_block, syntax_label } && code_block@ == b.literal@
        && syntax_label@ == b.info@
    &&& l.containing_file_name@ == file_path
    &&& l.parent_name@ == parent_name
    &&& l.start == (EditorPosition { line: b.line, column: b.column })
    &&& l.color_scheme == colors
    &&& l.display_item is None
    &&& l.preview_item is None
}

/// The links to the code blocks among `nodes`, in order.
pub fn code_block_links(
    nodes: &Vec<Option<CodeBlockNode>>,
    file_path: &str,
    parent_name: &str,
    color_scheme: ColorScheme,
) -> (links: Vec<Link>)
    ensures
        links@.len() == blocks_of(nodes@).len(),
        forall|k: int|
            0 <= k < links@.len() ==> code_block_link(
                #[trigger] links@[k],
                blocks_of(nodes@)[k],
                k as nat,
                file_path@,
                parent_name@,
                color_scheme,
            ),
{
    let mut links: Vec<Link> = Vec::new();
    let mut i: usize = 0;
    while i < nodes.len()
        invariant
            i <= nodes@.len(),
            links@.len() == blocks_of(nodes@.take(i as int)).len(),
            forall|k: int|
                0 <= k < links@.len() ==> code_block_link(
                    #[trigger] links@[k],
                    blocks_of(nodes@.take(i as int))[k],
                    k as nat,
                    file_path@,
                    parent_name@,
                    color_scheme,
                ),
        decreases nodes@.len() - i,
    {
        let ghost before = nodes@.take(i as int);
        assert(nodes@.take(i + 1).drop_last() =~= before);
        assert(nodes@.take(i + 1).last() == nodes@[i as int]);
        match &nodes[i] {
            Some(block) => {
                let counter = links.len();
                let description = match first_line_of(block.literal.as_str()) {
                    Some(line) => line,
                    None => {
                        let n = usize_to_string(counter);
                        let a = concat2("snippet[", n.as_str());
                        concat2(a.as_str(), "]")
                    },
                };
                let link = Link::new_code_block(
                    String::from_str(file_path),
                    String::from_str(parent_name),
                    description,
                    block.literal.clone(),
                    block.info.clone(),
                    block.line,
                    block.column,
                    color_scheme,
                );
                let ghost old_links = links@;
                links.push(link);
                proof {
                    let bs = blocks_of(nodes@.take(i + 1));
                    assert(bs == blocks_of(before).push(*block));
                    assert forall|k: int| 0 <= k < links@.len() implies code_block_link(
                        #[trigger] links@[k],
                        bs[k],
                        k as nat,
                        file_path@,
                        parent_name@,
                        color_scheme,
                    ) by {
                        if k < old_links.len() {
                            assert(links@[k] == old_links[k]);
                            assert(bs[k] == blocks_of(before)[k]);
                        }
                    }
                }
            },
            None => {},
        }
        i = i + 1;
    }
    assert(nodes@.take(nodes@.len() as int) =~= nodes@);
    links
}

/// The links to the code blocks of the markdown text `content` of the note named
/// `parent_name` stored in `file_path`, in document order.
pub fn code_blocks(content: &str, file_path: &str, parent_name: &str, color_scheme: ColorScheme) -> (links: Vec<Link>)
    ensures
        exists|nodes: Seq<Option<CodeBlockNode>>| {
            &&& node_views(nodes) == markdown_code_block_nodes(content@)
            &&& links@.len() == blocks_of(nodes).len()
            &&& forall|k: int|
                0 <= k < links@.len() ==> code_block_link(
                    #[trigger] links@[k],
                    blocks_of(nodes)[k],
                    k as nat,
                    file_path@,
                    parent_name@,
                    color_scheme,
                )
        },
{
    let nodes = markdown_nodes(content);
    code_block_links(&nodes, file_path, parent_name, color_scheme)
}

} // verus!
