use vstd::prelude::*;
use kdl::{KdlDocument, KdlEntry, KdlError, KdlNode};
use crate::text::concat2;

verus! {

broadcast use vstd::string::group_string_axioms;

/// A place in the configuration text: its byte offset and its length.
#[derive(Debug, Clone, Copy, PartialEq, Eq)]
pub struct Span {
    pub offset: usize,
    pub len: usize,
}

/// The value of an entry of a configuration node: a string, or a value of another kind.
#[derive(Debug, Clone)]
pub enum ConfigValue {
    Str(String),
    Other,
}

/// An entry of a configuration node: an argument (no name) or a property (a name).
#[derive(Debug, Clone)]
pub struct ConfigEntry {
    pub name: Option<String>,
    pub value: ConfigValue,
    pub span: Span,
}

/// A node of the configuration document: its name, its entries in order, its children (if
/// it has a block of them) and where it stands.
#[derive(Debug)]
pub struct ConfigNode {
    pub name: String,
    pub entries: Vec<ConfigEntry>,
    pub children: Option<Vec<ConfigNode>>,
    pub span: Span,
}

/// The configuration document: its top-level nodes and where it stands.
#[derive(Debug)]
pub struct ConfigDocument {
    pub nodes: Vec<ConfigNode>,
    pub span: Span,
}

/// A problem with a node of the configuration: where it is and what it is.
#[derive(Debug, Clone)]
pub struct NodeError {
    pub span: Span,
    pub description: String,
}

/// Why the configuration could not be read: its text is no KDL document, or a node of it is
/// missing or wrong.
pub enum ConfigError {
    Syntax(KdlError),
    Node(NodeError),
}

/// The view of a node error: its span and its description.
pub type ErrView = (Span, Seq<char>);

/// The view of a node error.
pub open spec fn err_view(e: NodeError) -> ErrView {
    (e.span, e.description@)
}

#[verifier::external_type_specification]
#[verifier::external_body]
pub struct ExKdlDocument(KdlDocument);

#[verifier::external_type_specification]
#[verifier::external_body]
pub struct ExKdlNode(KdlNode);

#[verifier::external_type_specification]
#[verifier::external_body]
pub struct ExKdlEntry(KdlEntry);

#[verifier::external_type_specification]
#[verifier::external_body]
pub struct ExKdlError(KdlError);

/// Whether `kdl`'s grammar accepts `text` as a KDL document: a function of the text alone,
/// which the grammar decides.
pub uninterp spec fn kdl_accepts(text: Seq<char>) -> bool;

/// The document that `kdl`'s parser makes of `text`, where it accepts it: a function of the
/// text alone.
pub uninterp spec fn kdl_parsed(text: Seq<char>) -> KdlDocument;

/// The top-level nodes of a `kdl` document, in order.
pub uninterp spec fn kdl_doc_nodes(d: KdlDocument) -> Seq<KdlNode>;

/// Where a `kdl` document stands in its text.
pub uninterp spec fn kdl_doc_span(d: KdlDocument) -> Span;

/// The name of a `kdl` node, as its text.
pub uninterp spec fn kdl_node_name(n: KdlNode) -> Seq<char>;

/// Where a `kdl` node stands in its text.
pub uninterp spec fn kdl_node_span(n: KdlNode) -> Span;

/// The entries of a `kdl` node, in order.
pub uninterp spec fn kdl_node_entries(n: KdlNode) -> Seq<KdlEntry>;

/// The block of children of a `kdl` node, if it has one.
pub uninterp spec fn kdl_node_children(n: KdlNode) -> Option<KdlDocument>;

/// The name of a `kdl` entry, as its text: a property has one, an argument none.
pub uninterp spec fn kdl_entry_name(e: KdlEntry) -> Option<Seq<char>>;

/// The text of a `kdl` entry's value, when the value is a string.
pub uninterp spec fn kdl_entry_string(e: KdlEntry) -> Option<Seq<char>>;

/// Where a `kdl` entry stands in its text.
pub uninterp spec fn kdl_entry_span(e: KdlEntry) -> Span;

/// The view of an optional text.
pub open spec fn opt_view(o: Option<String>) -> Option<Seq<char>> {
    match o {
        Some(s) => Some(s@),
        None => None,
    }
}

/// `kdl`'s parser (`KdlDocument`'s `FromStr`): the document that it makes of the text, or the
/// syntax error. It succeeds exactly on the texts that the grammar accepts.
#[verifier::external_body]
fn parse_kdl(text: &str) -> (r: Result<KdlDocument, KdlError>)
    ensures
        r is Ok <==> kdl_accepts(text@),
        r matches Ok(d) ==> d == kdl_parsed(text@),
{
    text.parse::<KdlDocument>()
}

/// `kdl`'s `KdlDocument::nodes`.
#[verifier::external_body]
fn document_nodes(d: &KdlDocument) -> (ns: &[KdlNode])
    ensures
        ns@ == kdl_doc_nodes(*d),
{
    d.nodes()
}

/// `kdl`'s `KdlDocument::span`, as offset and length.
#[verifier::external_body]
fn document_span(d: &KdlDocument) -> (s: Span)
    ensures
        s == kdl_doc_span(*d),
{
    Span { offset: d.span().offset(), len: d.span().len() }
}

/// `kdl`'s `KdlNode::name`, as its text.
#[verifier::external_body]
fn node_name(n: &KdlNode) -> (s: String)
    ensures
        s@ == kdl_node_name(*n),
{
    n.name().value().to_string()
}

/// `kdl`'s `KdlNode::span`, as offset and length.
#[verifier::external_body]
fn node_span(n: &KdlNode) -> (s: Span)
    ensures
        s == kdl_node_span(*n),
{
    Span { offset: n.span().offset(), len: n.span().len() }
}

/// `kdl`'s `KdlNode::entries`.
#[verifier::external_body]
fn node_entries(n: &KdlNode) -> (es: &[KdlEntry])
    ensures
        es@ == kdl_node_entries(*n),
{
    n.entries()
}

/// `kdl`'s `KdlNode::children`.
#[verifier::external_body]
fn node_children(n: &KdlNode) -> (c: Option<&KdlDocument>)
    ensures
        match c {
            Some(d) => kdl_node_children(*n) == Some(*d),
            None => kdl_node_children(*n) is None,
        },
{
    n.children()
}

/// `kdl`'s `KdlEntry::name`, as its text.
#[verifier::external_body]
fn entry_name(e: &KdlEntry) -> (s: Option<String>)
    ensures
        opt_view(s) == kdl_entry_name(*e),
{
    e.name().map(|i| i.value().to_string())
}

/// `kdl`'s `KdlEntry::value` followed by `KdlValue::as_string`: the text of a string value.
#[verifier::external_body]
fn entry_string(e: &KdlEntry) -> (s: Option<String>)
    ensures
        opt_view(s) == kdl_entry_string(*e),
{
    e.value().as_string().map(|s| s.to_string())
}

/// `kdl`'s `KdlEntry::span`, as offset and length.
#[verifier::external_body]
fn entry_span(e: &KdlEntry) -> (s: Span)
    ensures
        s == kdl_entry_span(*e),
{
    Span { offset: e.span().offset(), len: e.span().len() }
}

/// True when `c` holds what the `kdl` entry `e` holds: its name, its value (the text of a
/// string, or another kind) and its place.
pub open spec fn entry_matches(c: ConfigEntry, e: KdlEntry) -> bool {
    &&& opt_view(c.name) == kdl_entry_name(e)
    &&& match kdl_entry_string(e) {
        Some(v) => c.value matches ConfigValue::Str(x) && x@ == v,
        None => c.value is Other,
    }
    &&& c.span == kdl_entry_span(e)
}

/// True when `c` holds what the `kdl` node `n` holds: its name, place and entries, and its
/// children, read `depth` levels down (none below that).
pub open spec fn node_matches(c: ConfigNode, n: KdlNode, depth: nat) -> bool
    decreases c,
{
    &&& c.name@ == kdl_node_name(n)
    &&& c.span == kdl_node_span(n)
    &&& c.entries@.len() == kdl_node_entries(n).len()
    &&& forall|i: int| 0 <= i < c.entries@.len() ==> entry_matches(#[trigger] c.entries@[i], kdl_node_entries(n)[i])
    &&& if depth == 0 {
        c.children is None
    } else {
        match c.children {
            None => kdl_node_children(n) is None,
            Some(cs) => {
                &&& kdl_node_children(n) is Some
                &&& cs@.len() == kdl_doc_nodes(kdl_node_children(n)->Some_0).len()
                &&& forall|i: int| 0 <= i < cs@.len() ==> node_matches(
                    #[trigger] cs@[i],
                    kdl_doc_nodes(kdl_node_children(n)->Some_0)[i],
                    (depth - 1) as nat,
                )
            },
        }
    }
}

/// True when `d` holds what the `kdl` document `k` holds: its place and its top-level nodes,
/// read `usize::MAX` levels down.
pub open spec fn document_matches(d: ConfigDocument, k: KdlDocument) -> bool {
    &&& d.span == kdl_doc_span(k)
    &&& d.nodes@.len() == kdl_doc_nodes(k).len()
    &&& forall|i: int| 0 <= i < d.nodes@.len() ==> node_matches(#[trigger] d.nodes@[i], kdl_doc_nodes(k)[i], usize::MAX as nat)
}

fn convert_entry(e: &KdlEntry) -> (c: ConfigEntry)
    ensures
        entry_matches(c, *e),
{
    let value = match entry_string(e) {
        Some(s) => ConfigValue::Str(s),
        None => ConfigValue::Other,
    };
    ConfigEntry { name: entry_name(e), value, span: entry_span(e) }
}

fn convert_nodes(ns: &[KdlNode], depth: usize) -> (v: Vec<ConfigNode>)
    ensures
        v@.len() == ns@.len(),
        forall|i: int| 0 <= i < v@.len() ==> node_matches(#[trigger] v@[i], ns@[i], depth as nat),
    decreases depth, 1int,
{
    let mut v: Vec<ConfigNode> = Vec::new();
    let mut i: usize = 0;
    while i < ns.len()
        invariant
            i <= ns@.len(),
            v@.len() == i,
            forall|k: int| 0 <= k < i ==> node_matches(#[trigger] v@[k], ns@[k], depth as nat),
        decreases ns.len() - i,
    {
        v.push(convert_node(&ns[i], depth));
        i = i + 1;
    }
    v
}

fn convert_node(n: &KdlNode, depth: usize) -> (c: ConfigNode)
    ensures
        node_matches(c, *n, depth as nat),
    decreases depth, 0int,
{
    let es = node_entries(n);
    let mut entries: Vec<ConfigEntry> = Vec::new();
    let mut i: usize = 0;
    while i < es.len()
        invariant
            i <= es@.len(),
            es@ == kdl_node_entries(*n),
            entries@.len() == i,
            forall|k: int| 0 <= k < i ==> entry_matches(#[trigger] entries@[k], es@[k]),
        decreases es.len() - i,
    {
        entries.push(convert_entry(&es[i]));
        i = i + 1;
    }
    let children = if depth == 0 {
        None
    } else {
        match node_children(n) {
            Some(d) => Some(convert_nodes(document_nodes(d), depth - 1)),
            None => None,
        }
    };
    ConfigNode { name: node_name(n), entries, children, span: node_span(n) }
}

/// Reads the configuration text as a KDL document: what the document holds, its nodes read
/// `usize::MAX` levels down (a bound there only for the termination proof). It fails exactly
/// on the texts that are no KDL document.
pub fn parse_document(text: &str) -> (r: Result<ConfigDocument, KdlError>)
    ensures
        r is Ok <==> kdl_accepts(text@),
        r matches Ok(d) ==> document_matches(d, kdl_parsed(text@)),
{
    match parse_kdl(text) {
        Ok(d) => {
            let nodes = convert_nodes(document_nodes(&d), usize::MAX);
            Ok(ConfigDocument { nodes, span: document_span(&d) })
        },
        Err(e) => Err(e),
    }
}

/// The first argument among `es`: the first entry without a name.
pub open spec fn first_positional(es: Seq<ConfigEntry>) -> Option<ConfigEntry>
    decreases es.len(),
{
    if es.len() == 0 {
        None
    } else if es[0].name is None {
        Some(es[0])
    } else {
        first_positional(es.drop_first())
    }
}

/// The string that a node holds as its first argument, or why it holds none.
pub open spec fn string_arg(n: ConfigNode) -> Result<Seq<char>, ErrView> {
    match first_positional(n.entries@) {
        None => Err((n.span, "node's first argument not found"@)),
        Some(e) => match e.value {
            ConfigValue::Str(s) => Ok(s@),
            ConfigValue::Other => Err((n.span, "argument's value is expected to be of string type"@)),
        },
    }
}

/// The index of the first of `ns` named `name`, or -1 when none is.
pub open spec fn child_index(ns: Seq<ConfigNode>, name: Seq<char>) -> int
    decreases ns.len(),
{
    if ns.len() == 0 {
        -1
    } else if ns[0].name@ == name {
        0
    } else {
        let k = child_index(ns.drop_first(), name);
        if k < 0 {
            -1
        } else {
            k + 1
        }
    }
}

pub proof fn lemma_child_index(ns: Seq<ConfigNode>, name: Seq<char>)
    ensures
        -1 <= child_index(ns, name) < ns.len(),
        child_index(ns, name) >= 0 ==> ns[child_index(ns, name)].name@ == name,
        forall|j: int| 0 <= j < ns.len() && (child_index(ns, name) < 0 || j < child_index(ns, name)) ==> ns[j].name@ != name,
    decreases ns.len(),
{
    if ns.len() > 0 && ns[0].name@ != name {
        lemma_child_index(ns.drop_first(), name);
        assert forall|j: int| 0 < j < ns.len() implies ns[j] == ns.drop_first()[j - 1] by {}
    }
}

/// The child of `n` named `tag`, `parent` being the name by which `n` is known in messages;
/// or why there is none.
pub open spec fn child_of(n: ConfigNode, parent: Seq<char>, tag: Seq<char>) -> Result<ConfigNode, ErrView> {
    match n.children {
        None => Err((n.span, "`"@ + parent + "` should have children"@)),
        Some(cs) => {
            let k = child_index(cs@, tag);
            if k < 0 {
                Err((n.span, "no `"@ + parent + "."@ + tag + "` in config"@))
            } else {
                Ok(cs@[k])
            }
        },
    }
}

/// The string that `n` holds as its first argument.
pub fn string_arg_of(n: &ConfigNode) -> (r: Result<String, NodeError>)
    ensures
        match r {
            Ok(s) => string_arg(*n) == Ok::<Seq<char>, ErrView>(s@),
            Err(e) => string_arg(*n) == Err::<Seq<char>, ErrView>(err_view(e)),
        },
{
    let mut i: usize = 0;
    assert(n.entries@.skip(0) =~= n.entries@);
    while i < n.entries.len()
        invariant
            i <= n.entries@.len(),
            first_positional(n.entries@) == first_positional(n.entries@.skip(i as int)),
        decreases n.entries@.len() - i,
    {
        let e = &n.entries[i];
        if e.name.is_none() {
            assert(n.entries@.skip(i as int)[0] == *e);
            match &e.value {
                ConfigValue::Str(s) => {
                    return Ok(s.clone());
                },
                ConfigValue::Other => {
                    return Err(
                        NodeError {
                            span: n.span,
                            description: String::from_str("argument's value is expected to be of string type"),
                        },
                    );
                },
            }
        }
        assert(n.entries@.skip(i as int).drop_first() =~= n.entries@.skip(i + 1));
        i = i + 1;
    }
    Err(NodeError { span: n.span, description: String::from_str("node's first argument not found") })
}

/// The child of `n` named `tag` (see [`child_of`]).
pub fn child<'a>(n: &'a ConfigNode, parent: &str, tag: &str) -> (r: Result<&'a ConfigNode, NodeError>)
    ensures
        match r {
            Ok(c) => child_of(*n, parent@, tag@) == Ok::<ConfigNode, ErrView>(*c),
            Err(e) => child_of(*n, parent@, tag@) == Err::<ConfigNode, ErrView>(err_view(e)),
        },
{
    if n.children.is_none() {
        let a = concat2("`", parent);
        let d = concat2(a.as_str(), "` should have children");
        return Err(NodeError { span: n.span, description: d });
    }
    let cs: &Vec<ConfigNode> = match n.children.as_ref() {
        Some(cs) => cs,
        None => {
            return Err(NodeError { span: n.span, description: String::new() });
        },
    };
    assert(n.children == Some(*cs));
    proof {
        lemma_child_index(cs@, tag@);
    }
    let mut i: usize = 0;
    while i < cs.len()
        invariant
            n.children == Some(*cs),
            i <= cs@.len(),
            -1 <= child_index(cs@, tag@) < cs@.len(),
            child_index(cs@, tag@) >= 0 ==> cs@[child_index(cs@, tag@)].name@ == tag@,
            forall|j: int| 0 <= j < cs@.len() && (child_index(cs@, tag@) < 0 || j < child_index(cs@, tag@)) ==> cs@[j].name@ != tag@,
            child_index(cs@, tag@) < 0 || i <= child_index(cs@, tag@),
        decreases cs@.len() - i,
    {
        if crate::text::str_eq(cs[i].name.as_str(), tag) {
            assert(child_index(cs@, tag@) == i);
            return Ok(&cs[i]);
        }
        i = i + 1;
    }
    let a = concat2("no `", parent);
    let b = concat2(a.as_str(), ".");
    let c = concat2(b.as_str(), tag);
    let d = concat2(c.as_str(), "` in config");
    Err(NodeError { span: n.span, description: d })
}

} // verus!
