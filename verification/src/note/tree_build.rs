use vstd::prelude::*;
use crate::config::color::ColorScheme;
use crate::link::Link;
use crate::note::Note;
use crate::note::links_term_tree::{link_leaves, link_section, link_section_shows, LinkTree, NoteLinkTerm};
use crate::note::reachable::{contains_name, distinct, insert_name, names};

verus! {

broadcast use vstd::string::group_string_axioms;

/// A note of the link graph as the link tree needs it: the note, and the links found in it.
pub struct NoteLinks {
    pub note: Note,
    pub links: Vec<Link>,
}

/// True when the link graph is well formed: one list of forward links for each note name, and
/// every forward link the index of a note of the graph.
pub open spec fn graph_wf(ns: Seq<String>, fw: Seq<Vec<usize>>) -> bool {
    &&& fw.len() == ns.len()
    &&& forall|a: int, k: int| 0 <= a < fw.len() && 0 <= k < fw[a]@.len() ==> (#[trigger] fw[a]@[k] as int) < ns.len()
}

/// The index of the note named `name` in the names `ns` of a link graph being fetched: where it
/// stands already, or a new one at the end when it is not there yet.
pub fn graph_index(ns: &mut Vec<String>, name: &String) -> (k: usize)
    requires
        old(ns)@.len() < usize::MAX,
    ensures
        k < final(ns)@.len(),
        final(ns)@[k as int]@ == name@,
        k < old(ns)@.len() ==> final(ns)@ == old(ns)@,
        k == old(ns)@.len() ==> final(ns)@ == old(ns)@.push(*name) && !names(old(ns)@).contains(name@),
        k <= old(ns)@.len(),
{
    let mut i: usize = 0;
    while i < ns.len()
        invariant
            i <= ns@.len(),
            forall|j: int| 0 <= j < i ==> ns@[j]@ != name@,
        decreases ns@.len() - i,
    {
        if crate::text::str_eq(ns[i].as_str(), name.as_str()) {
            return i;
        }
        i = i + 1;
    }
    ns.push(name.clone());
    i
}

/// How many notes of the graph, named `ns`, are not among the names `r` reached.
pub open spec fn unvisited(ns: Seq<String>, r: Set<Seq<char>>) -> nat
    decreases ns.len(),
{
    if ns.len() == 0 {
        0
    } else {
        unvisited(ns.drop_last(), r) + if r.contains(ns.last()@) {
            0nat
        } else {
            1nat
        }
    }
}

pub proof fn lemma_unvisited_subset(ns: Seq<String>, a: Set<Seq<char>>, b: Set<Seq<char>>)
    requires
        a.subset_of(b),
    ensures
        unvisited(ns, b) <= unvisited(ns, a),
    decreases ns.len(),
{
    if ns.len() > 0 {
        lemma_unvisited_subset(ns.drop_last(), a, b);
    }
}

pub proof fn lemma_unvisited_insert(ns: Seq<String>, a: Set<Seq<char>>, i: int)
    requires
        0 <= i < ns.len(),
        !a.contains(ns[i]@),
    ensures
        unvisited(ns, a.insert(ns[i]@)) < unvisited(ns, a),
    decreases ns.len(),
{
    if i == ns.len() - 1 {
        lemma_unvisited_subset(ns.drop_last(), a, a.insert(ns[i]@));
    } else {
        assert(ns.drop_last()[i] == ns[i]);
        lemma_unvisited_insert(ns.drop_last(), a, i);
    }
}

pub proof fn lemma_unvisited_le_len(ns: Seq<String>, a: Set<Seq<char>>)
    ensures
        unvisited(ns, a) <= ns.len(),
    decreases ns.len(),
{
    if ns.len() > 0 {
        lemma_unvisited_le_len(ns.drop_last(), a);
    }
}

/// The names of the notes that stand as note terms in a link tree: its root when that is a
/// note, and those of the trees under it.
pub open spec fn link_tree_notes(t: LinkTree) -> Set<Seq<char>>
    decreases t, 1int,
{
    let own = match t.root {
        NoteLinkTerm::Note(n) => set![n.spec_name()],
        _ => Set::empty(),
    };
    own.union(link_leaves_notes(t.leaves@, 0, t.leaves@.len() as int))
}

/// The names of the notes that stand as note terms in the trees `ts[a..b]`.
pub open spec fn link_leaves_notes(ts: Seq<LinkTree>, a: int, b: int) -> Set<Seq<char>>
    decreases ts, b,
{
    if b <= a || b > ts.len() || a < 0 {
        Set::empty()
    } else {
        link_leaves_notes(ts, a, b - 1).union(link_tree_notes(ts[b - 1]))
    }
}

/// True when `t` is the link tree built from the note at `i` of the graph at depth `level`,
/// with the names `rin` reached before: the note as root, its link section first (when it has
/// links), then one tree for each of its forward links, taken in reverse order (see
/// [`link_kids`]). The names reached after are `rin` and those of the notes in `t`.
pub open spec fn link_built(
    g: Seq<Option<NoteLinks>>,
    ns: Seq<String>,
    fw: Seq<Vec<usize>>,
    i: int,
    rin: Set<Seq<char>>,
    level: usize,
    threshold: usize,
    color: ColorScheme,
    t: LinkTree,
) -> bool
    decreases t, 1int,
{
    if 0 <= i < ns.len() && i < g.len() && i < fw.len() && g[i] is Some {
        let e = g[i]->Some_0;
        let off: int = if e.links@.len() > 0 {
            1
        } else {
            0
        };
        &&& !rin.contains(ns[i]@)
        &&& t.root == NoteLinkTerm::Note(e.note)
        &&& t.leaves@.len() == off + fw[i]@.len()
        &&& (off == 1 ==> link_section_shows(level, threshold, e.links@, color, t.leaves@[0]))
        &&& link_kids(g, ns, fw, fw[i]@, t.leaves@, off, rin.insert(ns[i]@), fw[i]@.len() as int, (level + 1) as usize, threshold, color)
    } else {
        false
    }
}

/// True when the `n` trees of `ts` after its first `off` are those of the last `n` forward
/// links of `fs` taken from the last one back, each built with `r` and the names of the notes
/// in the trees before it reached (see [`link_child_built`]).
pub open spec fn link_kids(
    g: Seq<Option<NoteLinks>>,
    ns: Seq<String>,
    fw: Seq<Vec<usize>>,
    fs: Seq<usize>,
    ts: Seq<LinkTree>,
    off: int,
    r: Set<Seq<char>>,
    n: int,
    level: usize,
    threshold: usize,
    color: ColorScheme,
) -> bool
    decreases ts, n,
{
    if n <= 0 || off < 0 || off + n > ts.len() || n > fs.len() {
        n == 0
    } else {
        &&& link_kids(g, ns, fw, fs, ts, off, r, n - 1, level, threshold, color)
        &&& link_child_built(
            g,
            ns,
            fw,
            fs[fs.len() - n] as int,
            r.union(link_leaves_notes(ts, off, off + n - 1)),
            level,
            threshold,
            color,
            ts[off + n - 1],
        )
    }
}

/// True when `c` is what the link to the note at `f` gives when the names `r` are reached: a
/// cycle leaf with the note's name when it is among them, else the tree built from that note.
pub open spec fn link_child_built(
    g: Seq<Option<NoteLinks>>,
    ns: Seq<String>,
    fw: Seq<Vec<usize>>,
    f: int,
    r: Set<Seq<char>>,
    level: usize,
    threshold: usize,
    color: ColorScheme,
    c: LinkTree,
) -> bool
    decreases c, 2int,
{
    if 0 <= f < ns.len() && r.contains(ns[f]@) {
        &&& c.root matches NoteLinkTerm::Cycle(name, cc) && name@ == ns[f]@ && cc == color
        &&& c.leaves@.len() == 0
    } else {
        link_built(g, ns, fw, f, r, level, threshold, color, c)
    }
}

proof fn lemma_leaves_notes_prefix(ts: Seq<LinkTree>, us: Seq<LinkTree>, a: int, b: int)
    requires
        0 <= a,
        b <= ts.len(),
        b <= us.len(),
        forall|m: int| 0 <= m < b ==> ts[m] == us[m],
    ensures
        link_leaves_notes(ts, a, b) == link_leaves_notes(us, a, b),
    decreases b,
{
    if b > a {
        lemma_leaves_notes_prefix(ts, us, a, b - 1);
    }
}

proof fn lemma_kids_prefix(
    g: Seq<Option<NoteLinks>>,
    ns: Seq<String>,
    fw: Seq<Vec<usize>>,
    fs: Seq<usize>,
    ts: Seq<LinkTree>,
    us: Seq<LinkTree>,
    off: int,
    r: Set<Seq<char>>,
    n: int,
    level: usize,
    threshold: usize,
    color: ColorScheme,
)
    requires
        0 <= off,
        0 <= n,
        off + n <= ts.len(),
        off + n <= us.len(),
        forall|m: int| 0 <= m < off + n ==> ts[m] == us[m],
        link_kids(g, ns, fw, fs, ts, off, r, n, level, threshold, color),
    ensures
        link_kids(g, ns, fw, fs, us, off, r, n, level, threshold, color),
    decreases n,
{
    if n > 0 {
        lemma_kids_prefix(g, ns, fw, fs, ts, us, off, r, n - 1, level, threshold, color);
        lemma_leaves_notes_prefix(ts, us, off, off + n - 1);
    }
}

proof fn lemma_leaves_notes_split(ts: Seq<LinkTree>, a: int, m: int, b: int)
    requires
        0 <= a <= m <= b <= ts.len(),
    ensures
        link_leaves_notes(ts, a, b) == link_leaves_notes(ts, a, m).union(link_leaves_notes(ts, m, b)),
    decreases b,
{
    if b > m {
        lemma_leaves_notes_split(ts, a, m, b - 1);
        assert(link_leaves_notes(ts, a, b) =~= link_leaves_notes(ts, a, m).union(link_leaves_notes(ts, m, b)));
    } else {
        assert(link_leaves_notes(ts, a, m).union(Set::empty()) =~= link_leaves_notes(ts, a, m));
    }
}

proof fn lemma_link_leaves_no_notes(links: Seq<Link>, ts: Seq<LinkTree>, b: int)
    requires
        link_leaves(links, ts),
        0 <= b <= ts.len(),
    ensures
        link_leaves_notes(ts, 0, b) == Set::<Seq<char>>::empty(),
    decreases b,
{
    if b > 0 {
        lemma_link_leaves_no_notes(links, ts, b - 1);
        let c = ts[b - 1];
        assert(c.root == NoteLinkTerm::Link(links[b - 1]));
        assert(link_leaves_notes(c.leaves@, 0, c.leaves@.len() as int) == Set::<Seq<char>>::empty());
        assert(link_tree_notes(c) =~= Set::<Seq<char>>::empty());
        assert(link_leaves_notes(ts, 0, b) =~= Set::<Seq<char>>::empty());
    }
}

proof fn lemma_section_no_notes(level: usize, threshold: usize, links: Seq<Link>, color: ColorScheme, t: LinkTree)
    requires
        link_section_shows(level, threshold, links, color, t),
    ensures
        link_tree_notes(t) == Set::<Seq<char>>::empty(),
{
    if level >= threshold {
        assert(link_leaves_notes(t.leaves@, 0, 0) == Set::<Seq<char>>::empty());
    } else {
        lemma_link_leaves_no_notes(links, t.leaves@, t.leaves@.len() as int);
    }
    assert(link_tree_notes(t) =~= Set::<Seq<char>>::empty());
}

fn build_link(
    i: usize,
    ns: &Vec<String>,
    fw: &Vec<Vec<usize>>,
    notes: &mut Vec<Option<NoteLinks>>,
    reached: &mut Vec<String>,
    level: usize,
    threshold: usize,
    color: ColorScheme,
    Ghost(g): Ghost<Seq<Option<NoteLinks>>>,
) -> (t: LinkTree)
    requires
        graph_wf(ns@, fw@),
        old(notes)@.len() == ns@.len(),
        g.len() == ns@.len(),
        i < ns@.len(),
        !names(old(reached)@).contains(ns@[i as int]@),
        distinct(old(reached)@),
        forall|j: int|
            0 <= j < ns@.len() && !names(old(reached)@).contains(ns@[j]@) ==> old(notes)@[j] == g[j] && g[j] is Some,
        forall|j: int| 0 <= j < ns@.len() && g[j] is Some ==> g[j]->Some_0.note.spec_name() == ns@[j]@,
        level + unvisited(ns@, names(old(reached)@)) <= usize::MAX,
    ensures
        final(notes)@.len() == ns@.len(),
        distinct(final(reached)@),
        names(final(reached)@) == names(old(reached)@).union(link_tree_notes(t)),
        forall|j: int|
            0 <= j < ns@.len() && !names(final(reached)@).contains(ns@[j]@) ==> final(notes)@[j] == old(notes)@[j],
        link_built(g, ns@, fw@, i as int, names(old(reached)@), level, threshold, color, t),
    decreases unvisited(ns@, names(old(reached)@)),
{
    let ghost rin = names(reached@);
    let ghost notes0 = notes@;
    let mut slot: Option<NoteLinks> = None;
    assert(notes0[i as int] == g[i as int]);
    notes.set_and_swap(i, &mut slot);
    let entry = slot.unwrap();
    let NoteLinks { note, links } = entry;
    let ghost links_view = links@;
    let ghost note_view = note;
    insert_name(reached, &ns[i]);
    let ghost r1 = names(reached@);
    proof {
        lemma_unvisited_insert(ns@, rin, i as int);
    }
    let section = link_section(level, threshold, links, color);
    let mut leaves: Vec<LinkTree> = Vec::new();
    match section {
        Some(sec) => leaves.push(sec),
        None => {},
    }
    let ghost off: int = if links_view.len() > 0 { 1 } else { 0 };
    let ghost first = leaves@;
    proof {
        if off == 1 {
            lemma_section_no_notes(level, threshold, links_view, color, first[0]);
            assert(link_leaves_notes(first, 0, 0) == Set::<Seq<char>>::empty());
            assert(link_leaves_notes(first, 0, 1) =~= Set::<Seq<char>>::empty());
        }
        assert(r1 =~= r1.union(link_leaves_notes(leaves@, off, off)));
    }
    let fs = &fw[i];
    let n = fs.len();
    let mut j: usize = 0;
    while j < n
        invariant
            graph_wf(ns@, fw@),
            notes@.len() == ns@.len(),
            g.len() == ns@.len(),
            notes0.len() == ns@.len(),
            i < ns@.len(),
            *fs == fw@[i as int],
            n == fs@.len(),
            j <= n,
            leaves@.len() == off + j,
            off == 0 || off == 1,
            first.len() == off,
            off == 1 ==> leaves@[0] == first[0],
            off == 1 ==> link_leaves_notes(first, 0, 1) == Set::<Seq<char>>::empty(),
            distinct(reached@),
            r1 == rin.insert(ns@[i as int]@),
            rin == names(old(reached)@),
            names(reached@) == r1.union(link_leaves_notes(leaves@, off, off + j)),
            unvisited(ns@, r1) < unvisited(ns@, rin),
            level + unvisited(ns@, rin) <= usize::MAX,
            forall|k: int|
                0 <= k < ns@.len() && !rin.contains(ns@[k]@) ==> notes0[k] == g[k] && g[k] is Some,
            forall|k: int| 0 <= k < ns@.len() && g[k] is Some ==> g[k]->Some_0.note.spec_name() == ns@[k]@,
            forall|k: int|
                0 <= k < ns@.len() && !names(reached@).contains(ns@[k]@) ==> notes@[k] == notes0[k],
            link_kids(g, ns@, fw@, fs@, leaves@, off, r1, j as int, (level + 1) as usize, threshold, color),
        decreases n - j,
    {
        let f = fs[n - 1 - j];
        let ghost before = leaves@;
        let ghost rnow = names(reached@);
        assert(fs@.len() - (j + 1) == n - 1 - j);
        assert((f as int) < ns@.len());
        if contains_name(reached, &ns[f]) {
            let name = ns[f].clone();
            leaves.push(LinkTree { root: NoteLinkTerm::Cycle(name, color), leaves: Vec::new() });
            proof {
                let c = leaves@[leaves@.len() - 1];
                assert(link_leaves_notes(c.leaves@, 0, 0) == Set::<Seq<char>>::empty());
                assert(link_tree_notes(c) =~= Set::<Seq<char>>::empty());
            }
        } else {
            proof {
                lemma_unvisited_subset(ns@, r1, rnow);
            }
            let child = build_link(f, ns, fw, notes, reached, level + 1, threshold, color, Ghost(g));
            leaves.push(child);
        }
        proof {
            let c = leaves@[leaves@.len() - 1];
            assert(forall|m: int| 0 <= m < off + j ==> before[m] == leaves@[m]);
            lemma_kids_prefix(g, ns@, fw@, fs@, before, leaves@, off, r1, j as int, (level + 1) as usize, threshold, color);
            lemma_leaves_notes_prefix(before, leaves@, off, off + j);
            assert(link_child_built(
                g,
                ns@,
                fw@,
                fs@[fs@.len() - (j + 1)] as int,
                r1.union(link_leaves_notes(leaves@, off, off + j)),
                (level + 1) as usize,
                threshold,
                color,
                c,
            ));
            assert(link_kids(g, ns@, fw@, fs@, leaves@, off, r1, j + 1, (level + 1) as usize, threshold, color));
            assert(link_leaves_notes(leaves@, off, off + j + 1) == link_leaves_notes(leaves@, off, off + j).union(link_tree_notes(c)));
            assert(names(reached@) =~= r1.union(link_leaves_notes(leaves@, off, off + j + 1)));
            if off == 1 {
                assert(leaves@[0] == first[0]);
                lemma_leaves_notes_prefix(first, leaves@, 0, 1);
            }
        }
        j = j + 1;
    }
    let t = LinkTree { root: NoteLinkTerm::Note(note), leaves };
    proof {
        lemma_leaves_notes_split(t.leaves@, 0, off, off + n);
        if off == 0 {
            assert(link_leaves_notes(t.leaves@, 0, 0) == Set::<Seq<char>>::empty());
        } else {
            lemma_leaves_notes_prefix(first, t.leaves@, 0, 1);
        }
        assert(note_view.spec_name() == ns@[i as int]@);
        assert(names(reached@) =~= rin.union(link_tree_notes(t)));
    }
    t
}

/// The link tree of the note at `root` of the link graph, as a note's structure preview shows
/// it: the note, its link section, and for each of its forward links (in reverse order) a
/// cycle leaf when that note was already reached, else the note's own tree, built the same
/// way one level deeper (see [`link_built`]). `reached` are the names reached before; what
/// comes back with the tree are the names reached after: those and the notes in the tree. The
/// graph names its notes `ns`, lists the forward links of each as indices `fw`, and holds each
/// note not yet reached, under its name, with its links in `notes`.
pub fn link_tree_from(
    root: usize,
    ns: &Vec<String>,
    fw: &Vec<Vec<usize>>,
    notes: Vec<Option<NoteLinks>>,
    reached: Vec<String>,
    threshold: usize,
    color: ColorScheme,
) -> (r: (LinkTree, Vec<String>))
    requires
        graph_wf(ns@, fw@),
        notes@.len() == ns@.len(),
        root < ns@.len(),
        !names(reached@).contains(ns@[root as int]@),
        distinct(reached@),
        forall|j: int| 0 <= j < ns@.len() && !names(reached@).contains(ns@[j]@) ==> notes@[j] is Some,
        forall|j: int| 0 <= j < ns@.len() && notes@[j] is Some ==> notes@[j]->Some_0.note.spec_name() == ns@[j]@,
    ensures
        link_built(notes@, ns@, fw@, root as int, names(reached@), 0, threshold, color, r.0),
        distinct(r.1@),
        names(r.1@) == names(reached@).union(link_tree_notes(r.0)),
{
    let ghost g = notes@;
    let mut notes = notes;
    let mut reached = reached;
    let count = ns.len();
    proof {
        lemma_unvisited_le_len(ns@, names(reached@));
    }
    let t = build_link(root, ns, fw, &mut notes, &mut reached, 0, threshold, color, Ghost(g));
    (t, reached)
}

/// True when no name is in both `a` and `b`.
pub open spec fn apart(a: Set<Seq<char>>, b: Set<Seq<char>>) -> bool {
    forall|x: Seq<char>| a.contains(x) ==> !b.contains(x)
}

/// True when no note stands twice as a note term in the link tree: its root's note is in none
/// of the trees under it, and no two of those trees share a note.
pub open spec fn link_notes_distinct(t: LinkTree) -> bool
    decreases t, 1int,
{
    &&& (t.root matches NoteLinkTerm::Note(n) ==> !link_leaves_notes(t.leaves@, 0, t.leaves@.len() as int).contains(n.spec_name()))
    &&& link_leaves_distinct(t.leaves@, t.leaves@.len() as int)
}

/// True when no note stands twice as a note term in the trees `ts[..b]`.
pub open spec fn link_leaves_distinct(ts: Seq<LinkTree>, b: int) -> bool
    decreases ts, b,
{
    if b <= 0 || b > ts.len() {
        true
    } else {
        &&& link_leaves_distinct(ts, b - 1)
        &&& link_notes_distinct(ts[b - 1])
        &&& apart(link_leaves_notes(ts, 0, b - 1), link_tree_notes(ts[b - 1]))
    }
}

proof fn lemma_plain_leaves_distinct(links: Seq<Link>, ts: Seq<LinkTree>, b: int)
    requires
        link_leaves(links, ts),
        0 <= b <= ts.len(),
    ensures
        link_leaves_distinct(ts, b),
    decreases b,
{
    if b > 0 {
        lemma_plain_leaves_distinct(links, ts, b - 1);
        let c = ts[b - 1];
        assert(c.root == NoteLinkTerm::Link(links[b - 1]));
        assert(link_leaves_notes(c.leaves@, 0, 0) == Set::<Seq<char>>::empty());
        assert(link_tree_notes(c) =~= Set::<Seq<char>>::empty());
        assert(link_leaves_distinct(c.leaves@, 0));
        assert(c.leaves@.len() == 0);
        assert(link_notes_distinct(c));
        assert(apart(link_leaves_notes(ts, 0, b - 1), link_tree_notes(c)));
    }
}

proof fn lemma_built_fresh(
    g: Seq<Option<NoteLinks>>,
    ns: Seq<String>,
    fw: Seq<Vec<usize>>,
    i: int,
    rin: Set<Seq<char>>,
    level: usize,
    threshold: usize,
    color: ColorScheme,
    t: LinkTree,
)
    requires
        link_built(g, ns, fw, i, rin, level, threshold, color, t),
        forall|j: int| 0 <= j < ns.len() && j < g.len() && g[j] is Some ==> g[j]->Some_0.note.spec_name() == ns[j]@,
    ensures
        apart(link_tree_notes(t), rin),
        link_notes_distinct(t),
    decreases t, 1int,
{
    let e = g[i]->Some_0;
    let off: int = if e.links@.len() > 0 { 1 } else { 0 };
    let ts = t.leaves@;
    let n = fw[i]@.len() as int;
    let r1 = rin.insert(ns[i]@);
    if off == 1 {
        let sec = ts[0];
        lemma_section_no_notes(level, threshold, e.links@, color, sec);
        if level >= threshold {
            assert(link_leaves_distinct(sec.leaves@, 0));
        } else {
            lemma_plain_leaves_distinct(e.links@, sec.leaves@, sec.leaves@.len() as int);
        }
        assert(link_leaves_notes(sec.leaves@, 0, sec.leaves@.len() as int) =~= Set::<Seq<char>>::empty()) by {
            assert(link_tree_notes(sec) == Set::<Seq<char>>::empty());
        }
        assert(link_notes_distinct(sec));
        assert(link_leaves_notes(ts, 0, 0) == Set::<Seq<char>>::empty());
        assert(link_leaves_notes(ts, 0, 1) =~= Set::<Seq<char>>::empty());
        assert(link_leaves_distinct(ts, 0));
        assert(link_leaves_distinct(ts, 1));
    } else {
        assert(link_leaves_notes(ts, 0, 0) == Set::<Seq<char>>::empty());
    }
    assert(decreases_to!(t => ts));
    lemma_kids_fresh(g, ns, fw, fw[i]@, ts, off, r1, n, (level + 1) as usize, threshold, color);
    lemma_leaves_notes_split(ts, 0, off, off + n);
    assert(link_leaves_notes(ts, 0, ts.len() as int) =~= link_leaves_notes(ts, off, off + n));
    assert(link_tree_notes(t) =~= set![ns[i]@].union(link_leaves_notes(ts, off, off + n)));
}

proof fn lemma_kids_fresh(
    g: Seq<Option<NoteLinks>>,
    ns: Seq<String>,
    fw: Seq<Vec<usize>>,
    fs: Seq<usize>,
    ts: Seq<LinkTree>,
    off: int,
    r: Set<Seq<char>>,
    n: int,
    level: usize,
    threshold: usize,
    color: ColorScheme,
)
    requires
        link_kids(g, ns, fw, fs, ts, off, r, n, level, threshold, color),
        0 <= off,
        0 <= n,
        off + n <= ts.len(),
        link_leaves_notes(ts, 0, off) == Set::<Seq<char>>::empty(),
        link_leaves_distinct(ts, off),
        forall|j: int| 0 <= j < ns.len() && j < g.len() && g[j] is Some ==> g[j]->Some_0.note.spec_name() == ns[j]@,
    ensures
        apart(link_leaves_notes(ts, off, off + n), r),
        link_leaves_distinct(ts, off + n),
    decreases ts, n,
{
    if n > 0 {
        lemma_kids_fresh(g, ns, fw, fs, ts, off, r, n - 1, level, threshold, color);
        let c = ts[off + n - 1];
        let before = link_leaves_notes(ts, off, off + n - 1);
        lemma_child_fresh(g, ns, fw, fs[fs.len() - n] as int, r.union(before), level, threshold, color, c);
        lemma_leaves_notes_split(ts, 0, off, off + n - 1);
        assert(link_leaves_notes(ts, 0, off + n - 1) =~= before);
    }
}

proof fn lemma_child_fresh(
    g: Seq<Option<NoteLinks>>,
    ns: Seq<String>,
    fw: Seq<Vec<usize>>,
    f: int,
    r: Set<Seq<char>>,
    level: usize,
    threshold: usize,
    color: ColorScheme,
    c: LinkTree,
)
    requires
        link_child_built(g, ns, fw, f, r, level, threshold, color, c),
        forall|j: int| 0 <= j < ns.len() && j < g.len() && g[j] is Some ==> g[j]->Some_0.note.spec_name() == ns[j]@,
    ensures
        apart(link_tree_notes(c), r),
        link_notes_distinct(c),
    decreases c, 2int,
{
    if 0 <= f < ns.len() && r.contains(ns[f]@) {
        assert(link_leaves_notes(c.leaves@, 0, 0) == Set::<Seq<char>>::empty());
        assert(link_tree_notes(c) =~= Set::<Seq<char>>::empty());
    } else {
        lemma_built_fresh(g, ns, fw, f, r, level, threshold, color, c);
    }
}

/// A link tree built from the link graph holds no note that was reached before it, and no
/// note twice: the names reached grow by exactly the notes in the tree, each met once.
pub proof fn lemma_link_tree_fresh(
    g: Seq<Option<NoteLinks>>,
    ns: Seq<String>,
    fw: Seq<Vec<usize>>,
    i: int,
    rin: Set<Seq<char>>,
    level: usize,
    threshold: usize,
    color: ColorScheme,
    t: LinkTree,
)
    requires
        link_built(g, ns, fw, i, rin, level, threshold, color, t),
        forall|j: int| 0 <= j < ns.len() && j < g.len() && g[j] is Some ==> g[j]->Some_0.note.spec_name() == ns[j]@,
    ensures
        apart(link_tree_notes(t), rin),
        link_notes_distinct(t),
{
    lemma_built_fresh(g, ns, fw, i, rin, level, threshold, color, t);
}

} // verus!
