use vstd::prelude::*;
use crate::config::color::ColorScheme;
use crate::note::Note;
use crate::note::reachable::{contains_name, distinct, insert_name, names};
use crate::note::task_items_term_tree::{
    lemma_hint_counts_all_tasks, lemma_tree_of_tasks_only, task_section, task_section_shows, task_terms_only, tasks_ready,
    top_roots, tree_of, trees_for, NoteTaskItemTerm, TaskTree,
};
use crate::note::tree_build::{
    apart, graph_wf, lemma_unvisited_insert, lemma_unvisited_le_len, lemma_unvisited_subset, unvisited,
};
use crate::task_item::TaskItem;

verus! {

broadcast use vstd::string::group_string_axioms;

/// A note of the link graph as the task tree needs it: the note, and the task items found in
/// it.
pub struct NoteTasks {
    pub note: Note,
    pub tasks: Vec<TaskItem>,
}

/// The names of the notes that stand as note terms in a task tree: its root when that is a
/// note, and those of the trees under it.
pub open spec fn task_tree_notes(t: TaskTree) -> Set<Seq<char>>
    decreases t, 1int,
{
    let own = match t.root {
        NoteTaskItemTerm::Note(n) => set![n.spec_name()],
        _ => Set::empty(),
    };
    own.union(task_leaves_notes(t.leaves@, 0, t.leaves@.len() as int))
}

/// The names of the notes that stand as note terms in the trees `ts[a..b]`.
pub open spec fn task_leaves_notes(ts: Seq<TaskTree>, a: int, b: int) -> Set<Seq<char>>
    decreases ts, b,
{
    if b <= a || b > ts.len() || a < 0 {
        Set::empty()
    } else {
        task_leaves_notes(ts, a, b - 1).union(task_tree_notes(ts[b - 1]))
    }
}

/// True when `t` is the task tree built from the note at `i` of the graph at depth `level`,
/// with the names `rin` reached before: the note as root, its task section first (when it has
/// task items; built from the trees that grouping them gives), then one tree for each of its forward links, taken in reverse order (see
/// [`task_kids`]). The names reached after are `rin` and those of the notes in `t`.
pub open spec fn task_built(
    g: Seq<Option<NoteTasks>>,
    ns: Seq<String>,
    fw: Seq<Vec<usize>>,
    i: int,
    rin: Set<Seq<char>>,
    level: usize,
    threshold: usize,
    color: ColorScheme,
    t: TaskTree,
) -> bool
    decreases t, 1int,
{
    if 0 <= i < ns.len() && i < g.len() && i < fw.len() && g[i] is Some {
        let e = g[i]->Some_0;
        let off: int = if e.tasks@.len() > 0 {
            1
        } else {
            0
        };
        &&& !rin.contains(ns[i]@)
        &&& t.root == NoteTaskItemTerm::Note(e.note)
        &&& t.leaves@.len() == off + fw[i]@.len()
        &&& (off == 1 ==> exists|trees: Seq<TaskTree>|
            #[trigger] trees_for(trees, e.tasks@, top_roots(e.tasks@, 0), false)
                && task_section_shows(level, threshold, trees, color, t.leaves@[0]))
        &&& task_kids(g, ns, fw, fw[i]@, t.leaves@, off, rin.insert(ns[i]@), fw[i]@.len() as int, (level + 1) as usize, threshold, color)
    } else {
        false
    }
}

/// True when the `n` trees of `ts` after its first `off` are those of the last `n` forward
/// links of `fs` taken from the last one back, each built with `r` and the names of the notes
/// in the trees before it reached (see [`task_child_built`]).
pub open spec fn task_kids(
    g: Seq<Option<NoteTasks>>,
    ns: Seq<String>,
    fw: Seq<Vec<usize>>,
    fs: Seq<usize>,
    ts: Seq<TaskTree>,
    off: int,
    r: Set<Seq<char>>,
    n: int,
    level: usize,
    threshold: usize,
    color: ColorScheme,
) -> bool
    decreases ts, n,
{
    if n <= 0 || off < 0 || off + n > ts.len() || n > fs.len() {
        n == 0
    } else {
        &&& task_kids(g, ns, fw, fs, ts, off, r, n - 1, level, threshold, color)
        &&& task_child_built(
            g,
            ns,
            fw,
            fs[fs.len() - n] as int,
            r.union(task_leaves_notes(ts, off, off + n - 1)),
            level,
            threshold,
            color,
            ts[off + n - 1],
        )
    }
}

/// True when `c` is what the link to the note at `f` gives when the names `r` are reached: a
/// cycle leaf with the note's name when it is among them, else the tree built from that note.
pub open spec fn task_child_built(
    g: Seq<Option<NoteTasks>>,
    ns: Seq<String>,
    fw: Seq<Vec<usize>>,
    f: int,
    r: Set<Seq<char>>,
    level: usize,
    threshold: usize,
    color: ColorScheme,
    c: TaskTree,
) -> bool
    decreases c, 2int,
{
    if 0 <= f < ns.len() && r.contains(ns[f]@) {
        &&& c.root matches NoteTaskItemTerm::Cycle(name, cc) && name@ == ns[f]@ && cc == color
        &&& c.leaves@.len() == 0
    } else {
        task_built(g, ns, fw, f, r, level, threshold, color, c)
    }
}

proof fn lemma_task_leaves_notes_prefix(ts: Seq<TaskTree>, us: Seq<TaskTree>, a: int, b: int)
    requires
        0 <= a,
        b <= ts.len(),
        b <= us.len(),
        forall|m: int| 0 <= m < b ==> ts[m] == us[m],
    ensures
        task_leaves_notes(ts, a, b) == task_leaves_notes(us, a, b),
    decreases b,
{
    if b > a {
        lemma_task_leaves_notes_prefix(ts, us, a, b - 1);
    }
}

proof fn lemma_task_kids_prefix(
    g: Seq<Option<NoteTasks>>,
    ns: Seq<String>,
    fw: Seq<Vec<usize>>,
    fs: Seq<usize>,
    ts: Seq<TaskTree>,
    us: Seq<TaskTree>,
    off: int,
    r: Set<Seq<char>>,
    n: int,
    level: usize,
    threshold: usize,
    color: ColorScheme,
)
    requires
        0 <= off,
        0 <= n,
        off + n <= ts.len(),
        off + n <= us.len(),
        forall|m: int| 0 <= m < off + n ==> ts[m] == us[m],
        task_kids(g, ns, fw, fs, ts, off, r, n, level, threshold, color),
    ensures
        task_kids(g, ns, fw, fs, us, off, r, n, level, threshold, color),
    decreases n,
{
    if n > 0 {
        lemma_task_kids_prefix(g, ns, fw, fs, ts, us, off, r, n - 1, level, threshold, color);
        lemma_task_leaves_notes_prefix(ts, us, off, off + n - 1);
    }
}

proof fn lemma_task_leaves_notes_split(ts: Seq<TaskTree>, a: int, m: int, b: int)
    requires
        0 <= a <= m <= b <= ts.len(),
    ensures
        task_leaves_notes(ts, a, b) == task_leaves_notes(ts, a, m).union(task_leaves_notes(ts, m, b)),
    decreases b,
{
    if b > m {
        lemma_task_leaves_notes_split(ts, a, m, b - 1);
        assert(task_leaves_notes(ts, a, b) =~= task_leaves_notes(ts, a, m).union(task_leaves_notes(ts, m, b)));
    } else {
        assert(task_leaves_notes(ts, a, m).union(Set::empty()) =~= task_leaves_notes(ts, a, m));
    }
}

proof fn lemma_tasks_only_notes(t: TaskTree)
    requires
        task_terms_only(t),
    ensures
        task_tree_notes(t) == Set::<Seq<char>>::empty(),
        task_notes_distinct(t),
    decreases t, 1int,
{
    lemma_tasks_only_leaves(t.leaves@, t.leaves@.len() as int);
    assert(task_tree_notes(t) =~= Set::<Seq<char>>::empty());
}

proof fn lemma_tasks_only_leaves(ts: Seq<TaskTree>, b: int)
    requires
        0 <= b <= ts.len(),
        forall|k: int| 0 <= k < b ==> task_terms_only(#[trigger] ts[k]),
    ensures
        task_leaves_notes(ts, 0, b) == Set::<Seq<char>>::empty(),
        task_leaves_distinct(ts, b),
    decreases ts, b,
{
    if b > 0 {
        lemma_tasks_only_leaves(ts, b - 1);
        assert(task_terms_only(ts[b - 1]));
        lemma_tasks_only_notes(ts[b - 1]);
        assert(task_leaves_notes(ts, 0, b) =~= Set::<Seq<char>>::empty());
    }
}

proof fn lemma_task_section_no_notes(
    level: usize,
    threshold: usize,
    s: Seq<TaskItem>,
    trees: Seq<TaskTree>,
    color: ColorScheme,
    t: TaskTree,
)
    requires
        trees_for(trees, s, top_roots(s, 0), false),
        task_section_shows(level, threshold, trees, color, t),
    ensures
        task_tree_notes(t) == Set::<Seq<char>>::empty(),
        task_notes_distinct(t),
{
    assert forall|k: int| 0 <= k < t.leaves@.len() implies task_terms_only(#[trigger] t.leaves@[k]) by {
        assert(t.leaves@ == trees);
        assert(tree_of(trees[k], s, top_roots(s, 0)[k], false));
        lemma_tree_of_tasks_only(trees[k], s, top_roots(s, 0)[k], false);
    }
    lemma_tasks_only_notes(t);
}

fn build_task(
    i: usize,
    ns: &Vec<String>,
    fw: &Vec<Vec<usize>>,
    notes: &mut Vec<Option<NoteTasks>>,
    reached: &mut Vec<String>,
    level: usize,
    threshold: usize,
    color: ColorScheme,
    Ghost(g): Ghost<Seq<Option<NoteTasks>>>,
) -> (t: TaskTree)
    requires
        graph_wf(ns@, fw@),
        old(notes)@.len() == ns@.len(),
        g.len() == ns@.len(),
        i < ns@.len(),
        !names(old(reached)@).contains(ns@[i as int]@),
        distinct(old(reached)@),
        forall|j: int|
            0 <= j < ns@.len() && !names(old(reached)@).contains(ns@[j]@) ==> old(notes)@[j] == g[j] && g[j] is Some,
        forall|j: int| 0 <= j < ns@.len() && g[j] is Some ==> g[j]->Some_0.note.spec_name() == ns@[j]@,
        forall|j: int| 0 <= j < ns@.len() && g[j] is Some ==> tasks_ready(g[j]->Some_0.tasks@),
        level + unvisited(ns@, names(old(reached)@)) <= usize::MAX,
    ensures
        final(notes)@.len() == ns@.len(),
        distinct(final(reached)@),
        names(final(reached)@) == names(old(reached)@).union(task_tree_notes(t)),
        forall|j: int|
            0 <= j < ns@.len() && !names(final(reached)@).contains(ns@[j]@) ==> final(notes)@[j] == old(notes)@[j],
        task_built(g, ns@, fw@, i as int, names(old(reached)@), level, threshold, color, t),
    decreases unvisited(ns@, names(old(reached)@)),
{
    let ghost rin = names(reached@);
    let ghost notes0 = notes@;
    let mut slot: Option<NoteTasks> = None;
    assert(notes0[i as int] == g[i as int]);
    notes.set_and_swap(i, &mut slot);
    let entry = slot.unwrap();
    let NoteTasks { note, tasks } = entry;
    let ghost tasks_view = tasks@;
    let ghost note_view = note;
    insert_name(reached, &ns[i]);
    let ghost r1 = names(reached@);
    proof {
        lemma_unvisited_insert(ns@, rin, i as int);
    }
    let count = tasks.len();
    let trees = NoteTaskItemTerm::parse(tasks.as_slice(), true, false);
    let ghost trees_view = trees@;
    proof {
        lemma_hint_counts_all_tasks(tasks_view, trees_view, false);
        if tasks_view.len() > 0 {
            assert(top_roots(tasks_view, 0).len() > 0);
        } else {
            assert(top_roots(tasks_view, 0) == Seq::<int>::empty());
        }
    }
    let section = task_section(level, threshold, trees, color);
    let mut leaves: Vec<TaskTree> = Vec::new();
    match section {
        Some(sec) => leaves.push(sec),
        None => {},
    }
    let ghost off: int = if tasks_view.len() > 0 { 1 } else { 0 };
    let ghost first = leaves@;
    proof {
        if off == 1 {
            lemma_task_section_no_notes(level, threshold, tasks_view, trees_view, color, first[0]);
            assert(task_leaves_notes(first, 0, 0) == Set::<Seq<char>>::empty());
            assert(task_leaves_notes(first, 0, 1) =~= Set::<Seq<char>>::empty());
        }
        assert(r1 =~= r1.union(task_leaves_notes(leaves@, off, off)));
    }
    let fs = &fw[i];
    let n = fs.len();
    let mut j: usize = 0;
    while j < n
        invariant
            graph_wf(ns@, fw@),
            notes@.len() == ns@.len(),
            g.len() == ns@.len(),
            notes0.len() == ns@.len(),
            i < ns@.len(),
            *fs == fw@[i as int],
            n == fs@.len(),
            j <= n,
            leaves@.len() == off + j,
            off == 0 || off == 1,
            first.len() == off,
            off == 1 ==> leaves@[0] == first[0],
            off == 1 ==> task_leaves_notes(first, 0, 1) == Set::<Seq<char>>::empty(),
            distinct(reached@),
            r1 == rin.insert(ns@[i as int]@),
            rin == names(old(reached)@),
            names(reached@) == r1.union(task_leaves_notes(leaves@, off, off + j)),
            unvisited(ns@, r1) < unvisited(ns@, rin),
            level + unvisited(ns@, rin) <= usize::MAX,
            forall|k: int|
                0 <= k < ns@.len() && !rin.contains(ns@[k]@) ==> notes0[k] == g[k] && g[k] is Some,
            forall|k: int| 0 <= k < ns@.len() && g[k] is Some ==> g[k]->Some_0.note.spec_name() == ns@[k]@,
            forall|k: int| 0 <= k < ns@.len() && g[k] is Some ==> tasks_ready(g[k]->Some_0.tasks@),
            off == 1 ==> trees_for(trees_view, tasks_view, top_roots(tasks_view, 0), false)
                && task_section_shows(level, threshold, trees_view, color, first[0]),
            forall|k: int|
                0 <= k < ns@.len() && !names(reached@).contains(ns@[k]@) ==> notes@[k] == notes0[k],
            task_kids(g, ns@, fw@, fs@, leaves@, off, r1, j as int, (level + 1) as usize, threshold, color),
        decreases n - j,
    {
        let f = fs[n - 1 - j];
        let ghost before = leaves@;
        let ghost rnow = names(reached@);
        assert(fs@.len() - (j + 1) == n - 1 - j);
        assert((f as int) < ns@.len());
        if contains_name(reached, &ns[f]) {
            let name = ns[f].clone();
            leaves.push(TaskTree { root: NoteTaskItemTerm::Cycle(name, color), leaves: Vec::new() });
            proof {
                let c = leaves@[leaves@.len() - 1];
                assert(task_leaves_notes(c.leaves@, 0, 0) == Set::<Seq<char>>::empty());
                assert(task_tree_notes(c) =~= Set::<Seq<char>>::empty());
            }
        } else {
            proof {
                lemma_unvisited_subset(ns@, r1, rnow);
            }
            let child = build_task(f, ns, fw, notes, reached, level + 1, threshold, color, Ghost(g));
            leaves.push(child);
        }
        proof {
            let c = leaves@[leaves@.len() - 1];
            assert(forall|m: int| 0 <= m < off + j ==> before[m] == leaves@[m]);
            lemma_task_kids_prefix(g, ns@, fw@, fs@, before, leaves@, off, r1, j as int, (level + 1) as usize, threshold, color);
            lemma_task_leaves_notes_prefix(before, leaves@, off, off + j);
            assert(task_child_built(
                g,
                ns@,
                fw@,
                fs@[fs@.len() - (j + 1)] as int,
                r1.union(task_leaves_notes(leaves@, off, off + j)),
                (level + 1) as usize,
                threshold,
                color,
                c,
            ));
            assert(task_kids(g, ns@, fw@, fs@, leaves@, off, r1, j + 1, (level + 1) as usize, threshold, color));
            assert(task_leaves_notes(leaves@, off, off + j + 1) == task_leaves_notes(leaves@, off, off + j).union(task_tree_notes(c)));
            assert(names(reached@) =~= r1.union(task_leaves_notes(leaves@, off, off + j + 1)));
            if off == 1 {
                assert(leaves@[0] == first[0]);
                lemma_task_leaves_notes_prefix(first, leaves@, 0, 1);
            }
        }
        j = j + 1;
    }
    let t = TaskTree { root: NoteTaskItemTerm::Note(note), leaves };
    proof {
        lemma_task_leaves_notes_split(t.leaves@, 0, off, off + n);
        if off == 0 {
            assert(task_leaves_notes(t.leaves@, 0, 0) == Set::<Seq<char>>::empty());
        } else {
            lemma_task_leaves_notes_prefix(first, t.leaves@, 0, 1);
        }
        assert(note_view.spec_name() == ns@[i as int]@);
        assert(names(reached@) =~= rin.union(task_tree_notes(t)));
    }
    t
}

/// The task tree of the note at `root` of the link graph, as a note's structure preview shows
/// it: the note, its task section, and for each of its forward links (in reverse order) a
/// cycle leaf when that note was already reached, else the note's own tree, built the same
/// way one level deeper (see [`task_built`]). `reached` are the names reached before; what
/// comes back with the tree are the names reached after: those and the notes in the tree. The
/// graph names its notes `ns`, lists the forward links of each as indices `fw`, and holds each
/// note not yet reached, under its name, with its task items in `notes`.
pub fn task_tree_from(
    root: usize,
    ns: &Vec<String>,
    fw: &Vec<Vec<usize>>,
    notes: Vec<Option<NoteTasks>>,
    reached: Vec<String>,
    threshold: usize,
    color: ColorScheme,
) -> (r: (TaskTree, Vec<String>))
    requires
        graph_wf(ns@, fw@),
        notes@.len() == ns@.len(),
        root < ns@.len(),
        !names(reached@).contains(ns@[root as int]@),
        distinct(reached@),
        forall|j: int| 0 <= j < ns@.len() && !names(reached@).contains(ns@[j]@) ==> notes@[j] is Some,
        forall|j: int| 0 <= j < ns@.len() && notes@[j] is Some ==> notes@[j]->Some_0.note.spec_name() == ns@[j]@,
        forall|j: int| 0 <= j < ns@.len() && notes@[j] is Some ==> tasks_ready(notes@[j]->Some_0.tasks@),
    ensures
        task_built(notes@, ns@, fw@, root as int, names(reached@), 0, threshold, color, r.0),
        distinct(r.1@),
        names(r.1@) == names(reached@).union(task_tree_notes(r.0)),
{
    let ghost g = notes@;
    let mut notes = notes;
    let mut reached = reached;
    let count = ns.len();
    proof {
        lemma_unvisited_le_len(ns@, names(reached@));
    }
    let t = build_task(root, ns, fw, &mut notes, &mut reached, 0, threshold, color, Ghost(g));
    (t, reached)
}

/// True when no note stands twice as a note term in the task tree: its root's note is in none
/// of the trees under it, and no two of those trees share a note.
pub open spec fn task_notes_distinct(t: TaskTree) -> bool
    decreases t, 1int,
{
    &&& (t.root matches NoteTaskItemTerm::Note(n) ==> !task_leaves_notes(t.leaves@, 0, t.leaves@.len() as int).contains(n.spec_name()))
    &&& task_leaves_distinct(t.leaves@, t.leaves@.len() as int)
}

/// True when no note stands twice as a note term in the trees `ts[..b]`.
pub open spec fn task_leaves_distinct(ts: Seq<TaskTree>, b: int) -> bool
    decreases ts, b,
{
    if b <= 0 || b > ts.len() {
        true
    } else {
        &&& task_leaves_distinct(ts, b - 1)
        &&& task_notes_distinct(ts[b - 1])
        &&& apart(task_leaves_notes(ts, 0, b - 1), task_tree_notes(ts[b - 1]))
    }
}

proof fn lemma_task_built_fresh(
    g: Seq<Option<NoteTasks>>,
    ns: Seq<String>,
    fw: Seq<Vec<usize>>,
    i: int,
    rin: Set<Seq<char>>,
    level: usize,
    threshold: usize,
    color: ColorScheme,
    t: TaskTree,
)
    requires
        task_built(g, ns, fw, i, rin, level, threshold, color, t),
        forall|j: int| 0 <= j < ns.len() && j < g.len() && g[j] is Some ==> g[j]->Some_0.note.spec_name() == ns[j]@,
    ensures
        apart(task_tree_notes(t), rin),
        task_notes_distinct(t),
    decreases t, 1int,
{
    let e = g[i]->Some_0;
    let off: int = if e.tasks@.len() > 0 { 1 } else { 0 };
    let ts = t.leaves@;
    let n = fw[i]@.len() as int;
    let r1 = rin.insert(ns[i]@);
    if off == 1 {
        let sec = ts[0];
        let trees = choose|trees: Seq<TaskTree>|
            #[trigger] trees_for(trees, e.tasks@, top_roots(e.tasks@, 0), false)
                && task_section_shows(level, threshold, trees, color, sec);
        lemma_task_section_no_notes(level, threshold, e.tasks@, trees, color, sec);
        assert(task_leaves_notes(ts, 0, 0) == Set::<Seq<char>>::empty());
        assert(task_leaves_notes(ts, 0, 1) =~= Set::<Seq<char>>::empty());
        assert(task_leaves_distinct(ts, 0));
        assert(task_leaves_distinct(ts, 1));
    } else {
        assert(task_leaves_notes(ts, 0, 0) == Set::<Seq<char>>::empty());
    }
    assert(decreases_to!(t => ts));
    lemma_task_kids_fresh(g, ns, fw, fw[i]@, ts, off, r1, n, (level + 1) as usize, threshold, color);
    lemma_task_leaves_notes_split(ts, 0, off, off + n);
    assert(task_leaves_notes(ts, 0, ts.len() as int) =~= task_leaves_notes(ts, off, off + n));
    assert(task_tree_notes(t) =~= set![ns[i]@].union(task_leaves_notes(ts, off, off + n)));
}

proof fn lemma_task_kids_fresh(
    g: Seq<Option<NoteTasks>>,
    ns: Seq<String>,
    fw: Seq<Vec<usize>>,
    fs: Seq<usize>,
    ts: Seq<TaskTree>,
    off: int,
    r: Set<Seq<char>>,
    n: int,
    level: usize,
    threshold: usize,
    color: ColorScheme,
)
    requires
        task_kids(g, ns, fw, fs, ts, off, r, n, level, threshold, color),
        0 <= off,
        0 <= n,
        off + n <= ts.len(),
        task_leaves_notes(ts, 0, off) == Set::<Seq<char>>::empty(),
        task_leaves_distinct(ts, off),
        forall|j: int| 0 <= j < ns.len() && j < g.len() && g[j] is Some ==> g[j]->Some_0.note.spec_name() == ns[j]@,
    ensures
        apart(task_leaves_notes(ts, off, off + n), r),
        task_leaves_distinct(ts, off + n),
    decreases ts, n,
{
    if n > 0 {
        lemma_task_kids_fresh(g, ns, fw, fs, ts, off, r, n - 1, level, threshold, color);
        let c = ts[off + n - 1];
        let before = task_leaves_notes(ts, off, off + n - 1);
        lemma_task_child_fresh(g, ns, fw, fs[fs.len() - n] as int, r.union(before), level, threshold, color, c);
        lemma_task_leaves_notes_split(ts, 0, off, off + n - 1);
        assert(task_leaves_notes(ts, 0, off + n - 1) =~= before);
    }
}

proof fn lemma_task_child_fresh(
    g: Seq<Option<NoteTasks>>,
    ns: Seq<String>,
    fw: Seq<Vec<usize>>,
    f: int,
    r: Set<Seq<char>>,
    level: usize,
    threshold: usize,
    color: ColorScheme,
    c: TaskTree,
)
    requires
        task_child_built(g, ns, fw, f, r, level, threshold, color, c),
        forall|j: int| 0 <= j < ns.len() && j < g.len() && g[j] is Some ==> g[j]->Some_0.note.spec_name() == ns[j]@,
    ensures
        apart(task_tree_notes(c), r),
        task_notes_distinct(c),
    decreases c, 2int,
{
    if 0 <= f < ns.len() && r.contains(ns[f]@) {
        assert(task_leaves_notes(c.leaves@, 0, 0) == Set::<Seq<char>>::empty());
        assert(task_tree_notes(c) =~= Set::<Seq<char>>::empty());
    } else {
        lemma_task_built_fresh(g, ns, fw, f, r, level, threshold, color, c);
    }
}

/// A task tree built from the link graph holds no note that was reached before it, and no
/// note twice: the names reached grow by exactly the notes in the tree, each met once.
pub proof fn lemma_task_tree_fresh(
    g: Seq<Option<NoteTasks>>,
    ns: Seq<String>,
    fw: Seq<Vec<usize>>,
    i: int,
    rin: Set<Seq<char>>,
    level: usize,
    threshold: usize,
    color: ColorScheme,
    t: TaskTree,
)
    requires
        task_built(g, ns, fw, i, rin, level, threshold, color, t),
        forall|j: int| 0 <= j < ns.len() && j < g.len() && g[j] is Some ==> g[j]->Some_0.note.spec_name() == ns[j]@,
    ensures
        apart(task_tree_notes(t), rin),
        task_notes_distinct(t),
{
    lemma_task_built_fresh(g, ns, fw, i, rin, level, threshold, color, t);
}

} // verus!
