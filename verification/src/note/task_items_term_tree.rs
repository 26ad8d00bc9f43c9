use vstd::prelude::*;
use crate::config::color::ColorScheme;
use crate::note::Note;
use crate::task_item::{mono_display, task_shown, TaskItem};
use crate::note::note_shown;
use crate::config::external_commands::Open;
use crate::external_commands::{arg_views, replaced_in_all};
use crate::lines::{find_position, position_of};
use crate::link::{replace_in_three, OpenPlan};
use crate::print::{paint_truecolor, painted_truecolor};
use crate::text::{concat2, decimal, usize_to_string};
use vstd::utf8::is_char_boundary;
use vstd::string::*;

verus! {

/// An element of the tree that shows a note with its task items and the notes it links to.
#[derive(Clone)]
pub enum NoteTaskItemTerm {
    Note(Note),
    Task(TaskItem),
    TaskMono(TaskItem),
    TaskHint(bool, usize, ColorScheme),
    Cycle(String, ColorScheme),
}

/// A tree of task item terms: a root and the trees under it, in order.
pub struct TaskTree {
    pub root: NoteTaskItemTerm,
    pub leaves: Vec<TaskTree>,
}

/// The first index at or after `j` whose task item is nested no deeper than `level`, or the
/// length of `s` when there is none.
pub open spec fn extent_from(s: Seq<TaskItem>, level: usize, j: int) -> int
    decreases s.len() - j,
{
    if j < 0 || j >= s.len() {
        s.len() as int
    } else if s[j].nested_level <= level {
        j
    } else {
        extent_from(s, level, j + 1)
    }
}

/// The end of the subtree of the task item at `i`: the first later item nested no deeper.
pub open spec fn extent(s: Seq<TaskItem>, i: int) -> int {
    extent_from(s, s[i].nested_level, i + 1)
}

proof fn lemma_extent_from_bounds(s: Seq<TaskItem>, level: usize, j: int)
    requires
        0 <= j,
    ensures
        j <= extent_from(s, level, j) <= s.len() || (j > s.len() && extent_from(s, level, j) == s.len()),
        j <= s.len() ==> j <= extent_from(s, level, j) <= s.len(),
        forall|k: int| j <= k < extent_from(s, level, j) ==> #[trigger] s[k].nested_level > level,
    decreases s.len() - j,
{
    if j < s.len() && s[j].nested_level > level {
        lemma_extent_from_bounds(s, level, j + 1);
    }
}

/// The subtree of a task item ends after the item and no later than the text.
pub proof fn lemma_extent_bounds(s: Seq<TaskItem>, i: int)
    requires
        0 <= i < s.len(),
    ensures
        i < extent(s, i) <= s.len(),
        forall|k: int| i < k < extent(s, i) ==> #[trigger] s[k].nested_level > s[i].nested_level,
        extent(s, i) < s.len() ==> s[extent(s, i)].nested_level <= s[i].nested_level,
{
    lemma_extent_from_bounds(s, s[i].nested_level, i + 1);
    lemma_extent_from_end(s, s[i].nested_level, i + 1);
}

proof fn lemma_extent_from_end(s: Seq<TaskItem>, level: usize, j: int)
    requires
        0 <= j,
    ensures
        extent_from(s, level, j) < s.len() ==> s[extent_from(s, level, j)].nested_level <= level,
    decreases s.len() - j,
{
    if j < s.len() && s[j].nested_level > level {
        lemma_extent_from_end(s, level, j + 1);
    }
}

/// The roots of the top-level trees of `s` from index `i` on: `i`, then the end of its
/// subtree, and so on.
pub open spec fn top_roots(s: Seq<TaskItem>, i: int) -> Seq<int>
    decreases s.len() - i,
{
    if i < 0 || i >= s.len() {
        Seq::empty()
    } else {
        proof {
            lemma_extent_bounds(s, i);
        }
        seq![i] + top_roots(s, extent(s, i))
    }
}

/// The task item at `i` as the root of its tree: it learns where the next item after its
/// subtree stands, unless it is the last item.
pub open spec fn root_item(s: Seq<TaskItem>, i: int) -> TaskItem {
    let it = s[i];
    if i + 1 < s.len() {
        TaskItem { next_index: Some((it.self_index + (extent(s, i) - i)) as usize), ..it }
    } else {
        it
    }
}

/// The term that shows a task item, in colors or plain.
pub open spec fn task_term(item: TaskItem, mono: bool) -> NoteTaskItemTerm {
    if mono {
        NoteTaskItemTerm::TaskMono(item)
    } else {
        NoteTaskItemTerm::Task(item)
    }
}

/// True when `t` is the tree of the task item at `i` in `s`: the item as root, and under it
/// the top-level trees of the items of its subtree.
pub open spec fn tree_of(t: TaskTree, s: Seq<TaskItem>, i: int, mono: bool) -> bool
    decreases s.len(), 0int,
{
    if 0 <= i < s.len() {
        proof {
            lemma_extent_bounds(s, i);
        }
        &&& t.root == task_term(root_item(s, i), mono)
        &&& trees_for(t.leaves@, s.subrange(i + 1, extent(s, i)), top_roots(s.subrange(i + 1, extent(s, i)), 0), mono)
    } else {
        false
    }
}

/// True when `ts` are the trees of the task items at indices `roots` of `s`, in order.
pub open spec fn trees_for(ts: Seq<TaskTree>, s: Seq<TaskItem>, roots: Seq<int>, mono: bool) -> bool
    decreases s.len(), 1int,
{
    &&& ts.len() == roots.len()
    &&& forall|k: int| 0 <= k < roots.len() ==> tree_of(#[trigger] ts[k], s, roots[k], mono)
}

/// The indices of `s` in order: when trees are not grouped, every item has a tree.
pub open spec fn all_roots(n: int) -> Seq<int> {
    Seq::new(n as nat, |i: int| i)
}

/// True when the index of the next item after the subtree of the task item at `i` fits in a
/// `usize`: its own index plus the number of items in its subtree.
pub open spec fn item_fits(s: Seq<TaskItem>, i: int) -> bool {
    s[i].self_index + (extent(s, i) - i) <= usize::MAX
}

/// True when, for every task item but the last, the index of the next item after its subtree
/// fits in a `usize`.
pub open spec fn indices_fit(s: Seq<TaskItem>) -> bool {
    forall|i: int| 0 <= i && i + 1 < s.len() ==> #[trigger] item_fits(s, i)
}

/// In a window of the items, a subtree ends no later than in the whole.
proof fn lemma_extent_from_sub(s: Seq<TaskItem>, a: int, b: int, level: usize, k: int)
    requires
        0 <= a <= b <= s.len(),
        0 <= k,
    ensures
        extent_from(s.subrange(a, b), level, k) + a <= extent_from(s, level, k + a),
    decreases b - a - k,
{
    let sub = s.subrange(a, b);
    if k >= sub.len() {
        lemma_extent_from_bounds(s, level, k + a);
    } else {
        assert(sub[k] == s[k + a]);
        if sub[k].nested_level > level {
            lemma_extent_from_sub(s, a, b, level, k + 1);
            assert(k + 1 + a == (k + a) + 1);
        }
    }
}

/// The sum of the task item counts of the roots of `ts`.
pub open spec fn roots_total(ts: Seq<TaskTree>) -> int
    decreases ts.len(),
{
    if ts.len() == 0 {
        0
    } else {
        roots_total(ts.drop_last()) + ts.last().root.spec_len_task_items()
    }
}

/// True when the task item count of a term can be computed without overflow.
pub open spec fn countable(t: NoteTaskItemTerm) -> bool {
    match t {
        NoteTaskItemTerm::Task(item) | NoteTaskItemTerm::TaskMono(item) => match item.next_index {
            Some(next) => item.self_index <= next,
            None => item.self_index < usize::MAX,
        },
        _ => true,
    }
}

/// The total number of task items under the roots of `trees`, as the task hint of a note
/// shows it.
pub fn task_hint_total(trees: &Vec<TaskTree>) -> (n: usize)
    requires
        forall|k: int| 0 <= k < trees@.len() ==> countable(#[trigger] trees@[k].root),
        roots_total(trees@) <= usize::MAX,
    ensures
        n == roots_total(trees@),
{
    let mut acc: usize = 0;
    let mut k: usize = 0;
    while k < trees.len()
        invariant
            k <= trees@.len(),
            forall|j: int| 0 <= j < trees@.len() ==> countable(#[trigger] trees@[j].root),
            roots_total(trees@) <= usize::MAX,
            acc == roots_total(trees@.take(k as int)),
        decreases trees@.len() - k,
    {
        assert(trees@.take(k + 1).drop_last() =~= trees@.take(k as int));
        proof {
            lemma_roots_total_prefix(trees@, k + 1);
        }
        let c = trees[k].root.len_task_items();
        acc = acc + c;
        k = k + 1;
    }
    assert(trees@.take(k as int) =~= trees@);
    acc
}

proof fn lemma_roots_total_prefix(ts: Seq<TaskTree>, k: int)
    requires
        0 <= k <= ts.len(),
        forall|j: int| 0 <= j < ts.len() ==> countable(#[trigger] ts[j].root),
    ensures
        0 <= roots_total(ts.take(k)) <= roots_total(ts),
    decreases ts.len() - k,
{
    if k < ts.len() {
        lemma_roots_total_prefix(ts, k + 1);
        assert(ts.take(k + 1).drop_last() =~= ts.take(k));
        assert(countable(ts[k].root));
    } else {
        assert(ts.take(k) =~= ts);
    }
    lemma_roots_total_nonneg(ts.take(k));
}

proof fn lemma_roots_total_nonneg(ts: Seq<TaskTree>)
    requires
        forall|j: int| 0 <= j < ts.len() ==> countable(#[trigger] ts[j].root),
    ensures
        roots_total(ts) >= 0,
    decreases ts.len(),
{
    if ts.len() > 0 {
        assert(countable(ts[ts.len() - 1].root));
        lemma_roots_total_nonneg(ts.drop_last());
    }
}

/// The top-level roots from `i` follow one another: each after the subtree of the one before,
/// the first at `i`, and the subtree of the last ends with the items.
proof fn lemma_top_roots_chain(s: Seq<TaskItem>, i: int)
    requires
        0 <= i < s.len(),
    ensures
        top_roots(s, i).len() > 0,
        top_roots(s, i)[0] == i,
        forall|k: int| 0 <= k < top_roots(s, i).len() ==> i <= #[trigger] top_roots(s, i)[k] < s.len(),
        forall|k: int|
            0 <= k < top_roots(s, i).len() - 1 ==> #[trigger] top_roots(s, i)[k + 1] == extent(
                s,
                top_roots(s, i)[k],
            ),
        extent(s, top_roots(s, i).last()) == s.len(),
    decreases s.len() - i,
{
    lemma_extent_bounds(s, i);
    let e = extent(s, i);
    let rs = top_roots(s, i);
    assert(rs == seq![i] + top_roots(s, e));
    if e < s.len() {
        lemma_top_roots_chain(s, e);
        let rest = top_roots(s, e);
        assert forall|k: int| 0 <= k < rs.len() - 1 implies #[trigger] rs[k + 1] == extent(s, rs[k]) by {
            if k > 0 {
                assert(rs[k] == rest[k - 1]);
                assert(rs[k + 1] == rest[k]);
                assert(rest[(k - 1) + 1] == extent(s, rest[k - 1]));
            } else {
                assert(rs[1] == rest[0]);
            }
        }
        assert(rs.last() == rest.last());
    } else {
        assert(top_roots(s, e) == Seq::<int>::empty());
    }
}

/// The task hint of a note counts every task item of the note: over the top-level trees that
/// grouping the note's task items gives, the task item counts of the roots add up to the
/// number of items. (When the last item is itself a top-level root, its count is its index
/// plus one, so that index must be below `usize::MAX`.)
pub proof fn lemma_hint_counts_all_tasks(s: Seq<TaskItem>, trees: Seq<TaskTree>, mono: bool)
    requires
        indices_fit(s),
        forall|i: int| 0 <= i < s.len() ==> (#[trigger] s[i]).next_index is None,
        top_roots(s, 0).contains(s.len() - 1) ==> s[s.len() - 1].self_index < usize::MAX,
        trees_for(trees, s, top_roots(s, 0), mono),
    ensures
        roots_total(trees) == s.len(),
        forall|k: int| 0 <= k < trees.len() ==> countable(#[trigger] trees[k].root),
{
    if s.len() == 0 {
        assert(trees.len() == 0);
    } else {
        let rs = top_roots(s, 0);
        lemma_top_roots_chain(s, 0);
        assert forall|k: int| 0 <= k < rs.len() implies (#[trigger] trees[k]).root.spec_len_task_items()
            == extent(s, rs[k]) - rs[k] && countable(trees[k].root) by {
            assert(tree_of(trees[k], s, rs[k], mono));
            lemma_extent_bounds(s, rs[k]);
            if rs[k] + 1 < s.len() {
                assert(item_fits(s, rs[k]));
            } else {
                assert(rs.contains(s.len() - 1));
            }
        }
        assert forall|m: int| 0 < m <= rs.len() implies roots_total(#[trigger] trees.take(m)) == (if m < rs.len() {
            rs[m]
        } else {
            s.len() as int
        }) by {
            lemma_prefix_telescopes(s, trees, rs, m);
        }
        assert(trees.take(rs.len() as int) =~= trees);
    }
}

proof fn lemma_prefix_telescopes(s: Seq<TaskItem>, trees: Seq<TaskTree>, rs: Seq<int>, m: int)
    requires
        0 < m <= rs.len(),
        trees.len() == rs.len(),
        rs[0] == 0,
        forall|k: int| 0 <= k < rs.len() - 1 ==> #[trigger] rs[k + 1] == extent(s, rs[k]),
        extent(s, rs.last()) == s.len(),
        forall|k: int| 0 <= k < rs.len() ==> (#[trigger] trees[k]).root.spec_len_task_items() == extent(s, rs[k]) - rs[k],
    ensures
        roots_total(trees.take(m)) == (if m < rs.len() {
            rs[m]
        } else {
            s.len() as int
        }),
    decreases m,
{
    assert(trees.take(m).drop_last() =~= trees.take(m - 1));
    assert(trees.take(m).last() == trees[m - 1]);
    assert(trees[m - 1].root.spec_len_task_items() == extent(s, rs[m - 1]) - rs[m - 1]);
    assert(roots_total(trees.take(m)) == roots_total(trees.take(m - 1)) + trees[m - 1].root.spec_len_task_items());
    if m == 1 {
        assert(trees.take(0) =~= Seq::<TaskTree>::empty());
    } else {
        lemma_prefix_telescopes(s, trees, rs, m - 1);
    }
    if m < rs.len() {
        assert(rs[(m - 1) + 1] == extent(s, rs[m - 1]));
    } else {
        assert(rs[m - 1] == rs.last());
    }
}

/// The number of terms in the tree.
pub open spec fn task_tree_size(t: TaskTree) -> nat
    decreases t, t.leaves@.len() + 1,
{
    1 + task_leaves_size(t, t.leaves@.len() as int)
}

/// The number of terms in the first `n` trees under the root of `t`.
pub open spec fn task_leaves_size(t: TaskTree, n: int) -> nat
    decreases t, n,
{
    if n <= 0 || n > t.leaves@.len() {
        0
    } else {
        proof {
            assert(decreases_to!(t => t.leaves@[n - 1]));
        }
        task_leaves_size(t, n - 1) + task_tree_size(t.leaves@[n - 1])
    }
}


/// True when every term of the tree counts exactly the task items of its own subtree: as many
/// as the tree has terms.
pub open spec fn counts_own_subtree(t: TaskTree) -> bool
    decreases t,
{
    &&& t.root.spec_len_task_items() == task_tree_size(t)
    &&& forall|k: int| 0 <= k < t.leaves@.len() ==> counts_own_subtree(#[trigger] t.leaves@[k])
}

proof fn lemma_leaves_size(t: TaskTree, sub: Seq<TaskItem>, rs: Seq<int>, m: int)
    requires
        0 <= m <= rs.len(),
        t.leaves@.len() == rs.len(),
        rs.len() > 0 ==> rs[0] == 0,
        forall|k: int| 0 <= k < rs.len() - 1 ==> #[trigger] rs[k + 1] == extent(sub, rs[k]),
        rs.len() > 0 ==> extent(sub, rs.last()) == sub.len(),
        forall|k: int| 0 <= k < rs.len() ==> task_tree_size(#[trigger] t.leaves@[k]) == extent(sub, rs[k]) - rs[k],
    ensures
        task_leaves_size(t, m) == (if m == 0 {
            0
        } else if m < rs.len() {
            rs[m]
        } else {
            sub.len() as int
        }),
    decreases m,
{
    if m > 0 {
        lemma_leaves_size(t, sub, rs, m - 1);
        assert(task_tree_size(t.leaves@[m - 1]) == extent(sub, rs[m - 1]) - rs[m - 1]);
        if m < rs.len() {
            assert(rs[(m - 1) + 1] == extent(sub, rs[m - 1]));
        } else {
            assert(rs[m - 1] == rs.last());
        }
        if m > 1 {
            assert(rs[(m - 2) + 1] == extent(sub, rs[m - 2]));
        }
    }
}

proof fn lemma_subtree_counts(t: TaskTree, s: Seq<TaskItem>, i: int, mono: bool)
    requires
        indices_fit(s),
        forall|j: int| 0 <= j < s.len() ==> (#[trigger] s[j]).next_index is None,
        tree_of(t, s, i, mono),
    ensures
        counts_own_subtree(t),
        task_tree_size(t) == extent(s, i) - i,
    decreases s.len(), 0int,
{
    lemma_extent_bounds(s, i);
    let e = extent(s, i);
    let sub = s.subrange(i + 1, e);
    let rs = top_roots(sub, 0);
    lemma_indices_fit_sub(s, i + 1, e);
    assert forall|j: int| 0 <= j < sub.len() implies (#[trigger] sub[j]).next_index is None by {
        assert(sub[j] == s[i + 1 + j]);
    }
    assert(trees_for(t.leaves@, sub, rs, mono));
    if sub.len() > 0 {
        lemma_top_roots_chain(sub, 0);
    } else {
        assert(rs == Seq::<int>::empty());
    }
    assert forall|k: int| 0 <= k < rs.len() implies counts_own_subtree(#[trigger] t.leaves@[k])
        && task_tree_size(t.leaves@[k]) == extent(sub, rs[k]) - rs[k] by {
        assert(tree_of(t.leaves@[k], sub, rs[k], mono));
        lemma_subtree_counts(t.leaves@[k], sub, rs[k], mono);
    }
    lemma_leaves_size(t, sub, rs, rs.len() as int);
    if i + 1 < s.len() {
        assert(item_fits(s, i));
    }
}

/// Every term of every tree that grouping task items gives (or that listing them one by one
/// gives) counts exactly the task items of its own subtree.
pub proof fn lemma_parse_counts_subtrees(s: Seq<TaskItem>, trees: Seq<TaskTree>, group: bool, mono: bool)
    requires
        indices_fit(s),
        forall|j: int| 0 <= j < s.len() ==> (#[trigger] s[j]).next_index is None,
        trees_for(trees, s, if group { top_roots(s, 0) } else { all_roots(s.len() as int) }, mono),
    ensures
        forall|k: int| 0 <= k < trees.len() ==> counts_own_subtree(#[trigger] trees[k]),
{
    let rs = if group { top_roots(s, 0) } else { all_roots(s.len() as int) };
    if group && s.len() > 0 {
        lemma_top_roots_chain(s, 0);
    }
    if group && s.len() == 0 {
        assert(rs == Seq::<int>::empty());
    }
    assert forall|k: int| 0 <= k < trees.len() implies counts_own_subtree(#[trigger] trees[k]) by {
        assert(tree_of(trees[k], s, rs[k], mono));
        lemma_subtree_counts(trees[k], s, rs[k], mono);
    }
}

impl NoteTaskItemTerm {
    /// How many task items the term covers: for a task, from its own index to the next item
    /// after its subtree (one when that is not known); nothing for other terms.
    pub open spec fn spec_len_task_items(&self) -> int {
        match self {
            NoteTaskItemTerm::Task(item) | NoteTaskItemTerm::TaskMono(item) => match item.next_index {
                Some(next) => next - item.self_index,
                None => 1,
            },
            _ => 0,
        }
    }

    /// Whether the task item count of the term can be taken (see [`countable`]).
    pub fn is_countable(&self) -> (b: bool)
        ensures
            b == countable(*self),
    {
        match self {
            Self::Task(item) | Self::TaskMono(item) => match item.next_index {
                Some(next) => item.self_index <= next,
                None => item.self_index < usize::MAX,
            },
            _ => true,
        }
    }

    /// The number of task items under this term.
    pub fn len_task_items(&self) -> (n: usize)
        requires
            match self {
                NoteTaskItemTerm::Task(item) | NoteTaskItemTerm::TaskMono(item) => match item.next_index {
                    Some(next) => item.self_index <= next,
                    None => item.self_index < usize::MAX,
                },
                _ => true,
            },
        ensures
            n == self.spec_len_task_items(),
    {
        match self {
            Self::Task(item) | Self::TaskMono(item) => {
                let start = item.self_index;
                let next = match item.next_index {
                    Some(next) => next,
                    None => start + 1,
                };
                next - start
            },
            _ => 0,
        }
    }

    /// The trees of task items `input`, each item as deep as its nesting level says: when
    /// `group_by_top_level`, one tree for each top-level item with the items nested under it
    /// as its subtrees; otherwise one tree for every item. Items are shown plain when `mono`.
    pub fn parse(input: &[TaskItem], group_by_top_level: bool, mono: bool) -> (trees: Vec<TaskTree>)
        requires
            indices_fit(input@),
        ensures
            trees_for(
                trees@,
                input@,
                if group_by_top_level {
                    top_roots(input@, 0)
                } else {
                    all_roots(input@.len() as int)
                },
                mono,
            ),
    {
        assert(input@.subrange(0, input@.len() as int) =~= input@);
        parse_window(input, 0, input.len(), group_by_top_level, mono)
    }
}

proof fn lemma_indices_fit_sub(s: Seq<TaskItem>, lo: int, hi: int)
    requires
        indices_fit(s),
        0 <= lo <= hi <= s.len(),
    ensures
        indices_fit(s.subrange(lo, hi)),
{
    let sub = s.subrange(lo, hi);
    assert forall|i: int| 0 <= i && i + 1 < sub.len() implies #[trigger] item_fits(sub, i) by {
        assert(sub[i] == s[lo + i]);
        lemma_extent_from_sub(s, lo, hi, s[lo + i].nested_level, i + 1);
        assert(i + 1 + lo == (lo + i) + 1);
        assert(item_fits(s, lo + i));
        lemma_extent_bounds(sub, i);
    }
}

/// The end of the subtree of the task item at `i` (see [`extent`]).
fn extent_of(input: &[TaskItem], i: usize) -> (e: usize)
    requires
        i < input@.len(),
    ensures
        e == extent(input@, i as int),
{
    let ghost s = input@;
    proof {
        lemma_extent_bounds(s, i as int);
        lemma_extent_from_bounds(s, s[i as int].nested_level, i + 1);
    }
    let level = input[i].nested_level;
    let mut end = i + 1;
    while end < input.len() && input[end].nested_level > level
        invariant
            i < end <= input@.len(),
            s == input@,
            level == s[i as int].nested_level,
            end <= extent(s, i as int),
            extent_from(s, level, end as int) == extent(s, i as int),
        decreases input@.len() - end,
    {
        proof {
            lemma_extent_from_bounds(s, level, end + 1);
        }
        end = end + 1;
    }
    end
}

/// True when the task items of a note can be grouped into trees and counted: the indices fit
/// (see [`indices_fit`]), no item knows its next index yet, and the last item, when it heads a
/// top-level tree, does not have the greatest index.
pub open spec fn tasks_ready(s: Seq<TaskItem>) -> bool {
    &&& indices_fit(s)
    &&& forall|j: int| 0 <= j < s.len() ==> (#[trigger] s[j]).next_index is None
    &&& top_roots(s, 0).contains(s.len() - 1) ==> s[s.len() - 1].self_index < usize::MAX
}

proof fn lemma_contains_cons(a: int, r: Seq<int>, x: int)
    ensures
        (seq![a] + r).contains(x) <==> (a == x || r.contains(x)),
{
    let s = seq![a] + r;
    if s.contains(x) {
        let k = choose|k: int| 0 <= k < s.len() && s[k] == x;
        if k > 0 {
            assert(r[k - 1] == x);
        }
    }
    if r.contains(x) {
        let k = choose|k: int| 0 <= k < r.len() && r[k] == x;
        assert(s[k + 1] == x);
    }
    if a == x {
        assert(s[0] == x);
    }
}

/// Whether the task items of a note can be grouped into trees and counted (see
/// [`tasks_ready`]).
pub fn tasks_ready_check(input: &[TaskItem]) -> (b: bool)
    ensures
        b == tasks_ready(input@),
{
    if !indices_fit_check(input) {
        return false;
    }
    let mut k: usize = 0;
    while k < input.len()
        invariant
            k <= input@.len(),
            forall|j: int| 0 <= j < k ==> (#[trigger] input@[j]).next_index is None,
        decreases input@.len() - k,
    {
        if input[k].next_index.is_some() {
            return false;
        }
        k = k + 1;
    }
    if input.len() == 0 {
        return true;
    }
    let last = input.len() - 1;
    let ghost s = input@;
    let mut found = false;
    let mut idx: usize = 0;
    while idx < input.len()
        invariant
            s == input@,
            last == s.len() - 1,
            idx <= s.len(),
            top_roots(s, 0).contains(last as int) <==> (found || top_roots(s, idx as int).contains(last as int)),
        decreases s.len() - idx,
    {
        proof {
            lemma_extent_bounds(s, idx as int);
            lemma_contains_cons(idx as int, top_roots(s, extent(s, idx as int)), last as int);
        }
        if idx == last {
            found = true;
        }
        idx = extent_of(input, idx);
    }
    assert(top_roots(s, idx as int) == Seq::<int>::empty());
    !found || input[last].self_index < usize::MAX
}

/// True when no term of the task tree is a note: every term is a task item, a hint or a cycle.
pub open spec fn task_terms_only(t: TaskTree) -> bool
    decreases t,
{
    &&& !(t.root is Note)
    &&& forall|k: int| 0 <= k < t.leaves@.len() ==> task_terms_only(#[trigger] t.leaves@[k])
}

/// The trees that grouping task items gives hold task items only.
pub proof fn lemma_tree_of_tasks_only(t: TaskTree, s: Seq<TaskItem>, i: int, mono: bool)
    requires
        tree_of(t, s, i, mono),
    ensures
        task_terms_only(t),
    decreases s.len(),
{
    lemma_extent_bounds(s, i);
    let sub = s.subrange(i + 1, extent(s, i));
    let rs = top_roots(sub, 0);
    if sub.len() > 0 {
        lemma_top_roots_chain(sub, 0);
    } else {
        assert(rs == Seq::<int>::empty());
    }
    assert forall|k: int| 0 <= k < t.leaves@.len() implies task_terms_only(#[trigger] t.leaves@[k]) by {
        assert(tree_of(t.leaves@[k], sub, rs[k], mono));
        lemma_tree_of_tasks_only(t.leaves@[k], sub, rs[k], mono);
    }
}

/// Whether, for every task item but the last, the index of the next item after its subtree
/// fits in a `usize` (see [`indices_fit`]): what [`NoteTaskItemTerm::parse`] needs.
pub fn indices_fit_check(input: &[TaskItem]) -> (b: bool)
    ensures
        b == indices_fit(input@),
{
    let mut i: usize = 0;
    while i < input.len() && i + 1 < input.len()
        invariant
            i <= input@.len(),
            forall|k: int| 0 <= k < i && k + 1 < input@.len() ==> #[trigger] item_fits(input@, k),
        decreases input@.len() - i,
    {
        let e = extent_of(input, i);
        proof {
            lemma_extent_bounds(input@, i as int);
        }
        if input[i].self_index > usize::MAX - (e - i) {
            assert(!item_fits(input@, i as int));
            return false;
        }
        i = i + 1;
    }
    true
}

fn tree_at(input: &[TaskItem], lo: usize, hi: usize, i: usize, mono: bool) -> (t: TaskTree)
    requires
        lo <= i < hi <= input@.len(),
        indices_fit(input@.subrange(lo as int, hi as int)),
    ensures
        tree_of(t, input@.subrange(lo as int, hi as int), i - lo, mono),
    decreases hi - lo, 0int,
{
    let ghost s = input@.subrange(lo as int, hi as int);
    let ghost r = i - lo;
    proof {
        lemma_extent_bounds(s, r);
        lemma_extent_from_bounds(s, s[r].nested_level, r + 1);
    }
    let level = input[i].nested_level;
    let mut end = i + 1;
    while end < hi && input[end].nested_level > level
        invariant
            lo <= i < end <= hi <= input@.len(),
            s == input@.subrange(lo as int, hi as int),
            r == i - lo,
            level == s[r].nested_level,
            end - lo <= extent(s, r),
            extent_from(s, level, end - lo) == extent(s, r),
        decreases hi - end,
    {
        assert(s[end - lo] == input@[end as int]);
        proof {
            lemma_extent_from_bounds(s, level, end - lo + 1);
        }
        end = end + 1;
    }
    proof {
        if end < hi {
            assert(s[end - lo] == input@[end as int]);
        }
    }
    assert(end - lo == extent(s, r));
    let mut item = input[i].duplicate();
    assert(item == s[r]);
    if i + 1 < hi {
        assert(item_fits(s, r));
        item.next_index = Some(item.self_index + (end - i));
    }
    assert(item == root_item(s, r));
    let root = if mono {
        NoteTaskItemTerm::TaskMono(item)
    } else {
        NoteTaskItemTerm::Task(item)
    };
    proof {
        lemma_indices_fit_sub(s, r + 1, extent(s, r));
        assert(input@.subrange(i + 1, end as int) =~= s.subrange(r + 1, extent(s, r)));
        assert(input@.subrange(i + 1, end as int).subrange(0, (end - i - 1) as int) =~= input@.subrange(i + 1, end as int));
    }
    let leaves = parse_window(input, i + 1, end, true, mono);
    TaskTree { root, leaves }
}

fn parse_window(input: &[TaskItem], lo: usize, hi: usize, group: bool, mono: bool) -> (trees: Vec<TaskTree>)
    requires
        lo <= hi <= input@.len(),
        indices_fit(input@.subrange(lo as int, hi as int)),
    ensures
        trees_for(
            trees@,
            input@.subrange(lo as int, hi as int),
            if group {
                top_roots(input@.subrange(lo as int, hi as int), 0)
            } else {
                all_roots(hi - lo)
            },
            mono,
        ),
    decreases hi - lo, 1int,
{
    let ghost s = input@.subrange(lo as int, hi as int);
    let ghost target = if group {
        top_roots(s, 0)
    } else {
        all_roots(hi - lo)
    };
    let mut result: Vec<TaskTree> = Vec::new();
    let mut index = lo;
    let ghost mut done: Seq<int> = Seq::empty();
    while index < hi
        invariant
            lo <= index <= hi <= input@.len(),
            s == input@.subrange(lo as int, hi as int),
            indices_fit(s),
            target == (if group {
                top_roots(s, 0)
            } else {
                all_roots(hi - lo)
            }),
            group ==> done + top_roots(s, index - lo) == target,
            !group ==> done == all_roots(index - lo),
            trees_for(result@, s, done, mono),
        decreases hi - index,
    {
        let ghost r = index - lo;
        proof {
            lemma_extent_bounds(s, r);
        }
        let t = tree_at(input, lo, hi, index, mono);
        let ghost old_done = done;
        let ghost old_result = result@;
        result.push(t);
        proof {
            done = done.push(r);
            assert forall|k: int| 0 <= k < done.len() implies tree_of(#[trigger] result@[k], s, done[k], mono) by {
                if k < old_done.len() {
                    assert(result@[k] == old_result[k]);
                }
            }
        }
        if group {
            let level = input[index].nested_level;
            let mut end = index + 1;
            while end < hi && input[end].nested_level > level
                invariant
                    lo <= index < end <= hi <= input@.len(),
                    s == input@.subrange(lo as int, hi as int),
                    r == index - lo,
                    level == s[r].nested_level,
                    end - lo <= extent(s, r),
                    extent_from(s, level, end - lo) == extent(s, r),
                decreases hi - end,
            {
                assert(s[end - lo] == input@[end as int]);
                proof {
                    lemma_extent_from_bounds(s, level, end - lo + 1);
                }
                end = end + 1;
            }
            proof {
                if end < hi {
                    assert(s[end - lo] == input@[end as int]);
                }
                assert(top_roots(s, r) == seq![r] + top_roots(s, extent(s, r)));
                assert(old_done + top_roots(s, r) == target);
                assert(done + top_roots(s, extent(s, r)) =~= old_done + top_roots(s, r));
            }
            index = end;
        } else {
            proof {
                assert(done =~= all_roots(r + 1));
            }
            index = index + 1;
        }
    }
    proof {
        if group {
            assert(top_roots(s, index - lo) == Seq::<int>::empty());
            assert(done =~= target);
        } else {
            assert(done =~= target);
        }
    }
    result
}

/// True when `s` is how `term` is shown in a tree; `title` is the highlighted title of its
/// task item. A task hint reads `N task items unlisted` when the items are not listed under
/// it and `N task items ` when they are, painted in the color of unlisted items; a cycle is
/// `⟳ ` and the name of the note met again, painted in the cycle color.
pub open spec fn term_shown(term: NoteTaskItemTerm, title: Seq<char>, s: Seq<char>) -> bool {
    match term {
        NoteTaskItemTerm::Note(n) => note_shown(n, s),
        NoteTaskItemTerm::Task(t) => task_shown(t, false, title, s),
        NoteTaskItemTerm::TaskMono(t) => s == mono_display(t, false),
        NoteTaskItemTerm::TaskHint(only_hint, num, c) => {
            let u = c.links.unlisted.0;
            painted_truecolor(
                s,
                decimal(num as nat) + if only_hint {
                    " task items unlisted"@
                } else {
                    " task items "@
                },
                u.r,
                u.g,
                u.b,
            )
        },
        NoteTaskItemTerm::Cycle(name, c) => {
            let k = c.links.cycle.0;
            exists|p: Seq<char>| painted_truecolor(p, name@, k.r, k.g, k.b) && s == "⟳ "@ + p
        },
    }
}

/// The task item of a term that holds one.
pub open spec fn term_task(term: NoteTaskItemTerm) -> TaskItem
    recommends
        term is Task || term is TaskMono,
{
    match term {
        NoteTaskItemTerm::Task(t) => t,
        NoteTaskItemTerm::TaskMono(t) => t,
        _ => arbitrary(),
    }
}

impl NoteTaskItemTerm {
    /// True when the term can be shown: a note only once its name has been rendered.
    pub open spec fn is_displayable(&self) -> bool {
        self matches NoteTaskItemTerm::Note(n) ==> n.is_displayable()
    }

    /// The term as shown in a tree (see [`term_shown`]); `highlighted_title` is the
    /// highlighted title of the task item, for a task in colors.
    pub fn display(&self, highlighted_title: &str) -> (s: String)
        requires
            self.is_displayable(),
        ensures
            term_shown(*self, highlighted_title@, s@),
    {
        match self {
            NoteTaskItemTerm::Note(n) => n.display(),
            NoteTaskItemTerm::Task(t) => t.skim_display_titled(false, highlighted_title),
            NoteTaskItemTerm::TaskMono(t) => t.skim_display_mono(false),
            NoteTaskItemTerm::TaskHint(only_hint, num, c) => {
                let u = c.links.unlisted.0;
                let n = usize_to_string(*num);
                let text = if *only_hint {
                    concat2(n.as_str(), " task items unlisted")
                } else {
                    concat2(n.as_str(), " task items ")
                };
                paint_truecolor(text.as_str(), u.r, u.g, u.b)
            },
            NoteTaskItemTerm::Cycle(name, c) => {
                let k = c.links.cycle.0;
                let p = paint_truecolor(name.as_str(), k.r, k.g, k.b);
                concat2("⟳ ", p.as_str())
            },
        }
    }

    /// How to jump to the checkmark of the term's task item with the commands `cfg`, given
    /// the text of its file: inside the arguments of the file jump command, `$FILE` becomes
    /// the task's file, `$LINE` and `$COLUMN` the position of its checkmark in the text.
    pub fn jump_plan(&self, cfg: &Open, content: &str) -> (plan: OpenPlan)
        requires
            *self is Task || *self is TaskMono,
            term_task(*self).checkmark_offsets_in_string.start <= content.spec_bytes().len() < usize::MAX,
            is_char_boundary(content.spec_bytes(), term_task(*self).checkmark_offsets_in_string.start as int),
        ensures
            plan.cmd.command@ == cfg.file_jump_cmd.command@,
            ({
                let t = term_task(*self);
                let pos = position_of(content.spec_bytes(), t.checkmark_offsets_in_string.start as int);
                arg_views(plan.cmd) == replaced_in_all(
                    arg_views(cfg.file_jump_cmd),
                    seq![
                        ("$FILE"@, t.file_name@),
                        ("$LINE"@, decimal(pos.0 as nat)),
                        ("$COLUMN"@, decimal(pos.1 as nat)),
                    ],
                )
            }),
            plan.substitute_program,
            plan.run_in_dir_of is None,
            plan.stdin is None,
    {
        let task = match self {
            NoteTaskItemTerm::Task(t) => t,
            NoteTaskItemTerm::TaskMono(t) => t,
            _ => {
                assert(false);
                return OpenPlan {
                    cmd: cfg.file_jump_cmd.duplicate(),
                    substitute_program: true,
                    run_in_dir_of: None,
                    stdin: None,
                };
            },
        };
        let position = find_position(content, task.checkmark_offsets_in_string.start);
        let line = usize_to_string(position.line);
        let column = usize_to_string(position.column);
        let cmd = replace_in_three(
            &cfg.file_jump_cmd,
            "$FILE",
            task.file_name.as_str(),
            "$LINE",
            line.as_str(),
            "$COLUMN",
            column.as_str(),
        );
        OpenPlan { cmd, substitute_program: true, run_in_dir_of: None, stdin: None }
    }
}

/// True when `t` is the part of a note's tree that shows its task items, from their `trees`
/// (there are some), at depth `level`: at or past `threshold` only a hint with their number,
/// above it a hint with the trees under it.
pub open spec fn task_section_shows(level: usize, threshold: usize, trees: Seq<TaskTree>, color: ColorScheme, t: TaskTree) -> bool {
    if level >= threshold {
        t.root == NoteTaskItemTerm::TaskHint(true, roots_total(trees) as usize, color) && t.leaves@.len() == 0
    } else {
        t.root == NoteTaskItemTerm::TaskHint(false, roots_total(trees) as usize, color) && t.leaves@ == trees
    }
}

/// The part of a note's tree that shows its task items, from the trees of its items: none when
/// it has none; at depth `level` at or past `threshold`, only a hint with their number; above
/// it, a hint with the trees under it.
pub fn task_section(level: usize, threshold: usize, trees: Vec<TaskTree>, color: ColorScheme) -> (r: Option<TaskTree>)
    requires
        forall|k: int| 0 <= k < trees@.len() ==> countable(#[trigger] trees@[k].root),
        roots_total(trees@) <= usize::MAX,
    ensures
        trees@.len() > 0 <==> r is Some,
        r matches Some(t) ==> task_section_shows(level, threshold, trees@, color, t),
        trees@.len() == 0 ==> r is None,
        trees@.len() > 0 && level >= threshold ==> (r matches Some(t) && t.root == NoteTaskItemTerm::TaskHint(
            true,
            roots_total(trees@) as usize,
            color,
        ) && t.leaves@.len() == 0),
        trees@.len() > 0 && level < threshold ==> (r matches Some(t) && t.root == NoteTaskItemTerm::TaskHint(
            false,
            roots_total(trees@) as usize,
            color,
        ) && t.leaves@ == trees@),
{
    if trees.len() == 0 {
        return None;
    }
    let total = task_hint_total(&trees);
    if level >= threshold {
        Some(TaskTree { root: NoteTaskItemTerm::TaskHint(true, total, color), leaves: Vec::new() })
    } else {
        Some(TaskTree { root: NoteTaskItemTerm::TaskHint(false, total, color), leaves: trees })
    }
}

} // verus!
