use vstd::prelude::*;
use bidir_termtree::{Down, Tree, Up};
use crate::highlight::{highlight_code_block, MarkdownStatic};
use crate::note::links_term_tree::{link_term_shown, LinkTree, NoteLinkTerm};
use crate::note::task_items_term_tree::{task_leaves_size, task_tree_size, term_shown, NoteTaskItemTerm, TaskTree};
use crate::highlight::code_highlight;

verus! {

/// A tree of texts drawn downwards by `bidir_termtree`, held opaque.
#[verifier::external_body]
pub struct DownTree {
    tree: Tree<String, Down>,
}

/// A tree of texts drawn upwards by `bidir_termtree`, held opaque.
#[verifier::external_body]
pub struct UpTree {
    tree: Tree<String, Up>,
}

/// One row of a drawn tree: how deep the term stands (the root at 0) and its text.
pub type Row = (nat, Seq<char>);

/// What a downward tree holds: its texts in preorder (the root, then the trees under it in
/// the order they were added), each with its depth.
pub uninterp spec fn down_tree_rows(t: DownTree) -> Seq<Row>;

/// What an upward tree holds, as for [`down_tree_rows`].
pub uninterp spec fn up_tree_rows(t: UpTree) -> Seq<Row>;

/// `bidir_termtree`'s drawing of the downward tree whose rows (see [`down_tree_rows`]) are
/// `rows`.
pub uninterp spec fn drawn_down(rows: Seq<Row>) -> Seq<char>;

/// `bidir_termtree`'s drawing of the upward tree whose rows are `rows`.
pub uninterp spec fn drawn_up(rows: Seq<Row>) -> Seq<char>;

/// The rows one level deeper: how the rows of a tree stand under the root it is added to.
pub open spec fn shifted(rows: Seq<Row>) -> Seq<Row> {
    rows.map_values(|r: Row| ((r.0 + 1) as nat, r.1))
}

/// `bidir_termtree`'s `Tree::new` for a downward tree: the one node `root`.
#[verifier::external_body]
fn down_new(root: String) -> (t: DownTree)
    ensures
        down_tree_rows(t) == seq![(0nat, root@)],
{
    DownTree { tree: Tree::new(root) }
}

/// `bidir_termtree`'s `Tree::push` for a downward tree: `leaf` added as the last tree under
/// the root.
#[verifier::external_body]
fn down_push(t: &mut DownTree, leaf: DownTree)
    ensures
        down_tree_rows(*final(t)) == down_tree_rows(*old(t)) + shifted(down_tree_rows(leaf)),
{
    t.tree.push(leaf.tree);
}

/// `bidir_termtree`'s drawing of a downward tree (its `Display`): a function of what the
/// tree holds, which is not written out here.
#[verifier::external_body]
fn draw_down(t: &DownTree) -> (s: String)
    ensures
        s@ == drawn_down(down_tree_rows(*t)),
{
    t.tree.to_string()
}

/// `bidir_termtree`'s `Tree::new` for an upward tree: the one node `root`.
#[verifier::external_body]
fn up_new(root: String) -> (t: UpTree)
    ensures
        up_tree_rows(t) == seq![(0nat, root@)],
{
    UpTree { tree: Tree::new(root) }
}

/// `bidir_termtree`'s `Tree::push` for an upward tree: `leaf` added as the last tree under
/// the root.
#[verifier::external_body]
fn up_push(t: &mut UpTree, leaf: UpTree)
    ensures
        up_tree_rows(*final(t)) == up_tree_rows(*old(t)) + shifted(up_tree_rows(leaf)),
{
    t.tree.push(leaf.tree);
}

/// `bidir_termtree`'s drawing of an upward tree (its `Display`): a function of what the
/// tree holds, which is not written out here.
#[verifier::external_body]
fn draw_up(t: &UpTree) -> (s: String)
    ensures
        s@ == drawn_up(up_tree_rows(*t)),
{
    t.tree.to_string()
}

/// True when every note term of the tree can be shown.
pub open spec fn task_tree_displayable(t: TaskTree) -> bool
    decreases t,
{
    &&& t.root.is_displayable()
    &&& forall|i: int| 0 <= i < t.leaves@.len() ==> task_tree_displayable(#[trigger] t.leaves@[i])
}

/// True when every note term of the tree can be shown.
pub open spec fn link_tree_displayable(t: LinkTree) -> bool
    decreases t,
{
    &&& t.root.is_displayable()
    &&& forall|i: int| 0 <= i < t.leaves@.len() ==> link_tree_displayable(#[trigger] t.leaves@[i])
}

/// True when `title` is what a tree shows as the title of `term`: for a task in colors its
/// title highlighted as markdown (see [`code_highlight`]), for another term none.
pub open spec fn task_title_fits(term: NoteTaskItemTerm, title: Seq<char>, md: MarkdownStatic) -> bool {
    match term {
        NoteTaskItemTerm::Task(item) => code_highlight(md, "markdown"@, item.title@) == Some(title),
        _ => title == Seq::<char>::empty(),
    }
}

/// True when the highlighter succeeds on the title of every task in colors of the tree.
pub open spec fn task_tree_highlights(t: TaskTree, md: MarkdownStatic) -> bool
    decreases t,
{
    &&& (t.root matches NoteTaskItemTerm::Task(item) ==> code_highlight(md, "markdown"@, item.title@) is Some)
    &&& forall|i: int| 0 <= i < t.leaves@.len() ==> task_tree_highlights(#[trigger] t.leaves@[i], md)
}

/// True when no term of the tree needs the highlighter: none is a task in colors with a
/// title.
pub open spec fn task_tree_plain(t: TaskTree) -> bool
    decreases t,
{
    &&& (t.root matches NoteTaskItemTerm::Task(item) ==> item.title@.len() == 0)
    &&& forall|i: int| 0 <= i < t.leaves@.len() ==> task_tree_plain(#[trigger] t.leaves@[i])
}

/// True when `rows` are the rows of `t` drawn with its root at depth `d`: the root's term as
/// shown with its title (see [`task_title_fits`]), then the rows of the trees under it, one
/// level deeper, in order.
pub open spec fn task_rows_fit(t: TaskTree, rows: Seq<Row>, d: nat, md: MarkdownStatic) -> bool
    decreases t, t.leaves@.len() + 1,
{
    &&& rows.len() == task_tree_size(t)
    &&& rows[0].0 == d
    &&& exists|title: Seq<char>| task_title_fits(t.root, title, md) && #[trigger] term_shown(t.root, title, rows[0].1)
    &&& task_leaves_fit(t, t.leaves@.len() as int, rows.drop_first(), d + 1, md)
}

/// True when `rest` are the rows of the first `n` trees under the root of `t`, their roots at
/// depth `d`.
pub open spec fn task_leaves_fit(t: TaskTree, n: int, rest: Seq<Row>, d: nat, md: MarkdownStatic) -> bool
    decreases t, n,
{
    if n <= 0 || n > t.leaves@.len() {
        rest.len() == 0
    } else {
        proof {
            assert(decreases_to!(t => t.leaves@[n - 1]));
        }
        let k = task_leaves_size(t, n - 1) as int;
        &&& rest.len() == task_leaves_size(t, n)
        &&& task_leaves_fit(t, n - 1, rest.take(k), d, md)
        &&& task_rows_fit(t.leaves@[n - 1], rest.skip(k), d, md)
    }
}

proof fn lemma_task_rows_shift(t: TaskTree, rows: Seq<Row>, d: nat, md: MarkdownStatic)
    requires
        task_rows_fit(t, rows, d, md),
    ensures
        task_rows_fit(t, shifted(rows), d + 1, md),
    decreases t, t.leaves@.len() + 1,
{
    lemma_shifted_parts(rows, 0);
    let title = choose|title: Seq<char>| task_title_fits(t.root, title, md) && #[trigger] term_shown(t.root, title, rows[0].1);
    assert(term_shown(t.root, title, shifted(rows)[0].1));
    lemma_task_leaves_shift(t, t.leaves@.len() as int, rows.drop_first(), d + 1, md);
}

proof fn lemma_task_leaves_shift(t: TaskTree, n: int, rest: Seq<Row>, d: nat, md: MarkdownStatic)
    requires
        task_leaves_fit(t, n, rest, d, md),
    ensures
        task_leaves_fit(t, n, shifted(rest), d + 1, md),
    decreases t, n,
{
    if n <= 0 || n > t.leaves@.len() {
    } else {
        assert(decreases_to!(t => t.leaves@[n - 1]));
        let k = task_leaves_size(t, n - 1) as int;
        lemma_shifted_parts(rest, k);
        lemma_task_leaves_shift(t, n - 1, rest.take(k), d, md);
        lemma_task_rows_shift(t.leaves@[n - 1], rest.skip(k), d, md);
    }
}

proof fn lemma_task_leaves_push(t: TaskTree, i: int, rest: Seq<Row>, leaf_rows: Seq<Row>, d: nat, md: MarkdownStatic)
    requires
        0 <= i < t.leaves@.len(),
        task_leaves_fit(t, i, rest, d, md),
        task_rows_fit(t.leaves@[i], leaf_rows, d, md),
    ensures
        task_leaves_fit(t, i + 1, rest + leaf_rows, d, md),
{
    if i > 0 {
        assert(rest.len() == task_leaves_size(t, i));
    }
    let k = task_leaves_size(t, i) as int;
    assert((rest + leaf_rows).take(k) =~= rest);
    assert((rest + leaf_rows).skip(k) =~= leaf_rows);
}

fn task_termtree(t: &TaskTree, md_static: &MarkdownStatic) -> (r: Option<DownTree>)
    requires
        task_tree_displayable(*t),
    ensures
        r matches Some(tree) ==> task_rows_fit(*t, down_tree_rows(tree), 0, *md_static),
        r is Some <==> task_tree_highlights(*t, *md_static),
        task_tree_plain(*t) ==> r is Some,
    decreases t,
{
    let title = match &t.root {
        NoteTaskItemTerm::Task(item) => match highlight_code_block(item.title.as_str(), "markdown", md_static) {
            Some(h) => h,
            None => {
                return None;
            },
        },
        _ => String::new(),
    };
    assert(task_title_fits(t.root, title@, *md_static));
    let root = t.root.display(title.as_str());
    let mut tree = down_new(root);
    let mut i: usize = 0;
    while i < t.leaves.len()
        invariant
            i <= t.leaves@.len(),
            task_tree_displayable(*t),
            task_title_fits(t.root, title@, *md_static),
            term_shown(t.root, title@, root@),
            t.root matches NoteTaskItemTerm::Task(item) ==> code_highlight(*md_static, "markdown"@, item.title@) is Some,
            forall|k: int| 0 <= k < i ==> task_tree_highlights(#[trigger] t.leaves@[k], *md_static),
            down_tree_rows(tree).len() == 1 + task_leaves_size(*t, i as int),
            down_tree_rows(tree)[0] == (0nat, root@),
            task_leaves_fit(*t, i as int, down_tree_rows(tree).drop_first(), 1, *md_static),
        decreases t.leaves@.len() - i,
    {
        assert(decreases_to!(*t => t.leaves@[i as int]));
        match task_termtree(&t.leaves[i], md_static) {
            Some(leaf) => {
                let ghost before = down_tree_rows(tree);
                let ghost lr = down_tree_rows(leaf);
                proof {
                    lemma_task_rows_shift(t.leaves@[i as int], lr, 0, *md_static);
                    lemma_task_leaves_push(*t, i as int, before.drop_first(), shifted(lr), 1, *md_static);
                    lemma_shifted_parts(lr, 0);
                }
                down_push(&mut tree, leaf);
                assert(down_tree_rows(tree).drop_first() =~= before.drop_first() + shifted(lr));
            },
            None => {
                return None;
            },
        }
        i = i + 1;
    }
    assert(term_shown(t.root, title@, down_tree_rows(tree)[0].1));
    Some(tree)
}

/// The task tree drawn for the terminal, each task's title highlighted as markdown; `None`
/// exactly when the highlighter fails on the title of a task in colors, which it cannot
/// where no such task has a title.
pub fn task_tree_text(t: &TaskTree, md_static: &MarkdownStatic) -> (r: Option<String>)
    requires
        task_tree_displayable(*t),
    ensures
        r is Some <==> task_tree_highlights(*t, *md_static),
        r matches Some(s) ==> exists|rows: Seq<Row>| #[trigger] task_rows_fit(*t, rows, 0, *md_static) && s@ == drawn_down(rows),
        task_tree_plain(*t) ==> r is Some,
{
    match task_termtree(t, md_static) {
        Some(tree) => Some(draw_down(&tree)),
        None => None,
    }
}

/// The number of terms in the tree.
pub open spec fn link_tree_size(t: LinkTree) -> nat
    decreases t, t.leaves@.len() + 1,
{
    1 + link_leaves_size(t, t.leaves@.len() as int)
}

/// The number of terms in the first `n` trees under the root of `t`.
pub open spec fn link_leaves_size(t: LinkTree, n: int) -> nat
    decreases t, n,
{
    if n <= 0 || n > t.leaves@.len() {
        0
    } else {
        proof {
            assert(decreases_to!(t => t.leaves@[n - 1]));
        }
        link_leaves_size(t, n - 1) + link_tree_size(t.leaves@[n - 1])
    }
}

/// True when `rows` are the rows of `t` drawn with its root at depth `d`: the root's term as
/// shown, then the rows of the trees under it, one level deeper, in order.
pub open spec fn link_rows_fit(t: LinkTree, rows: Seq<Row>, d: nat) -> bool
    decreases t, t.leaves@.len() + 1,
{
    &&& rows.len() == link_tree_size(t)
    &&& rows[0].0 == d
    &&& link_term_shown(t.root, rows[0].1)
    &&& link_leaves_fit(t, t.leaves@.len() as int, rows.drop_first(), d + 1)
}

/// True when `rest` are the rows of the first `n` trees under the root of `t`, their roots at
/// depth `d`.
pub open spec fn link_leaves_fit(t: LinkTree, n: int, rest: Seq<Row>, d: nat) -> bool
    decreases t, n,
{
    if n <= 0 || n > t.leaves@.len() {
        rest.len() == 0
    } else {
        proof {
            assert(decreases_to!(t => t.leaves@[n - 1]));
        }
        let k = link_leaves_size(t, n - 1) as int;
        &&& rest.len() == link_leaves_size(t, n)
        &&& link_leaves_fit(t, n - 1, rest.take(k), d)
        &&& link_rows_fit(t.leaves@[n - 1], rest.skip(k), d)
    }
}

proof fn lemma_shifted_parts(rows: Seq<Row>, k: int)
    requires
        0 <= k <= rows.len(),
    ensures
        shifted(rows).len() == rows.len(),
        shifted(rows).take(k) == shifted(rows.take(k)),
        shifted(rows).skip(k) == shifted(rows.skip(k)),
        rows.len() > 0 ==> shifted(rows).drop_first() == shifted(rows.drop_first()),
        rows.len() > 0 ==> shifted(rows)[0] == ((rows[0].0 + 1) as nat, rows[0].1),
{
    assert(shifted(rows).take(k) =~= shifted(rows.take(k)));
    assert(shifted(rows).skip(k) =~= shifted(rows.skip(k)));
    if rows.len() > 0 {
        assert(shifted(rows).drop_first() =~= shifted(rows.drop_first()));
    }
}

proof fn lemma_link_rows_shift(t: LinkTree, rows: Seq<Row>, d: nat)
    requires
        link_rows_fit(t, rows, d),
    ensures
        link_rows_fit(t, shifted(rows), d + 1),
    decreases t, t.leaves@.len() + 1,
{
    lemma_shifted_parts(rows, 0);
    lemma_link_leaves_shift(t, t.leaves@.len() as int, rows.drop_first(), d + 1);
}

proof fn lemma_link_leaves_shift(t: LinkTree, n: int, rest: Seq<Row>, d: nat)
    requires
        link_leaves_fit(t, n, rest, d),
    ensures
        link_leaves_fit(t, n, shifted(rest), d + 1),
    decreases t, n,
{
    if n <= 0 || n > t.leaves@.len() {
    } else {
        assert(decreases_to!(t => t.leaves@[n - 1]));
        let k = link_leaves_size(t, n - 1) as int;
        lemma_shifted_parts(rest, k);
        lemma_link_leaves_shift(t, n - 1, rest.take(k), d);
        lemma_link_rows_shift(t.leaves@[n - 1], rest.skip(k), d);
    }
}

/// The rows added by one more tree under the root: the fit of the first `i` trees extends to
/// the first `i + 1`.
proof fn lemma_link_leaves_push(t: LinkTree, i: int, rest: Seq<Row>, leaf_rows: Seq<Row>, d: nat)
    requires
        0 <= i < t.leaves@.len(),
        link_leaves_fit(t, i, rest, d),
        link_rows_fit(t.leaves@[i], leaf_rows, d),
    ensures
        link_leaves_fit(t, i + 1, rest + leaf_rows, d),
{
    if i > 0 {
        assert(rest.len() == link_leaves_size(t, i));
    }
    let k = link_leaves_size(t, i) as int;
    assert((rest + leaf_rows).take(k) =~= rest);
    assert((rest + leaf_rows).skip(k) =~= leaf_rows);
}

fn link_termtree_down(t: &LinkTree) -> (r: DownTree)
    requires
        link_tree_displayable(*t),
    ensures
        link_rows_fit(*t, down_tree_rows(r), 0),
    decreases t,
{
    let root = t.root.display();
    let mut tree = down_new(root);
    let mut i: usize = 0;
    while i < t.leaves.len()
        invariant
            i <= t.leaves@.len(),
            link_tree_displayable(*t),
            link_term_shown(t.root, root@),
            down_tree_rows(tree).len() == 1 + link_leaves_size(*t, i as int),
            down_tree_rows(tree)[0] == (0nat, root@),
            link_leaves_fit(*t, i as int, down_tree_rows(tree).drop_first(), 1),
        decreases t.leaves@.len() - i,
    {
        assert(decreases_to!(*t => t.leaves@[i as int]));
        let leaf = link_termtree_down(&t.leaves[i]);
        let ghost before = down_tree_rows(tree);
        let ghost lr = down_tree_rows(leaf);
        proof {
            lemma_link_rows_shift(t.leaves@[i as int], lr, 0);
            lemma_link_leaves_push(*t, i as int, before.drop_first(), shifted(lr), 1);
            lemma_shifted_parts(lr, 0);
        }
        down_push(&mut tree, leaf);
        assert(down_tree_rows(tree).drop_first() =~= before.drop_first() + shifted(lr));
        i = i + 1;
    }
    tree
}

fn link_termtree_up(t: &LinkTree) -> (r: UpTree)
    requires
        link_tree_displayable(*t),
    ensures
        link_rows_fit(*t, up_tree_rows(r), 0),
    decreases t,
{
    let root = t.root.display();
    let mut tree = up_new(root);
    let mut i: usize = 0;
    while i < t.leaves.len()
        invariant
            i <= t.leaves@.len(),
            link_tree_displayable(*t),
            link_term_shown(t.root, root@),
            up_tree_rows(tree).len() == 1 + link_leaves_size(*t, i as int),
            up_tree_rows(tree)[0] == (0nat, root@),
            link_leaves_fit(*t, i as int, up_tree_rows(tree).drop_first(), 1),
        decreases t.leaves@.len() - i,
    {
        assert(decreases_to!(*t => t.leaves@[i as int]));
        let leaf = link_termtree_up(&t.leaves[i]);
        let ghost before = up_tree_rows(tree);
        let ghost lr = up_tree_rows(leaf);
        proof {
            lemma_link_rows_shift(t.leaves@[i as int], lr, 0);
            lemma_link_leaves_push(*t, i as int, before.drop_first(), shifted(lr), 1);
            lemma_shifted_parts(lr, 0);
        }
        up_push(&mut tree, leaf);
        assert(up_tree_rows(tree).drop_first() =~= before.drop_first() + shifted(lr));
        i = i + 1;
    }
    tree
}

/// The link tree drawn for the terminal, growing downwards when the links go forward
/// (`straight`) and upwards when they go backward.
pub fn link_tree_text(t: &LinkTree, straight: bool) -> (s: String)
    requires
        link_tree_displayable(*t),
    ensures
        exists|rows: Seq<Row>| #[trigger] link_rows_fit(*t, rows, 0)
            && s@ == (if straight { drawn_down(rows) } else { drawn_up(rows) }),
{
    if straight {
        draw_down(&link_termtree_down(t))
    } else {
        draw_up(&link_termtree_up(t))
    }
}

} // verus!
