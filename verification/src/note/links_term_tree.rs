use vstd::prelude::*;
use crate::config::color::ColorScheme;
use crate::link::{link_display, Link};
use crate::note::{note_shown, Note};
use crate::print::{paint_truecolor, painted_truecolor};
use crate::text::{concat2, decimal, usize_to_string};

verus! {

/// An element of the tree that shows a note with its links and the notes it links to (or is
/// linked from).
#[derive(Clone)]
pub enum NoteLinkTerm {
    Note(Note),
    Link(Link),
    LinkHint(bool, usize, ColorScheme),
    Cycle(String, ColorScheme),
}

/// A tree of link terms: a root and the trees under it, in order.
pub struct LinkTree {
    pub root: NoteLinkTerm,
    pub leaves: Vec<LinkTree>,
}

/// True when `s` is how `term` is shown in a tree. A link hint reads `N links unlisted ` when
/// the links are not listed under it and `N links ` when they are, painted in the color of
/// unlisted items; a cycle is `⟳ ` and the name of the note met again, painted in the cycle
/// color.
pub open spec fn link_term_shown(term: NoteLinkTerm, s: Seq<char>) -> bool {
    match term {
        NoteLinkTerm::Note(n) => note_shown(n, s),
        NoteLinkTerm::Link(l) => link_display(s, l),
        NoteLinkTerm::LinkHint(only_hint, num, c) => {
            let u = c.links.unlisted.0;
            painted_truecolor(
                s,
                decimal(num as nat) + if only_hint {
                    " links unlisted "@
                } else {
                    " links "@
                },
                u.r,
                u.g,
                u.b,
            )
        },
        NoteLinkTerm::Cycle(name, c) => {
            let k = c.links.cycle.0;
            exists|p: Seq<char>| painted_truecolor(p, name@, k.r, k.g, k.b) && s == "⟳ "@ + p
        },
    }
}

impl NoteLinkTerm {
    /// True when the term can be shown: a note only once its name has been rendered.
    pub open spec fn is_displayable(&self) -> bool {
        self matches NoteLinkTerm::Note(n) ==> n.is_displayable()
    }

    /// The term as shown in a tree (see [`link_term_shown`]).
    pub fn display(&self) -> (s: String)
        requires
            self.is_displayable(),
        ensures
            link_term_shown(*self, s@),
    {
        match self {
            NoteLinkTerm::Note(n) => n.display(),
            NoteLinkTerm::Link(l) => l.skim_display(),
            NoteLinkTerm::LinkHint(only_hint, num, c) => {
                let u = c.links.unlisted.0;
                let n = usize_to_string(*num);
                let text = if *only_hint {
                    concat2(n.as_str(), " links unlisted ")
                } else {
                    concat2(n.as_str(), " links ")
                };
                paint_truecolor(text.as_str(), u.r, u.g, u.b)
            },
            NoteLinkTerm::Cycle(name, c) => {
                let k = c.links.cycle.0;
                let p = paint_truecolor(name.as_str(), k.r, k.g, k.b);
                concat2("⟳ ", p.as_str())
            },
        }
    }
}

/// The leaves made of `links`, each a link term with no trees under it.
pub open spec fn link_leaves(links: Seq<Link>, leaves: Seq<LinkTree>) -> bool {
    &&& leaves.len() == links.len()
    &&& forall|i: int|
        0 <= i < links.len() ==> (#[trigger] leaves[i]).root == NoteLinkTerm::Link(links[i])
            && leaves[i].leaves@.len() == 0
}

/// True when `t` is the part of a note's tree that shows its `links` (there are some) at depth
/// `level`: at or past `threshold` only a hint with their number, above it a hint with the
/// links under it, in order.
pub open spec fn link_section_shows(level: usize, threshold: usize, links: Seq<Link>, color: ColorScheme, t: LinkTree) -> bool {
    if level >= threshold {
        t.root == NoteLinkTerm::LinkHint(true, links.len() as usize, color) && t.leaves@.len() == 0
    } else {
        t.root == NoteLinkTerm::LinkHint(false, links.len() as usize, color) && link_leaves(links, t.leaves@)
    }
}

/// The part of a note's tree that shows its links: none when it has none; at depth `level` at
/// or past `threshold`, only a hint with their number; above it, a hint with the links under
/// it, in order.
pub fn link_section(level: usize, threshold: usize, links: Vec<Link>, color: ColorScheme) -> (r: Option<LinkTree>)
    ensures
        links@.len() > 0 <==> r is Some,
        r matches Some(t) ==> link_section_shows(level, threshold, links@, color, t),
        links@.len() == 0 ==> r is None,
        links@.len() > 0 && level >= threshold ==> (r matches Some(t) && t.root == NoteLinkTerm::LinkHint(
            true,
            links@.len() as usize,
            color,
        ) && t.leaves@.len() == 0),
        links@.len() > 0 && level < threshold ==> (r matches Some(t) && t.root == NoteLinkTerm::LinkHint(
            false,
            links@.len() as usize,
            color,
        ) && link_leaves(links@, t.leaves@)),
{
    let n = links.len();
    if n == 0 {
        return None;
    }
    if level >= threshold {
        return Some(LinkTree { root: NoteLinkTerm::LinkHint(true, n, color), leaves: Vec::new() });
    }
    let mut leaves: Vec<LinkTree> = Vec::new();
    let mut rest = links;
    let ghost all = rest@;
    let mut i: usize = 0;
    while i < n
        invariant
            n == all.len(),
            i <= n,
            rest@ == all.subrange(i as int, n as int),
            link_leaves(all.take(i as int), leaves@),
        decreases n - i,
    {
        let l = rest.remove(0);
        leaves.push(LinkTree { root: NoteLinkTerm::Link(l), leaves: Vec::new() });
        i = i + 1;
        assert(rest@ =~= all.subrange(i as int, n as int));
        assert forall|k: int| 0 <= k < i implies (#[trigger] leaves@[k]).root == NoteLinkTerm::Link(
            all.take(i as int)[k],
        ) && leaves@[k].leaves@.len() == 0 by {
            if k < i - 1 {
                assert(all.take(i as int)[k] == all.take(i - 1)[k]);
            }
        }
    }
    assert(all.take(n as int) =~= all);
    Some(LinkTree { root: NoteLinkTerm::LinkHint(false, n, color), leaves })
}

} // verus!
