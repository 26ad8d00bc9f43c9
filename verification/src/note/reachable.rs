use vstd::prelude::*;
use crate::text::str_eq;

verus! {

broadcast use vstd::string::group_string_axioms;

/// The set of names held by a list of strings.
pub open spec fn names(v: Seq<String>) -> Set<Seq<char>> {
    Set::new(|x: Seq<char>| exists|i: int| 0 <= i < v.len() && v[i]@ == x)
}

/// True when no name occurs twice in `v`.
pub open spec fn distinct(v: Seq<String>) -> bool {
    forall|i: int, j: int| 0 <= i < j < v.len() ==> v[i]@ != v[j]@
}

/// The search for the notes reachable from a note, between two rounds of queries: the notes
/// already reached, and the layer whose forward links are fetched next.
#[derive(Debug)]
pub struct Reachability {
    pub reachable: Vec<String>,
    pub layer: Vec<String>,
}

/// What the search does after a layer's forward links are known: go on with the next layer,
/// or stop with every note reached.
#[derive(Debug)]
pub enum ReachStep {
    Continue(Reachability),
    Done(Vec<String>),
}

impl Reachability {
    /// Neither list names a note twice.
    pub open spec fn wf(&self) -> bool {
        distinct(self.reachable@) && distinct(self.layer@)
    }

    /// The search from the note named `name`: nothing reached yet, and a first layer made of
    /// that note alone.
    pub fn start(name: &str) -> (r: Reachability)
        ensures
            r.wf(),
            names(r.reachable@) == Set::<Seq<char>>::empty(),
            names(r.layer@) == set![name@],
    {
        let mut layer: Vec<String> = Vec::new();
        layer.push(String::from_str(name));
        let r = Reachability { reachable: Vec::new(), layer };
        assert(names(r.reachable@) =~= Set::<Seq<char>>::empty());
        assert(names(r.layer@) =~= set![name@]) by {
            assert(r.layer@[0]@ == name@);
        }
        r
    }

    /// One round of the search, once the forward links of every note of the layer are known
    /// (`next_layer`, in any order, perhaps with repetitions): the layer joins the notes
    /// reached; when every note of `next_layer` is among them the search is done, otherwise
    /// `next_layer` is the next layer.
    pub fn advance(self, next_layer: &Vec<String>) -> (step: ReachStep)
        requires
            self.wf(),
        ensures
            ({
                let reached = names(self.reachable@) + names(self.layer@);
                if names(next_layer@).subset_of(reached) {
                    step matches ReachStep::Done(v) && names(v@) == reached && distinct(v@)
                } else {
                    step matches ReachStep::Continue(s) && s.wf() && names(s.reachable@) == reached
                        && names(s.layer@) == names(next_layer@)
                }
            }),
    {
        let mut reachable = self.reachable;
        let ghost r0 = reachable@;
        let mut i: usize = 0;
        while i < self.layer.len()
            invariant
                i <= self.layer@.len(),
                distinct(reachable@),
                names(reachable@) == names(r0) + names(self.layer@.take(i as int)),
            decreases self.layer@.len() - i,
        {
            insert_name(&mut reachable, &self.layer[i]);
            proof {
                assert(names(self.layer@.take(i + 1)) =~= names(self.layer@.take(i as int)).insert(self.layer@[i as int]@)) by {
                    assert forall|x: Seq<char>| names(self.layer@.take(i + 1)).contains(x) implies names(
                        self.layer@.take(i as int),
                    ).insert(self.layer@[i as int]@).contains(x) by {
                        let j = choose|j: int| 0 <= j < i + 1 && #[trigger] self.layer@.take(i + 1)[j]@ == x;
                        if j < i {
                            assert(self.layer@.take(i as int)[j] == self.layer@[j]);
                        }
                    }
                    assert forall|x: Seq<char>| names(self.layer@.take(i as int)).insert(self.layer@[i as int]@).contains(x) implies names(
                        self.layer@.take(i + 1),
                    ).contains(x) by {
                        if x == self.layer@[i as int]@ {
                            assert(self.layer@.take(i + 1)[i as int]@ == x);
                        } else {
                            let j = choose|j: int| 0 <= j < i && #[trigger] self.layer@.take(i as int)[j]@ == x;
                            assert(self.layer@.take(i + 1)[j]@ == x);
                        }
                    }
                }
            }
            i = i + 1;
        }
        assert(self.layer@.take(self.layer@.len() as int) =~= self.layer@);
        assert(names(reachable@) == names(self.reachable@) + names(self.layer@));
        let mut k: usize = 0;
        while k < next_layer.len()
            invariant
                k <= next_layer@.len(),
                distinct(reachable@),
                names(reachable@) == names(self.reachable@) + names(self.layer@),
                forall|j: int| 0 <= j < k ==> names(reachable@).contains(#[trigger] next_layer@[j]@),
            decreases next_layer@.len() - k,
        {
            if !contains_name(&reachable, &next_layer[k]) {
                proof {
                    assert(names(next_layer@).contains(next_layer@[k as int]@));
                }
                let mut layer: Vec<String> = Vec::new();
                let mut m: usize = 0;
                while m < next_layer.len()
                    invariant
                        m <= next_layer@.len(),
                        distinct(reachable@),
                        names(reachable@) == names(self.reachable@) + names(self.layer@),
                        distinct(layer@),
                        names(layer@) == names(next_layer@.take(m as int)),
                    decreases next_layer@.len() - m,
                {
                    insert_name(&mut layer, &next_layer[m]);
                    proof {
                        lemma_names_take_step(next_layer@, m as int);
                    }
                    m = m + 1;
                }
                assert(next_layer@.take(next_layer@.len() as int) =~= next_layer@);
                return ReachStep::Continue(Reachability { reachable, layer });
            }
            k = k + 1;
        }
        assert(names(next_layer@).subset_of(names(reachable@))) by {
            assert forall|x: Seq<char>| names(next_layer@).contains(x) implies names(reachable@).contains(x) by {
                let j = choose|j: int| 0 <= j < next_layer@.len() && next_layer@[j]@ == x;
                assert(names(reachable@).contains(next_layer@[j]@));
            }
        }
        ReachStep::Done(reachable)
    }
}

proof fn lemma_names_take_step(v: Seq<String>, m: int)
    requires
        0 <= m < v.len(),
    ensures
        names(v.take(m + 1)) == names(v.take(m)).insert(v[m]@),
{
    assert forall|x: Seq<char>| names(v.take(m + 1)).contains(x) implies names(v.take(m)).insert(v[m]@).contains(x) by {
        let j = choose|j: int| 0 <= j < m + 1 && #[trigger] v.take(m + 1)[j]@ == x;
        if j < m {
            assert(v.take(m)[j] == v[j]);
        }
    }
    assert forall|x: Seq<char>| names(v.take(m)).insert(v[m]@).contains(x) implies names(v.take(m + 1)).contains(x) by {
        if x == v[m]@ {
            assert(v.take(m + 1)[m]@ == x);
        } else {
            let j = choose|j: int| 0 <= j < m && #[trigger] v.take(m)[j]@ == x;
            assert(v.take(m + 1)[j]@ == x);
        }
    }
    assert(names(v.take(m + 1)) =~= names(v.take(m)).insert(v[m]@));
}

/// Whether `v` holds the name `x`.
pub fn contains_name(v: &Vec<String>, x: &String) -> (b: bool)
    ensures
        b == names(v@).contains(x@),
{
    let mut i: usize = 0;
    while i < v.len()
        invariant
            i <= v@.len(),
            forall|j: int| 0 <= j < i ==> v@[j]@ != x@,
        decreases v@.len() - i,
    {
        if str_eq(v[i].as_str(), x.as_str()) {
            assert(v@[i as int]@ == x@);
            return true;
        }
        i = i + 1;
    }
    false
}

/// Adds the name `x` to `v` unless `v` holds it already.
pub fn insert_name(v: &mut Vec<String>, x: &String)
    requires
        distinct(old(v)@),
    ensures
        distinct(final(v)@),
        names(final(v)@) == names(old(v)@).insert(x@),
{
    if contains_name(v, x) {
        assert(names(v@) =~= names(v@).insert(x@));
    } else {
        let ghost before = v@;
        v.push(x.clone());
        assert(names(v@) =~= names(before).insert(x@)) by {
            assert forall|y: Seq<char>| names(v@).contains(y) implies names(before).insert(x@).contains(y) by {
                let j = choose|j: int| 0 <= j < v@.len() && v@[j]@ == y;
                if j < before.len() {
                    assert(v@[j] == before[j]);
                }
            }
            assert forall|y: Seq<char>| names(before).insert(x@).contains(y) implies names(v@).contains(y) by {
                if y == x@ {
                    assert(v@[before.len() as int]@ == y);
                } else {
                    let j = choose|j: int| 0 <= j < before.len() && before[j]@ == y;
                    assert(v@[j] == before[j]);
                }
            }
        }
        assert(distinct(v@)) by {
            assert forall|i: int, j: int| 0 <= i < j < v@.len() implies v@[i]@ != v@[j]@ by {
                if j == before.len() {
                    assert(v@[i] == before[i]);
                    assert(names(before).contains(before[i]@));
                } else {
                    assert(v@[i] == before[i]);
                    assert(v@[j] == before[j]);
                }
            }
        }
    }
}

/// The notes that the notes of `layer` link to, in a link graph `g`.
pub open spec fn links_of(g: spec_fn(Seq<char>) -> Set<Seq<char>>, layer: Set<Seq<char>>) -> Set<Seq<char>> {
    Set::new(|x: Seq<char>| exists|y: Seq<char>| layer.contains(y) && g(y).contains(x))
}

/// The notes at most `n` links away from `start` in the link graph `g`.
pub open spec fn within(g: spec_fn(Seq<char>) -> Set<Seq<char>>, start: Seq<char>, n: nat) -> Set<Seq<char>>
    decreases n,
{
    if n == 0 {
        set![start]
    } else {
        within(g, start, (n - 1) as nat) + links_of(g, within(g, start, (n - 1) as nat))
    }
}

/// True when the note `x` can be reached from `start` by following links of `g`.
pub open spec fn reachable_from(g: spec_fn(Seq<char>) -> Set<Seq<char>>, start: Seq<char>, x: Seq<char>) -> bool {
    exists|n: nat| within(g, start, n).contains(x)
}

/// What holds between rounds of the search from `start` in the link graph `g`: the notes
/// reached or in the layer include `start`, can all be reached from it, and the notes reached
/// link only to notes reached or in the layer.
pub open spec fn search_invariant(
    g: spec_fn(Seq<char>) -> Set<Seq<char>>,
    start: Seq<char>,
    reached: Set<Seq<char>>,
    layer: Set<Seq<char>>,
) -> bool {
    &&& (reached + layer).contains(start)
    &&& forall|x: Seq<char>| (reached + layer).contains(x) ==> reachable_from(g, start, x)
    &&& links_of(g, reached).subset_of(reached + layer)
}

/// The search starts in a state where its invariant holds.
pub proof fn lemma_search_starts(g: spec_fn(Seq<char>) -> Set<Seq<char>>, start: Seq<char>)
    ensures
        search_invariant(g, start, Set::empty(), set![start]),
{
    assert(within(g, start, 0).contains(start));
    assert forall|x: Seq<char>| (Set::<Seq<char>>::empty() + set![start]).contains(x) implies reachable_from(g, start, x) by {
        assert(within(g, start, 0).contains(x));
    }
    assert(links_of(g, Set::empty()) =~= Set::<Seq<char>>::empty());
}

/// One round of the search keeps its invariant when the next layer is made of the forward
/// links of the layer; and when the search stops, the notes reached are exactly the notes
/// reachable from `start`.
pub proof fn lemma_search_step(
    g: spec_fn(Seq<char>) -> Set<Seq<char>>,
    start: Seq<char>,
    reached: Set<Seq<char>>,
    layer: Set<Seq<char>>,
    next: Set<Seq<char>>,
)
    requires
        search_invariant(g, start, reached, layer),
        next == links_of(g, layer),
    ensures
        next.subset_of(reached + layer) ==> forall|x: Seq<char>|
            (reached + layer).contains(x) <==> reachable_from(g, start, x),
        !next.subset_of(reached + layer) ==> search_invariant(g, start, reached + layer, next),
{
    let r2 = reached + layer;
    assert forall|x: Seq<char>| next.contains(x) implies reachable_from(g, start, x) by {
        let y = choose|y: Seq<char>| layer.contains(y) && g(y).contains(x);
        assert(reachable_from(g, start, y));
        let n = choose|n: nat| within(g, start, n).contains(y);
        assert(within(g, start, n + 1).contains(x)) by {
            assert(links_of(g, within(g, start, n)).contains(x));
        }
    }
    assert(links_of(g, r2).subset_of(r2 + next)) by {
        assert forall|x: Seq<char>| links_of(g, r2).contains(x) implies (r2 + next).contains(x) by {
            let y = choose|y: Seq<char>| r2.contains(y) && g(y).contains(x);
            if reached.contains(y) {
                assert(links_of(g, reached).contains(x));
            } else {
                assert(next.contains(x));
            }
        }
    }
    if next.subset_of(r2) {
        assert forall|x: Seq<char>| reachable_from(g, start, x) implies r2.contains(x) by {
            let n = choose|n: nat| within(g, start, n).contains(x);
            lemma_within_closed(g, start, r2, n);
        }
    }
}

proof fn lemma_within_closed(g: spec_fn(Seq<char>) -> Set<Seq<char>>, start: Seq<char>, r: Set<Seq<char>>, n: nat)
    requires
        r.contains(start),
        links_of(g, r).subset_of(r),
    ensures
        within(g, start, n).subset_of(r),
    decreases n,
{
    if n > 0 {
        lemma_within_closed(g, start, r, (n - 1) as nat);
        let w = within(g, start, (n - 1) as nat);
        assert forall|x: Seq<char>| links_of(g, w).contains(x) implies r.contains(x) by {
            let y = choose|y: Seq<char>| w.contains(y) && g(y).contains(x);
            assert(links_of(g, r).contains(x));
        }
    }
}

} // verus!
