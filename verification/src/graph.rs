//! The resource graph: an ordered map from key to the list of every
//! definition seen for that key, in discovery order. Duplicates are retained
//! for analysis; the first node of a list is the primary definition.

use vstd::prelude::*;

use core::cmp::Ordering;
use crate::key::ResourceKey;
use crate::key::ResourceKeyView;
use crate::key::lemma_key_view_cmp_flip;
use crate::key::spec_key_view_cmp;
use crate::model::ResourceNode;
use crate::model::ResourceNodeView;

verus! {

/// The view of one graph entry: a key and its definitions in discovery order.
pub open spec fn spec_entry_view(e: (ResourceKey, Vec<ResourceNode>)) -> (
    ResourceKeyView,
    Seq<ResourceNodeView>,
) {
    (e.0@, e.1@.map_values(|n: ResourceNode| n@))
}

/// The view of the whole graph.
pub open spec fn spec_graph_view(entries: Seq<(ResourceKey, Vec<ResourceNode>)>) -> Seq<
    (ResourceKeyView, Seq<ResourceNodeView>),
> {
    entries.map_values(|e: (ResourceKey, Vec<ResourceNode>)| spec_entry_view(e))
}

/// Well-formedness: keys strictly ascend and no definition list is empty.
pub open spec fn spec_graph_wf(g: Seq<(ResourceKeyView, Seq<ResourceNodeView>)>) -> bool {
    &&& forall|i: int|
        0 <= i < g.len() - 1 ==> #[trigger] spec_key_view_cmp(g[i].0, g[i + 1].0)
            == Ordering::Less
    &&& forall|i: int| 0 <= i < g.len() ==> (#[trigger] g[i].1).len() > 0
}

/// Insertion of one definition: a new key takes its place in key order, an
/// existing key appends the definition to its list.
pub open spec fn spec_graph_insert(
    g: Seq<(ResourceKeyView, Seq<ResourceNodeView>)>,
    k: ResourceKeyView,
    n: ResourceNodeView,
) -> Seq<(ResourceKeyView, Seq<ResourceNodeView>)>
    decreases g.len(),
{
    if g.len() == 0 {
        seq![(k, seq![n])]
    } else {
        match spec_key_view_cmp(k, g[0].0) {
            Ordering::Less => seq![(k, seq![n])] + g,
            Ordering::Equal => seq![(g[0].0, g[0].1.push(n))] + g.drop_first(),
            Ordering::Greater => seq![g[0]] + spec_graph_insert(g.drop_first(), k, n),
        }
    }
}

/// Whether the graph holds an entry for the key.
pub open spec fn spec_graph_contains(
    g: Seq<(ResourceKeyView, Seq<ResourceNodeView>)>,
    k: ResourceKeyView,
) -> bool
    decreases g.len(),
{
    if g.len() == 0 {
        false
    } else if spec_key_view_cmp(k, g[0].0) == Ordering::Equal {
        true
    } else {
        spec_graph_contains(g.drop_first(), k)
    }
}

/// The definition list of a key, if present.
pub open spec fn spec_graph_lookup(
    g: Seq<(ResourceKeyView, Seq<ResourceNodeView>)>,
    k: ResourceKeyView,
) -> Option<Seq<ResourceNodeView>>
    decreases g.len(),
{
    if g.len() == 0 {
        None
    } else if spec_key_view_cmp(k, g[0].0) == Ordering::Equal {
        Some(g[0].1)
    } else {
        spec_graph_lookup(g.drop_first(), k)
    }
}

/// The ordered map from resource key to every definition of that key.
#[derive(Debug)]
pub struct ResourceGraph {
    entries: Vec<(ResourceKey, Vec<ResourceNode>)>,
}

impl View for ResourceGraph {
    type V = Seq<(ResourceKeyView, Seq<ResourceNodeView>)>;

    closed spec fn view(&self) -> Seq<(ResourceKeyView, Seq<ResourceNodeView>)> {
        spec_graph_view(self.entries@)
    }
}

impl ResourceGraph {
    /// Keys strictly ascend and no definition list is empty.
    pub open spec fn wf(&self) -> bool {
        spec_graph_wf(self@)
    }

    /// An empty graph.
    pub fn new() -> (g: ResourceGraph)
        ensures
            g@ == Seq::<(ResourceKeyView, Seq<ResourceNodeView>)>::empty(),
            g.wf(),
    {
        let g = ResourceGraph { entries: Vec::new() };
        proof {
            assert(g@ =~= Seq::<(ResourceKeyView, Seq<ResourceNodeView>)>::empty());
        }
        g
    }

    /// The entries in ascending key order.
    pub fn nodes(&self) -> (r: &Vec<(ResourceKey, Vec<ResourceNode>)>)
        ensures
            spec_graph_view(r@) == self@,
    {
        &self.entries
    }

    /// Inserts one definition, returning whether the key was already present.
    /// Well-formedness is preserved: see [`lemma_graph_insert_wf`].
    #[verifier::rlimit(100)]
    #[verifier::spinoff_prover]
    pub fn insert(&mut self, key: ResourceKey, node: ResourceNode) -> (is_duplicate: bool)
        requires
            old(self).wf(),
        ensures
            final(self).wf(),
            final(self)@ == spec_graph_insert(old(self)@, key@, node@),
            is_duplicate == spec_graph_contains(old(self)@, key@),
    {
        proof {
            lemma_graph_insert_wf(self@, key@, node@);
        }
        let ghost gv = self@;
        proof {
            assert(gv.skip(0) =~= gv);
            assert(gv.take(0) + spec_graph_insert(gv.skip(0), key@, node@) =~= spec_graph_insert(
                gv,
                key@,
                node@,
            ));
        }
        let n = self.entries.len();
        let mut i: usize = 0;
        loop
            invariant
                n == self.entries@.len(),
                gv == self@,
                gv == old(self)@,
                spec_graph_wf(gv),
                spec_graph_wf(spec_graph_insert(gv, key@, node@)),
                i <= n,
                spec_graph_insert(gv, key@, node@) == gv.take(i as int) + spec_graph_insert(
                    gv.skip(i as int),
                    key@,
                    node@,
                ),
                spec_graph_contains(gv, key@) == spec_graph_contains(gv.skip(i as int), key@),
                forall|j: int| 0 <= j < i ==> spec_key_view_cmp(key@, (#[trigger] gv[j]).0)
                    == Ordering::Greater,
            decreases n - i,
        {
            proof {
                if i < n {
                    assert(gv.skip(i as int)[0] == gv[i as int]);
                    assert(gv.skip(i as int).drop_first() =~= gv.skip(i + 1));
                }
            }
            if i >= n {
                proof {
                    assert(gv.skip(i as int) =~= Seq::<
                        (ResourceKeyView, Seq<ResourceNodeView>),
                    >::empty());
                }
                let mut nodes: Vec<ResourceNode> = Vec::new();
                nodes.push(node);
                self.entries.push((key, nodes));
                proof {
                    assert(gv.take(n as int) =~= gv);
                    assert(spec_graph_insert(gv.skip(i as int), key@, node@) =~= seq![
                        (key@, seq![node@]),
                    ]);
                    assert(!spec_graph_contains(gv.skip(i as int), key@));
                    assert(self@ =~~= gv + seq![(key@, seq![node@])]);
                }
                return false;
            }
            let c = key.compare(&self.entries[i].0);
            proof {
                assert(gv[i as int].0 == self.entries@[i as int].0@);
            }
            match c {
                Ordering::Less => {
                    proof {
                        lemma_wf_skip(gv, i as int);
                        lemma_sorted_not_contains(gv.skip(i as int), key@);
                    }
                    let mut nodes: Vec<ResourceNode> = Vec::new();
                    nodes.push(node);
                    self.entries.insert(i, (key, nodes));
                    proof {
                        assert(self@ =~~= gv.take(i as int) + (seq![
                            (self.entries@[i as int].0@, seq![self.entries@[i as int].1@[0]@]),
                        ] + gv.skip(i as int)));
                    }
                    return false;
                },
                Ordering::Equal => {
                    let mut entry = self.entries.remove(i);
                    let ghost oldnodes = entry.1@.map_values(|x: ResourceNode| x@);
                    entry.1.push(node);
                    proof {
                        assert(entry.1@.map_values(|x: ResourceNode| x@) =~= oldnodes.push(
                            node@,
                        ));
                    }
                    self.entries.insert(i, entry);
                    proof {
                        assert(self@ =~~= gv.take(i as int) + (seq![
                            (gv[i as int].0, gv[i as int].1.push(node@)),
                        ] + gv.skip(i + 1)));
                    }
                    return true;
                },
                Ordering::Greater => {
                    proof {
                        assert(gv.take(i + 1) =~= gv.take(i as int).push(gv[i as int]));
                        assert(gv.take(i as int) + (seq![gv[i as int]] + spec_graph_insert(
                            gv.skip(i + 1),
                            key@,
                            node@,
                        )) =~= gv.take(i + 1) + spec_graph_insert(gv.skip(i + 1), key@, node@));
                    }
                    i = i + 1;
                },
            }
        }
    }

    /// The primary (first) definition of a key.
    #[verifier::rlimit(100)]
    #[verifier::spinoff_prover]
    pub fn get(&self, key: &ResourceKey) -> (r: Option<&ResourceNode>)
        requires
            self.wf(),
        ensures
            match r {
                Some(node) => spec_graph_lookup(self@, key@) matches Some(ns) && ns.len() > 0
                    && ns[0] == node@,
                None => spec_graph_lookup(self@, key@) is None,
            },
    {
        let ghost gv = self@;
        let n = self.entries.len();
        let mut i: usize = 0;
        proof {
            assert(gv.skip(0) =~= gv);
        }
        while i < n
            invariant
                n == self.entries@.len(),
                gv == self@,
                spec_graph_wf(gv),
                i <= n,
                spec_graph_lookup(gv, key@) == spec_graph_lookup(gv.skip(i as int), key@),
            decreases n - i,
        {
            proof {
                assert(gv.skip(i as int)[0] == gv[i as int]);
                assert(gv.skip(i as int).drop_first() =~= gv.skip(i + 1));
                assert(gv[i as int].0 == self.entries@[i as int].0@);
            }
            let c = key.compare(&self.entries[i].0);
            match c {
                Ordering::Equal => {
                    proof {
                        assert(gv[i as int].1.len() > 0);
                        assert(gv[i as int].1[0] == self.entries@[i as int].1@[0]@);
                    }
                    return Some(&self.entries[i].1[0]);
                },
                _ => {
                    i = i + 1;
                },
            }
        }
        proof {
            assert(gv.skip(n as int) =~= Seq::<
                (ResourceKeyView, Seq<ResourceNodeView>),
            >::empty());
        }
        None
    }

    /// Every definition of a key, in discovery order.
    #[verifier::rlimit(100)]
    #[verifier::spinoff_prover]
    pub fn get_all(&self, key: &ResourceKey) -> (r: Option<&Vec<ResourceNode>>)
        ensures
            match r {
                Some(nodes) => spec_graph_lookup(self@, key@) == Some(
                    nodes@.map_values(|x: ResourceNode| x@),
                ),
                None => spec_graph_lookup(self@, key@) is None,
            },
    {
        let ghost gv = self@;
        let n = self.entries.len();
        let mut i: usize = 0;
        proof {
            assert(gv.skip(0) =~= gv);
        }
        while i < n
            invariant
                n == self.entries@.len(),
                gv == self@,
                i <= n,
                spec_graph_lookup(gv, key@) == spec_graph_lookup(gv.skip(i as int), key@),
            decreases n - i,
        {
            proof {
                assert(gv.skip(i as int)[0] == gv[i as int]);
                assert(gv.skip(i as int).drop_first() =~= gv.skip(i + 1));
                assert(gv[i as int].0 == self.entries@[i as int].0@);
            }
            let c = key.compare(&self.entries[i].0);
            match c {
                Ordering::Equal => {
                    return Some(&self.entries[i].1);
                },
                _ => {
                    i = i + 1;
                },
            }
        }
        proof {
            assert(gv.skip(n as int) =~= Seq::<
                (ResourceKeyView, Seq<ResourceNodeView>),
            >::empty());
        }
        None
    }

    /// Whether a key has more than one definition.
    pub fn has_duplicates(&self, key: &ResourceKey) -> (r: bool)
        ensures
            r == (spec_graph_lookup(self@, key@) matches Some(ns) && ns.len() > 1),
    {
        match self.get_all(key) {
            Some(nodes) => nodes.len() > 1,
            None => false,
        }
    }

    /// The number of distinct keys.
    pub fn len(&self) -> (r: usize)
        ensures
            r == self@.len(),
    {
        self.entries.len()
    }
}

/// Inserting into a well-formed graph keeps it well-formed: the new key takes
/// its ordered place or joins its existing entry.
/// A key below every key of a sorted graph is absent from it.
proof fn lemma_sorted_not_contains(
    g: Seq<(ResourceKeyView, Seq<ResourceNodeView>)>,
    k: ResourceKeyView,
)
    requires
        spec_graph_wf(g),
        g.len() > 0 ==> spec_key_view_cmp(k, g[0].0) == Ordering::Less,
    ensures
        !spec_graph_contains(g, k),
    decreases g.len(),
{
    if g.len() > 0 {
        lemma_wf_drop(g);
        if g.len() > 1 {
            let j: int = 0;
            assert(spec_key_view_cmp(g[j].0, g[j + 1].0) == Ordering::Less);
            crate::key::lemma_key_view_cmp_trans(k, g[0].0, g[1].0);
            assert(g.drop_first()[0] == g[1]);
        }
        lemma_sorted_not_contains(g.drop_first(), k);
    }
}

/// A graph headed by a smaller key than a well-formed rest is well-formed.
proof fn lemma_wf_cons(
    head: (ResourceKeyView, Seq<ResourceNodeView>),
    rest: Seq<(ResourceKeyView, Seq<ResourceNodeView>)>,
)
    requires
        spec_graph_wf(rest),
        head.1.len() > 0,
        rest.len() > 0 ==> spec_key_view_cmp(head.0, rest[0].0) == Ordering::Less,
    ensures
        spec_graph_wf(seq![head] + rest),
{
    let r = seq![head] + rest;
    assert(forall|i: int| 0 <= i < rest.len() ==> #[trigger] r[i + 1] == rest[i]);
    assert forall|i: int| 0 <= i < r.len() - 1 implies #[trigger] spec_key_view_cmp(
        r[i].0,
        r[i + 1].0,
    ) == Ordering::Less by {
        if i > 0 {
            let j = i - 1;
            assert(r[i] == rest[j]);
            assert(r[i + 1] == rest[j + 1]);
            assert(spec_key_view_cmp(rest[j].0, rest[j + 1].0) == Ordering::Less);
        }
    }
    assert(forall|i: int| 0 <= i < r.len() ==> (#[trigger] r[i]).1.len() > 0);
}

/// Any tail of a well-formed graph is well-formed.
proof fn lemma_wf_skip(g: Seq<(ResourceKeyView, Seq<ResourceNodeView>)>, i: int)
    requires
        spec_graph_wf(g),
        0 <= i <= g.len(),
    ensures
        spec_graph_wf(g.skip(i)),
{
    let d = g.skip(i);
    assert(forall|j: int| 0 <= j < d.len() ==> (#[trigger] d[j]) == g[i + j]);
    assert forall|j: int| 0 <= j < d.len() - 1 implies #[trigger] spec_key_view_cmp(
        d[j].0,
        d[j + 1].0,
    ) == Ordering::Less by {
        let m = i + j;
        assert(d[j] == g[m]);
        assert(d[j + 1] == g[m + 1]);
        assert(spec_key_view_cmp(g[m].0, g[m + 1].0) == Ordering::Less);
    }
}

/// The tail of a well-formed graph is well-formed.
proof fn lemma_wf_drop(g: Seq<(ResourceKeyView, Seq<ResourceNodeView>)>)
    requires
        spec_graph_wf(g),
        g.len() > 0,
    ensures
        spec_graph_wf(g.drop_first()),
{
    let d = g.drop_first();
    assert(forall|i: int| 0 <= i < d.len() ==> (#[trigger] d[i]) == g[i + 1]);
    assert forall|i: int| 0 <= i < d.len() - 1 implies #[trigger] spec_key_view_cmp(
        d[i].0,
        d[i + 1].0,
    ) == Ordering::Less by {
        let j = i + 1;
        assert(d[i] == g[j]);
        assert(d[i + 1] == g[j + 1]);
        assert(spec_key_view_cmp(g[j].0, g[j + 1].0) == Ordering::Less);
    }
}

/// The head key of an insertion result: the inserted key where it comes
/// first, the old head key otherwise.
proof fn lemma_graph_insert_head(
    g: Seq<(ResourceKeyView, Seq<ResourceNodeView>)>,
    k: ResourceKeyView,
    n: ResourceNodeView,
)
    ensures
        spec_graph_insert(g, k, n).len() > 0,
        spec_graph_insert(g, k, n)[0].0 == (if g.len() == 0 {
            k
        } else if spec_key_view_cmp(k, g[0].0) == Ordering::Less {
            k
        } else {
            g[0].0
        }),
    decreases g.len(),
{
    if g.len() > 0 && spec_key_view_cmp(k, g[0].0) == Ordering::Greater {
        lemma_graph_insert_head(g.drop_first(), k, n);
    }
}

/// Inserting into a well-formed graph keeps it well-formed.
pub proof fn lemma_graph_insert_wf(
    g: Seq<(ResourceKeyView, Seq<ResourceNodeView>)>,
    k: ResourceKeyView,
    n: ResourceNodeView,
)
    requires
        spec_graph_wf(g),
    ensures
        spec_graph_wf(spec_graph_insert(g, k, n)),
    decreases g.len(),
{
    if g.len() == 0 {
        lemma_wf_cons((k, seq![n]), Seq::empty());
        assert(seq![(k, seq![n])] + Seq::<(ResourceKeyView, Seq<ResourceNodeView>)>::empty()
            =~= seq![(k, seq![n])]);
    } else {
        lemma_wf_drop(g);
        match spec_key_view_cmp(k, g[0].0) {
            Ordering::Less => {
                lemma_wf_cons((k, seq![n]), g);
            },
            Ordering::Equal => {
                if g.len() > 1 {
                    let j: int = 0;
                    assert(spec_key_view_cmp(g[j].0, g[j + 1].0) == Ordering::Less);
                    assert(g.drop_first()[0] == g[1]);
                }
                lemma_wf_cons((g[0].0, g[0].1.push(n)), g.drop_first());
            },
            Ordering::Greater => {
                lemma_graph_insert_wf(g.drop_first(), k, n);
                lemma_graph_insert_head(g.drop_first(), k, n);
                let rest = spec_graph_insert(g.drop_first(), k, n);
                assert(spec_key_view_cmp(g[0].0, rest[0].0) == Ordering::Less) by {
                    if g.drop_first().len() == 0 || spec_key_view_cmp(
                        k,
                        g.drop_first()[0].0,
                    ) == Ordering::Less {
                        assert(rest[0].0 == k);
                        lemma_key_view_cmp_flip(k, g[0].0);
                    } else {
                        assert(rest[0].0 == g.drop_first()[0].0);
                        assert(g.drop_first()[0] == g[1]);
                        let j: int = 0;
                        assert(spec_key_view_cmp(g[j].0, g[j + 1].0) == Ordering::Less);
                    }
                }
                lemma_wf_cons(g[0], rest);
            },
        }
    }
}

} // verus!
