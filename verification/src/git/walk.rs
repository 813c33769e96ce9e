//! Breadth-first, multi-source traversal of a commit graph.
//!
//! The traversal state is kept apart from the repository access: [`WalkState`]
//! holds the FIFO work queue and the log of identifiers already produced, and
//! every step on it is verified. Whoever drives the walk supplies the parent
//! identifiers of each produced commit and feeds them back into the state.

use vstd::prelude::*;

use crate::git::ObjectId;
use crate::git::adapter::{commit_parent_ids, reference_tip_ids};
use crate::git::error::GitError;

verus! {

/// The byte views of a sequence of identifiers.
pub open spec fn id_views(s: Seq<ObjectId>) -> Seq<Seq<u8>> {
    s.map_values(|o: ObjectId| o@)
}

/// Pure state of a breadth-first commit walk: a FIFO work queue, the log of
/// identifiers already produced (in production order), and whether the walk
/// was aborted by an error.
pub struct WalkState {
    pub queue: Vec<ObjectId>,
    pub visited: Vec<ObjectId>,
    pub failed: bool,
}

impl WalkState {
    /// The byte views of the identifiers still queued, head first.
    pub open spec fn queue_views(&self) -> Seq<Seq<u8>> {
        id_views(self.queue@)
    }

    /// The byte views of the identifiers produced so far, in order.
    pub open spec fn visited_views(&self) -> Seq<Seq<u8>> {
        id_views(self.visited@)
    }

    /// Well-formedness: no identifier was ever produced twice.
    pub open spec fn wf(&self) -> bool {
        self.visited_views().no_duplicates()
    }

    /// Every identifier still queued was already produced, so the walk can
    /// produce nothing further.
    pub open spec fn drained(&self) -> bool {
        forall|j: int|
            0 <= j < self.queue@.len() ==> self.visited_views().contains(
                #[trigger] self.queue_views()[j],
            )
    }

    /// Start a walk whose queue holds the given tips, oldest first.
    pub fn from_tips(tips: Vec<ObjectId>) -> (r: WalkState)
        ensures
            r.wf(),
            r.queue@ == tips@,
            r.visited@ == Seq::<ObjectId>::empty(),
            !r.failed,
    {
        let r = WalkState { queue: tips, visited: Vec::new(), failed: false };
        proof {
            assert(r.visited_views() =~= Seq::<Seq<u8>>::empty());
        }
        r
    }

    /// Mark the walk as aborted; no identifier will be produced after this.
    pub fn abort(&mut self)
        ensures
            final(self).queue@ == old(self).queue@,
            final(self).visited@ == old(self).visited@,
            final(self).failed,
            old(self).wf() ==> final(self).wf(),
    {
        self.failed = true;
    }

    /// Pop identifiers from the head of the queue until one comes up that was
    /// never produced, mark it produced, and hand it out. Returns `None` when
    /// the queue has drained or the walk was aborted.
    pub fn take_next(&mut self) -> (r: Option<ObjectId>)
        ensures
            old(self).wf() ==> final(self).wf(),
            final(self).failed == old(self).failed,
            old(self).failed ==> r is None && final(self).queue@ == old(self).queue@
                && final(self).visited@ == old(self).visited@,
            !old(self).failed && r is None ==> {
                &&& final(self).queue@.len() == 0
                &&& final(self).visited@ == old(self).visited@
                &&& forall|j: int|
                    0 <= j < old(self).queue@.len() ==> old(self).visited_views().contains(
                        #[trigger] old(self).queue_views()[j],
                    )
            },
            r matches Some(id) ==> {
                &&& !old(self).visited_views().contains(id@)
                &&& final(self).visited_views() == old(self).visited_views().push(id@)
                &&& exists|k: int|
                    #![auto]
                    {
                        &&& 0 <= k < old(self).queue@.len()
                        &&& old(self).queue@[k]@ == id@
                        &&& final(self).queue@ == old(self).queue@.skip(k + 1)
                        &&& forall|j: int|
                            0 <= j < k ==> old(self).visited_views().contains(
                                #[trigger] old(self).queue_views()[j],
                            )
                    }
            },
    {
        if self.failed {
            return None;
        }
        proof {
            assert(old(self).queue@.skip(0) =~= old(self).queue@);
        }
        while self.queue.len() > 0
            invariant
                old(self).wf() ==> self.wf(),
                !self.failed,
                !old(self).failed,
                self.visited@ == old(self).visited@,
                exists|k: int|
                    #![auto]
                    {
                        &&& 0 <= k <= old(self).queue@.len()
                        &&& self.queue@ == old(self).queue@.skip(k)
                        &&& forall|j: int|
                            0 <= j < k ==> old(self).visited_views().contains(
                                #[trigger] old(self).queue_views()[j],
                            )
                    },
            decreases self.queue@.len(),
        {
            let ghost pre_queue = self.queue@;
            let id = self.queue.remove(0);
            proof {
                let k = choose|k: int|
                    #![auto]
                    0 <= k <= old(self).queue@.len() && pre_queue == old(self).queue@.skip(k)
                        && forall|j: int|
                        0 <= j < k ==> old(self).visited_views().contains(
                            #[trigger] old(self).queue_views()[j],
                        );
                assert(pre_queue[0] == old(self).queue@[k]);
                assert(self.queue@ =~= old(self).queue@.skip(k + 1));
            }
            if contains_id(&self.visited, &id) {
                proof {
                    let k = choose|k: int|
                        #![auto]
                        0 <= k < old(self).queue@.len() && old(self).queue@[k]@ == id@
                            && self.queue@ == old(self).queue@.skip(k + 1) && forall|j: int|
                            0 <= j < k ==> old(self).visited_views().contains(
                                #[trigger] old(self).queue_views()[j],
                            );
                    assert(old(self).queue_views()[k] == id@);
                    assert forall|j: int| 0 <= j < k + 1 implies old(
                        self,
                    ).visited_views().contains(#[trigger] old(self).queue_views()[j]) by {}
                }
            } else {
                self.visited.push(id.duplicate());
                proof {
                    assert(self.visited_views() =~= old(self).visited_views().push(id@));
                }
                return Some(id);
            }
        }
        proof {
            let k = choose|k: int|
                #![auto]
                0 <= k <= old(self).queue@.len() && self.queue@ == old(self).queue@.skip(k)
                    && forall|j: int|
                    0 <= j < k ==> old(self).visited_views().contains(
                        #[trigger] old(self).queue_views()[j],
                    );
            assert(k == old(self).queue@.len());
        }
        None
    }

    /// Append identifiers (the parents of a just-produced commit) to the tail
    /// of the queue.
    pub fn enqueue_all(&mut self, ids: &Vec<ObjectId>)
        ensures
            final(self).queue_views() == old(self).queue_views() + id_views(ids@),
            final(self).visited@ == old(self).visited@,
            final(self).failed == old(self).failed,
            old(self).wf() ==> final(self).wf(),
    {
        let n: usize = ids.len();
        for i in 0..n
            invariant
                n == ids@.len(),
                self.queue_views() =~= old(self).queue_views() + id_views(ids@).take(i as int),
                self.visited@ == old(self).visited@,
                self.failed == old(self).failed,
        {
            let d = ids[i].duplicate();
            proof {
                assert(d@ == ids@[i as int]@);
            }
            self.queue.push(d);
            proof {
                assert(self.queue_views() =~= (old(self).queue_views() + id_views(ids@).take(
                    i as int,
                )).push(d@));
                assert(id_views(ids@).take(i + 1) =~= id_views(ids@).take(i as int).push(
                    ids@[i as int]@,
                ));
                assert(self.queue_views() =~= old(self).queue_views() + id_views(ids@).take(
                    i + 1,
                ));
            }
        }
        proof {
            assert(id_views(ids@).take(n as int) =~= id_views(ids@));
            assert(self.queue_views() =~= old(self).queue_views() + id_views(ids@));
        }
    }
}

/// Whether an identifier with these bytes is among `v`.
pub fn contains_id(v: &Vec<ObjectId>, id: &ObjectId) -> (r: bool)
    ensures
        r <==> id_views(v@).contains(id@),
{
    let n: usize = v.len();
    for i in 0..n
        invariant
            n == v@.len(),
            forall|j: int| 0 <= j < i ==> #[trigger] id_views(v@)[j] != id@,
    {
        if v[i].same(id) {
            proof {
                assert(id_views(v@)[i as int] == id@);
            }
            return true;
        }
    }
    false
}

/// No identifier is produced twice by a single walk, however many references
/// or parent edges lead to it: the production log of a well-formed walk state
/// is duplicate-free.
pub proof fn lemma_walk_no_duplicates(st: WalkState)
    requires
        st.wf(),
    ensures
        st.visited_views().no_duplicates(),
{
}

/// The parents recorded for `x` in graph `g`, or none if `x` is not recorded.
pub open spec fn parents_of(g: Map<Seq<u8>, Seq<Seq<u8>>>, x: Seq<u8>) -> Seq<Seq<u8>> {
    if g.contains_key(x) {
        g[x]
    } else {
        Seq::empty()
    }
}

/// `b` is reachable from `a` in `g` by following at most `n` parent edges.
pub open spec fn reaches(g: Map<Seq<u8>, Seq<Seq<u8>>>, a: Seq<u8>, b: Seq<u8>, n: nat) -> bool
    decreases n,
{
    a == b || (n > 0 && exists|i: int|
        0 <= i < parents_of(g, a).len() && reaches(
            g,
            #[trigger] parents_of(g, a)[i],
            b,
            (n - 1) as nat,
        ))
}

/// Some tip among `tips` reaches `x` in `g`.
pub open spec fn reachable(g: Map<Seq<u8>, Seq<Seq<u8>>>, tips: Seq<Seq<u8>>, x: Seq<u8>) -> bool {
    exists|t: Seq<u8>, n: nat| tips.contains(t) && #[trigger] reaches(g, t, x, n)
}

/// Every parent of a member of `s` is itself a member of `s`.
pub open spec fn parent_closed(g: Map<Seq<u8>, Seq<Seq<u8>>>, s: Seq<Seq<u8>>) -> bool {
    forall|x: Seq<u8>, j: int|
        s.contains(x) && 0 <= j < parents_of(g, x).len() ==> s.contains(
            #[trigger] parents_of(g, x)[j],
        )
}

/// A parent-closed set holding `a` holds everything `a` reaches.
proof fn lemma_closed_reaches(
    g: Map<Seq<u8>, Seq<Seq<u8>>>,
    s: Seq<Seq<u8>>,
    a: Seq<u8>,
    b: Seq<u8>,
    n: nat,
)
    requires
        parent_closed(g, s),
        s.contains(a),
        reaches(g, a, b, n),
    ensures
        s.contains(b),
    decreases n,
{
    if a != b {
        let i = choose|i: int|
            0 <= i < parents_of(g, a).len() && reaches(
                g,
                #[trigger] parents_of(g, a)[i],
                b,
                (n - 1) as nat,
            );
        assert(s.contains(parents_of(g, a)[i]));
        lemma_closed_reaches(g, s, parents_of(g, a)[i], b, (n - 1) as nat);
    }
}

/// Whatever reaches a node also reaches each of the node's parents, with
/// one edge more.
proof fn lemma_reaches_parent(g: Map<Seq<u8>, Seq<Seq<u8>>>, t: Seq<u8>, x: Seq<u8>, n: nat, j: int)
    requires
        reaches(g, t, x, n),
        0 <= j < parents_of(g, x).len(),
    ensures
        reaches(g, t, parents_of(g, x)[j], (n + 1) as nat),
    decreases n,
{
    if t == x {
        assert(reaches(g, parents_of(g, x)[j], parents_of(g, x)[j], n));
    } else {
        let i = choose|i: int|
            0 <= i < parents_of(g, t).len() && reaches(
                g,
                #[trigger] parents_of(g, t)[i],
                x,
                (n - 1) as nat,
            );
        lemma_reaches_parent(g, parents_of(g, t)[i], x, (n - 1) as nat, j);
        assert(reaches(g, t, parents_of(g, x)[j], (n + 1) as nat));
    }
}

/// The parent map described by an association list; for a repeated key the
/// earliest entry wins, as [`lookup_parents`] searches from the front.
pub open spec fn graph_of(entries: Seq<(ObjectId, Vec<ObjectId>)>) -> Map<Seq<u8>, Seq<Seq<u8>>>
    decreases entries.len(),
{
    if entries.len() == 0 {
        Map::empty()
    } else {
        graph_of(entries.drop_first()).insert(entries[0].0@, id_views(entries[0].1@))
    }
}

proof fn lemma_graph_of_found(entries: Seq<(ObjectId, Vec<ObjectId>)>, key: Seq<u8>, i: int)
    requires
        0 <= i < entries.len(),
        entries[i].0@ == key,
        forall|j: int| 0 <= j < i ==> (#[trigger] entries[j]).0@ != key,
    ensures
        graph_of(entries).contains_key(key),
        graph_of(entries)[key] == id_views(entries[i].1@),
    decreases entries.len(),
{
    if i > 0 {
        assert forall|j: int| 0 <= j < i - 1 implies (#[trigger] entries.drop_first()[j]).0@
            != key by {
            assert(entries.drop_first()[j] == entries[j + 1]);
        }
        assert(entries.drop_first()[i - 1] == entries[i]);
        lemma_graph_of_found(entries.drop_first(), key, i - 1);
    }
}

proof fn lemma_graph_of_absent(entries: Seq<(ObjectId, Vec<ObjectId>)>, key: Seq<u8>)
    requires
        forall|j: int| 0 <= j < entries.len() ==> (#[trigger] entries[j]).0@ != key,
    ensures
        !graph_of(entries).contains_key(key),
    decreases entries.len(),
{
    if entries.len() > 0 {
        assert forall|j: int| 0 <= j < entries.drop_first().len() implies (
        #[trigger] entries.drop_first()[j]).0@ != key by {
            assert(entries.drop_first()[j] == entries[j + 1]);
        }
        lemma_graph_of_absent(entries.drop_first(), key);
    }
}

/// All identifier views that appear as someone's parent in an
/// association-list graph.
pub open spec fn all_parent_views(entries: Seq<(ObjectId, Vec<ObjectId>)>) -> Set<Seq<u8>>
    decreases entries.len(),
{
    if entries.len() == 0 {
        Set::empty()
    } else {
        all_parent_views(entries.drop_first()).union(id_views(entries[0].1@).to_set())
    }
}

proof fn lemma_all_parent_views_finite(entries: Seq<(ObjectId, Vec<ObjectId>)>)
    ensures
        all_parent_views(entries).finite(),
    decreases entries.len(),
{
    broadcast use vstd::seq_lib::seq_to_set_is_finite;
    broadcast use vstd::set::group_set_axioms;

    if entries.len() > 0 {
        lemma_all_parent_views_finite(entries.drop_first());
    }
}

proof fn lemma_graph_values_are_parent_views(
    entries: Seq<(ObjectId, Vec<ObjectId>)>,
    key: Seq<u8>,
    j: int,
)
    requires
        graph_of(entries).contains_key(key),
        0 <= j < graph_of(entries)[key].len(),
    ensures
        all_parent_views(entries).contains(graph_of(entries)[key][j]),
    decreases entries.len(),
{
    broadcast use vstd::set::group_set_axioms;

    if entries[0].0@ == key {
        let vs = id_views(entries[0].1@);
        assert(vs.contains(vs[j]));
        assert(vs.to_set().contains(vs[j]));
    } else {
        lemma_graph_values_are_parent_views(entries.drop_first(), key, j);
    }
}

/// The parents an association-list graph records for `id`, if any.
pub fn lookup_parents<'a>(entries: &'a Vec<(ObjectId, Vec<ObjectId>)>, id: &ObjectId) -> (r: Option<
    &'a Vec<ObjectId>,
>)
    ensures
        r matches Some(v) ==> graph_of(entries@).contains_key(id@) && id_views(v@) == parents_of(
            graph_of(entries@),
            id@,
        ),
        r is None ==> !graph_of(entries@).contains_key(id@),
{
    let n: usize = entries.len();
    for i in 0..n
        invariant
            n == entries@.len(),
            forall|j: int| 0 <= j < i ==> (#[trigger] entries@[j]).0@ != id@,
    {
        if entries[i].0.same(id) {
            proof {
                lemma_graph_of_found(entries@, id@, i as int);
            }
            return Some(&entries[i].1);
        }
    }
    proof {
        lemma_graph_of_absent(entries@, id@);
    }
    None
}

/// An identifier already produced by, or still queued in, a walk state.
pub open spec fn covered(st: WalkState, x: Seq<u8>) -> bool {
    st.visited_views().contains(x) || st.queue_views().contains(x)
}

/// One successful `take_next` step keeps every previously covered identifier
/// covered.
proof fn lemma_covered_step(pre: WalkState, mid: WalkState, id_view: Seq<u8>, k: int, x: Seq<u8>)
    requires
        0 <= k < pre.queue@.len(),
        pre.queue@[k]@ == id_view,
        mid.queue@ == pre.queue@.skip(k + 1),
        forall|j: int|
            0 <= j < k ==> pre.visited_views().contains(#[trigger] pre.queue_views()[j]),
        mid.visited_views() == pre.visited_views().push(id_view),
        covered(pre, x),
    ensures
        covered(mid, x),
{
    if pre.visited_views().contains(x) {
        let i = choose|i: int|
            0 <= i < pre.visited_views().len() && pre.visited_views()[i] == x;
        assert(mid.visited_views()[i] == x);
    } else {
        let j = choose|j: int| 0 <= j < pre.queue_views().len() && pre.queue_views()[j] == x;
        if j < k {
            assert(pre.visited_views().contains(pre.queue_views()[j]));
            let i = choose|i: int|
                0 <= i < pre.visited_views().len() && pre.visited_views()[i] == x;
            assert(mid.visited_views()[i] == x);
        } else if j == k {
            assert(x == id_view);
            assert(mid.visited_views()[mid.visited_views().len() - 1] == x);
        } else {
            assert(mid.queue_views()[j - k - 1] == pre.queue@[j]@);
            assert(mid.queue_views()[j - k - 1] == x);
        }
    }
}

/// Walk an explicitly given commit graph breadth-first from `tips`.
///
/// The walk produces no identifier twice, and every identifier reachable from
/// some tip by following parent edges is produced.
pub fn walk_graph(tips: Vec<ObjectId>, entries: &Vec<(ObjectId, Vec<ObjectId>)>) -> (out: Vec<
    ObjectId,
>)
    ensures
        id_views(out@).no_duplicates(),
        forall|x: Seq<u8>| #[trigger]
            reachable(graph_of(entries@), id_views(tips@), x) ==> id_views(out@).contains(x),
        forall|x: Seq<u8>| #[trigger]
            id_views(out@).contains(x) ==> reachable(graph_of(entries@), id_views(tips@), x),
{
    broadcast use vstd::seq_lib::seq_to_set_is_finite;
    broadcast use vstd::set::group_set_axioms;

    let ghost g = graph_of(entries@);
    let ghost tip_views = id_views(tips@);
    let ghost uni = tip_views.to_set().union(all_parent_views(entries@));
    let mut st = WalkState::from_tips(tips);
    let mut out: Vec<ObjectId> = Vec::new();
    proof {
        lemma_all_parent_views_finite(entries@);
        assert(id_views(out@) =~= Seq::<Seq<u8>>::empty());
        assert forall|x: Seq<u8>| st.queue_views().contains(x) implies uni.contains(x) by {
            assert(tip_views.to_set().contains(x));
        }
        assert forall|x: Seq<u8>| st.queue_views().contains(x) implies reachable(
            g,
            tip_views,
            x,
        ) by {
            assert(tip_views.contains(x) && reaches(g, x, x, 0));
        }
    }
    loop
        invariant_except_break
            st.wf(),
            !st.failed,
            g == graph_of(entries@),
            uni == tip_views.to_set().union(all_parent_views(entries@)),
            uni.finite(),
            id_views(out@) == st.visited_views(),
            st.visited@.len() <= uni.len(),
            forall|x: Seq<u8>| #[trigger] st.queue_views().contains(x) ==> uni.contains(x),
            forall|x: Seq<u8>| #[trigger] st.visited_views().contains(x) ==> uni.contains(x),
            forall|x: Seq<u8>| #[trigger]
                st.queue_views().contains(x) ==> reachable(g, tip_views, x),
            forall|x: Seq<u8>| #[trigger]
                st.visited_views().contains(x) ==> reachable(g, tip_views, x),
            forall|t: Seq<u8>| #[trigger] tip_views.contains(t) ==> covered(st, t),
            forall|v: Seq<u8>, j: int|
                st.visited_views().contains(v) && 0 <= j < parents_of(g, v).len() ==> covered(
                    st,
                    #[trigger] parents_of(g, v)[j],
                ),
        ensures
            st.wf(),
            id_views(out@) == st.visited_views(),
            forall|t: Seq<u8>| #[trigger] tip_views.contains(t) ==> st.visited_views().contains(t),
            forall|x: Seq<u8>| #[trigger]
                st.visited_views().contains(x) ==> reachable(g, tip_views, x),
            parent_closed(g, st.visited_views()),
        decreases uni.len() - st.visited@.len(),
    {
        let ghost pre = st;
        let next = st.take_next();
        match next {
            None => {
                proof {
                    assert forall|t: Seq<u8>| #[trigger]
                        tip_views.contains(t) implies st.visited_views().contains(t) by {
                        if pre.queue_views().contains(t) {
                            let j = choose|j: int|
                                0 <= j < pre.queue_views().len() && pre.queue_views()[j] == t;
                            assert(pre.visited_views().contains(pre.queue_views()[j]));
                        }
                    }
                    assert forall|v: Seq<u8>, j: int|
                        st.visited_views().contains(v) && 0 <= j < parents_of(
                            g,
                            v,
                        ).len() implies st.visited_views().contains(
                        #[trigger] parents_of(g, v)[j],
                    ) by {
                        assert(covered(pre, parents_of(g, v)[j]));
                        if pre.queue_views().contains(parents_of(g, v)[j]) {
                            let m = choose|m: int|
                                0 <= m < pre.queue_views().len() && pre.queue_views()[m]
                                    == parents_of(g, v)[j];
                            assert(pre.visited_views().contains(pre.queue_views()[m]));
                        }
                    }
                }
                break ;
            },
            Some(id) => {
                let ghost k = choose|k: int|
                    #![auto]
                    {
                        &&& 0 <= k < pre.queue@.len()
                        &&& pre.queue@[k]@ == id@
                        &&& st.queue@ == pre.queue@.skip(k + 1)
                        &&& forall|j: int|
                            0 <= j < k ==> pre.visited_views().contains(
                                #[trigger] pre.queue_views()[j],
                            )
                    };
                let ghost mid = st;
                let ghost idv = id@;
                proof {
                    assert(0 <= k < pre.queue@.len());
                    assert(st.queue@ == pre.queue@.skip(k + 1));
                    assert forall|x: Seq<u8>| #[trigger] mid.queue_views().contains(x) implies uni.contains(
                        x,
                    ) by {
                        let j = choose|j: int|
                            0 <= j < mid.queue_views().len() && mid.queue_views()[j] == x;
                        assert(mid.queue@[j] == pre.queue@[k + 1 + j]);
                        assert(pre.queue_views()[k + 1 + j] == x);
                        assert(pre.queue_views().contains(x));
                    }
                    assert forall|x: Seq<u8>| #[trigger] mid.queue_views().contains(x) implies reachable(
                        g,
                        tip_views,
                        x,
                    ) by {
                        let j = choose|j: int|
                            0 <= j < mid.queue_views().len() && mid.queue_views()[j] == x;
                        assert(mid.queue@[j] == pre.queue@[k + 1 + j]);
                        assert(pre.queue_views()[k + 1 + j] == x);
                        assert(pre.queue_views().contains(x));
                    }
                    assert(pre.queue_views()[k] == idv);
                    assert(pre.queue_views().contains(idv));
                    assert(reachable(g, tip_views, idv));
                }
                match lookup_parents(entries, &id) {
                    Some(ps) => {
                        st.enqueue_all(ps);
                        proof {
                            assert forall|x: Seq<u8>| covered(pre, x) implies covered(st, x) by {
                                lemma_covered_step(pre, mid, idv, k, x);
                                if !mid.visited_views().contains(x) {
                                    let j = choose|j: int|
                                        0 <= j < mid.queue_views().len() && mid.queue_views()[j]
                                            == x;
                                    assert(st.queue_views()[j] == x);
                                }
                            }
                            assert forall|j: int|
                                0 <= j < parents_of(g, idv).len() implies covered(
                                st,
                                #[trigger] parents_of(g, idv)[j],
                            ) by {
                                assert(id_views(ps@) == parents_of(g, idv));
                                assert(st.queue_views() == mid.queue_views() + id_views(ps@));
                                assert(st.queue_views()[mid.queue_views().len() + j] == id_views(
                                    ps@,
                                )[j]);
                                assert(st.queue_views().contains(parents_of(g, idv)[j]));
                            }
                            let (t0, n0): (Seq<u8>, nat) = choose|t0: Seq<u8>, n0: nat|
                                tip_views.contains(t0) && #[trigger] reaches(g, t0, idv, n0);
                            assert forall|x: Seq<u8>| #[trigger] st.queue_views().contains(
                                x,
                            ) implies uni.contains(x) by {
                                let j = choose|j: int|
                                    0 <= j < st.queue_views().len() && st.queue_views()[j] == x;
                                if j < mid.queue_views().len() {
                                    assert(mid.queue_views()[j] == x);
                                    assert(mid.queue_views().contains(x));
                                } else {
                                    let m = j - mid.queue_views().len();
                                    assert(id_views(ps@)[m] == x);
                                    lemma_graph_values_are_parent_views(entries@, idv, m);
                                }
                            }
                            assert forall|x: Seq<u8>| #[trigger] st.queue_views().contains(
                                x,
                            ) implies reachable(g, tip_views, x) by {
                                let j = choose|j: int|
                                    0 <= j < st.queue_views().len() && st.queue_views()[j] == x;
                                if j < mid.queue_views().len() {
                                    assert(mid.queue_views()[j] == x);
                                    assert(mid.queue_views().contains(x));
                                } else {
                                    let m = j - mid.queue_views().len();
                                    assert(id_views(ps@)[m] == x);
                                    assert(parents_of(g, idv)[m] == x);
                                    lemma_reaches_parent(g, t0, idv, n0, m);
                                    assert(tip_views.contains(t0) && reaches(
                                        g,
                                        t0,
                                        x,
                                        (n0 + 1) as nat,
                                    ));
                                }
                            }
                        }
                    },
                    None => {
                        proof {
                            assert(parents_of(g, idv).len() == 0);
                            assert forall|x: Seq<u8>| covered(pre, x) implies covered(st, x) by {
                                lemma_covered_step(pre, mid, idv, k, x);
                            }
                            assert forall|x: Seq<u8>| #[trigger] st.queue_views().contains(
                                x,
                            ) implies reachable(g, tip_views, x) by {
                                assert(mid.queue_views().contains(x));
                            }
                        }
                    },
                }
                out.push(id);
                proof {
                    assert(id_views(out@) =~= mid.visited_views());
                    assert forall|x: Seq<u8>| #[trigger] st.visited_views().contains(x) implies uni.contains(
                        x,
                    ) by {
                        let i = choose|i: int|
                            0 <= i < st.visited_views().len() && st.visited_views()[i] == x;
                        if i < pre.visited_views().len() {
                            assert(pre.visited_views()[i] == x);
                            assert(pre.visited_views().contains(x));
                        } else {
                            assert(x == idv);
                            assert(pre.queue_views()[k] == idv);
                            assert(pre.queue_views().contains(idv));
                        }
                    }
                    assert forall|x: Seq<u8>| #[trigger] st.visited_views().contains(x) implies reachable(
                        g,
                        tip_views,
                        x,
                    ) by {
                        let i = choose|i: int|
                            0 <= i < st.visited_views().len() && st.visited_views()[i] == x;
                        if i < pre.visited_views().len() {
                            assert(pre.visited_views()[i] == x);
                            assert(pre.visited_views().contains(x));
                        } else {
                            assert(x == idv);
                        }
                    }
                    assert forall|v: Seq<u8>, j: int|
                        st.visited_views().contains(v) && 0 <= j < parents_of(
                            g,
                            v,
                        ).len() implies covered(st, #[trigger] parents_of(g, v)[j]) by {
                        let i = choose|i: int|
                            0 <= i < st.visited_views().len() && st.visited_views()[i] == v;
                        if i < pre.visited_views().len() {
                            assert(pre.visited_views()[i] == v);
                            assert(pre.visited_views().contains(v));
                            assert(covered(pre, parents_of(g, v)[j]));
                            assert(covered(st, parents_of(g, v)[j]));
                        } else {
                            assert(v == idv);
                        }
                    }
                    st.visited_views().unique_seq_to_set();
                    assert(st.visited_views().to_set().subset_of(uni));
                    vstd::set_lib::lemma_len_subset(st.visited_views().to_set(), uni);
                    assert(st.visited@.len() <= uni.len());
                }
            },
        }
    }
    proof {
        assert forall|x: Seq<u8>| #[trigger]
            reachable(g, tip_views, x) implies id_views(out@).contains(x) by {
            let (t, n): (Seq<u8>, nat) = choose|t: Seq<u8>, n: nat|
                tip_views.contains(t) && #[trigger] reaches(g, t, x, n);
            lemma_closed_reaches(g, st.visited_views(), t, x, n);
        }
    }
    out
}

/// Consecutive pairs of a produced sequence `[c0, c1, ..., cn]`: exactly the
/// pairs `(c0,c1), (c1,c2), ..., (c(n-1),cn)` in order — `n` pairs for `n + 1`
/// inputs, and none when the input has at most one element.
pub fn pair_up(ids: &Vec<ObjectId>) -> (r: Vec<(ObjectId, ObjectId)>)
    ensures
        ids@.len() <= 1 ==> r@.len() == 0,
        ids@.len() > 1 ==> r@.len() == ids@.len() - 1,
        forall|i: int|
            0 <= i < r@.len() ==> (#[trigger] r@[i]).0@ == ids@[i]@ && r@[i].1@ == ids@[i + 1]@,
{
    let mut r: Vec<(ObjectId, ObjectId)> = Vec::new();
    let n: usize = ids.len();
    if n <= 1 {
        return r;
    }
    for i in 0..n - 1
        invariant
            n == ids@.len(),
            n > 1,
            r@.len() == i,
            forall|j: int|
                0 <= j < i ==> (#[trigger] r@[j]).0@ == ids@[j]@ && r@[j].1@ == ids@[j + 1]@,
    {
        r.push((ids[i].duplicate(), ids[i + 1].duplicate()));
    }
    r
}

/// A deduplicating, breadth-first iterator over every commit of a repository
/// reachable from any of its references.
pub struct CommitTreeIterator<'a> {
    pub repo: &'a gix::Repository,
    pub state: WalkState,
}

impl<'a> CommitTreeIterator<'a> {
    /// Seed the walk with the target id of every reference of the repository.
    pub fn new(repo: &'a gix::Repository) -> (r: Result<CommitTreeIterator<'a>, GitError>)
        ensures
            r matches Ok(w) ==> w.state.wf() && !w.state.failed && w.state.visited@.len() == 0,
    {
        let tips = reference_tip_ids(repo)?;
        Ok(CommitTreeIterator { repo, state: WalkState::from_tips(tips) })
    }

    /// The next commit id of the walk: never one produced before, with the
    /// commit's parents enqueued at the tail. A commit or parent that fails
    /// to resolve ends the walk: its error is produced once and afterwards
    /// the walk produces nothing further.
    pub fn next(&mut self) -> (r: Option<Result<ObjectId, GitError>>)
        ensures
            old(self).state.wf() ==> final(self).state.wf(),
            old(self).state.failed ==> r is None,
            r is None ==> final(self).state.visited@ == old(self).state.visited@
                && final(self).state.failed == old(self).state.failed,
            r is None && !old(self).state.failed ==> final(self).state.queue@.len() == 0
                && final(self).state.drained(),
            r matches Some(res) ==> match res {
                Ok(id) => {
                    &&& !old(self).state.visited_views().contains(id@)
                    &&& final(self).state.visited_views() == old(
                        self,
                    ).state.visited_views().push(id@)
                    &&& !final(self).state.failed
                },
                Err(_) => final(self).state.failed,
            },
    {
        match self.state.take_next() {
            None => None,
            Some(id) => match commit_parent_ids(self.repo, &id) {
                Ok(parents) => {
                    self.state.enqueue_all(&parents);
                    Some(Ok(id))
                },
                Err(e) => {
                    self.state.abort();
                    Some(Err(e))
                },
            },
        }
    }
}

/// A source of commit identifiers in some walk order.
pub trait Walker {
    /// The byte views of the identifiers produced so far, in production
    /// order.
    spec fn produced(&self) -> Seq<Seq<u8>>;

    /// Whether the walk was ended by an error.
    spec fn aborted(&self) -> bool;

    /// Whether the walk can produce nothing further.
    spec fn exhausted(&self) -> bool;

    /// Collect the walk's remaining identifiers in production order, at most
    /// `limit` of them. The collected identifiers are exactly what the walk
    /// produced beyond what it had produced before, no identifier twice; a
    /// collection that stops short of `limit` without an abort has exhausted
    /// the walk. The first failure while pulling aborts the whole collection
    /// with that error.
    fn walk_ids(&mut self, limit: usize) -> (r: Result<Vec<ObjectId>, GitError>)
        ensures
            r matches Ok(ids) ==> {
                &&& ids@.len() <= limit
                &&& id_views(ids@).no_duplicates()
                &&& final(self).produced() == old(self).produced() + id_views(ids@)
                &&& (ids@.len() < limit && !final(self).aborted() ==> final(self).exhausted())
            },
            r is Err ==> final(self).aborted(),
    ;

    /// Consecutive pairs `(previous, current)` of the identifiers this call
    /// walked: one pair for every walked identifier after the first, in
    /// order, none when at most one was walked. A walk that stops short of
    /// `limit` without an abort is exhausted. An error met while pulling
    /// aborts pairing at once with that error.
    fn adjacent_pairs(&mut self, limit: usize) -> (r: Result<
        Vec<(ObjectId, ObjectId)>,
        GitError,
    >)
        ensures
            r matches Ok(ps) ==> {
                let walked = final(self).produced().skip(old(self).produced().len() as int);
                &&& final(self).produced().len() >= old(self).produced().len()
                &&& walked.no_duplicates()
                &&& (walked.len() <= 1 ==> ps@.len() == 0)
                &&& (walked.len() > 1 ==> ps@.len() == walked.len() - 1)
                &&& forall|i: int|
                    0 <= i < ps@.len() ==> (#[trigger] ps@[i]).0@ == walked[i] && ps@[i].1@
                        == walked[i + 1]
                &&& (walked.len() < limit && !final(self).aborted() ==> final(self).exhausted())
            },
            r is Err ==> final(self).aborted(),
    {
        let ghost base = self.produced();
        let ids = match self.walk_ids(limit) {
            Ok(v) => v,
            Err(e) => {
                return Err(e);
            },
        };
        let pairs = pair_up(&ids);
        proof {
            assert(self.produced().skip(base.len() as int) =~= id_views(ids@));
        }
        Ok(pairs)
    }
}

impl<'a> Walker for CommitTreeIterator<'a> {
    open spec fn produced(&self) -> Seq<Seq<u8>> {
        self.state.visited_views()
    }

    open spec fn aborted(&self) -> bool {
        self.state.failed
    }

    open spec fn exhausted(&self) -> bool {
        self.state.drained()
    }

    fn walk_ids(&mut self, limit: usize) -> (r: Result<Vec<ObjectId>, GitError>) {
        let mut ids: Vec<ObjectId> = Vec::new();
        proof {
            assert(id_views(ids@) =~= Seq::<Seq<u8>>::empty());
            assert(self.state.visited_views() =~= old(self).state.visited_views() + id_views(
                ids@,
            ));
        }
        loop
            invariant_except_break
                ids@.len() <= limit,
                id_views(ids@).no_duplicates(),
                self.state.visited_views() == old(self).state.visited_views() + id_views(ids@),
            ensures
                ids@.len() <= limit,
                id_views(ids@).no_duplicates(),
                self.state.visited_views() == old(self).state.visited_views() + id_views(ids@),
                ids@.len() < limit ==> self.state.failed || self.state.drained(),
            decreases limit - ids@.len(),
        {
            if ids.len() >= limit {
                break ;
            }
            let ghost pre = self.state;
            match self.next() {
                None => {
                    proof {
                        if !pre.failed {
                            assert(self.state.drained());
                        }
                    }
                    break ;
                },
                Some(res) => match res {
                    Ok(id) => {
                        proof {
                            if id_views(ids@).contains(id@) {
                                let j = choose|j: int|
                                    0 <= j < id_views(ids@).len() && id_views(ids@)[j] == id@;
                                assert(pre.visited_views()[old(self).state.visited_views().len()
                                    + j] == id@);
                            }
                            assert(!id_views(ids@).contains(id@));
                            assert(id_views(ids@.push(id)) =~= id_views(ids@).push(id@));
                            lemma_no_duplicates_push(id_views(ids@), id@);
                            assert(self.state.visited_views() =~= old(
                                self,
                            ).state.visited_views() + id_views(ids@.push(id)));
                        }
                        ids.push(id);
                    },
                    Err(e) => {
                        return Err(e);
                    },
                },
            }
        }
        proof {
            if ids@.len() < limit && !self.state.failed {
                assert(self.state.drained());
            }
            assert(self.exhausted() == self.state.drained());
            assert(self.aborted() == self.state.failed);
        }
        Ok(ids)
    }
}

/// Pushing an element that a duplicate-free sequence does not hold keeps it
/// duplicate-free.
proof fn lemma_no_duplicates_push(s: Seq<Seq<u8>>, x: Seq<u8>)
    requires
        s.no_duplicates(),
        !s.contains(x),
    ensures
        s.push(x).no_duplicates(),
{
    assert forall|i: int, j: int|
        0 <= i < s.push(x).len() && 0 <= j < s.push(x).len() && i != j implies s.push(x)[i]
        != s.push(x)[j] by {
        if i < s.len() && j < s.len() {
        } else if i < s.len() {
            assert(s[i] == s.push(x)[i]);
        } else if j < s.len() {
            assert(s[j] == s.push(x)[j]);
        }
    }
}


} // verus!
