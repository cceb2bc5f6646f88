//! The immediate-mode bookkeeping of the children of a container widget.
//!
//! Each frame, a container invalidates its children, is queried once per
//! child that the user builds (in build order), and finally drops the
//! children that were not queried. A queried child that existed during the
//! previous frame keeps its node (and so its state); a new one gets a fresh
//! node.
use vstd::prelude::*;

use crate::component_id::ComponentId;

verus! {

/// A child of a container: the identifier it was queried with, whether it
/// was queried during the current frame, and its node.
pub struct Child<T> {
    pub id: ComponentId,
    pub valid: bool,
    pub node: T,
}

/// The outcome of a query on a container: the position of the child queried,
/// and whether it already existed (`Initialized`) or was just created
/// (`Uninitialized`).
#[derive(Copy, Clone, Debug, PartialEq, Eq, Structural)]
pub enum ChildQuery {
    Uninitialized(usize),
    Initialized(usize),
}

/// No two children carry the same identifier.
pub open spec fn ids_distinct<T>(s: Seq<Child<T>>) -> bool {
    forall|i: int, j: int|
        0 <= i < s.len() && 0 <= j < s.len() && i != j ==> #[trigger] s[i].id != #[trigger] s[j].id
}

/// Some child carries the identifier `id`.
pub open spec fn has_id<T>(s: Seq<Child<T>>, id: ComponentId) -> bool {
    exists|i: int| 0 <= i < s.len() && #[trigger] s[i].id == id
}

/// The position of the child carrying `id` (meaningful when `has_id`).
pub open spec fn index_of_id<T>(s: Seq<Child<T>>, id: ComponentId) -> int {
    choose|i: int| 0 <= i < s.len() && #[trigger] s[i].id == id
}

/// Every child marked as not queried yet.
pub open spec fn invalidated<T>(s: Seq<Child<T>>) -> Seq<Child<T>> {
    Seq::new(s.len(), |i: int| Child { id: s[i].id, valid: false, node: s[i].node })
}

/// The child at `i` exchanged with the one at `c`, then marked as queried.
pub open spec fn promoted<T>(s: Seq<Child<T>>, c: int, i: int) -> Seq<Child<T>> {
    let t = s.update(c, s[i]).update(i, s[c]);
    t.update(c, Child { id: t[c].id, valid: true, node: t[c].node })
}

/// A query may proceed: the exchange it performs stays inside the children.
pub open spec fn can_query<T>(s: Seq<Child<T>>, cursor: nat, id: ComponentId) -> bool {
    if has_id(s, id) {
        cursor < s.len()
    } else {
        cursor <= s.len()
    }
}

/// The children after a query of `id` with the cursor at `cursor`; `fresh` is
/// the node given to the child when none carries `id`.
pub open spec fn queried<T>(s: Seq<Child<T>>, cursor: nat, id: ComponentId, fresh: T) -> Seq<
    Child<T>,
> {
    if has_id(s, id) {
        promoted(s, cursor as int, index_of_id(s, id))
    } else {
        promoted(s.push(Child { id, valid: true, node: fresh }), cursor as int, s.len() as int)
    }
}

/// The children after a lookup of `id` that appends a child (with node
/// `fresh`) when none carries it, and otherwise changes nothing.
pub open spec fn looked_up<T>(s: Seq<Child<T>>, id: ComponentId, fresh: T) -> Seq<Child<T>> {
    if has_id(s, id) {
        s
    } else {
        s.push(Child { id, valid: true, node: fresh })
    }
}

/// The children that were queried, in their order.
pub open spec fn kept_valid<T>(s: Seq<Child<T>>) -> Seq<Child<T>>
    decreases s.len(),
{
    if s.len() == 0 {
        s
    } else {
        let rest = kept_valid(s.drop_last());
        if s.last().valid {
            rest.push(s.last())
        } else {
            rest
        }
    }
}

/// The children after the queries `queries`, issued in order from a cursor
/// at zero; `fresh[k]` is the node a new child gets at the `k`-th query.
pub open spec fn after_queries<T>(s: Seq<Child<T>>, queries: Seq<ComponentId>, fresh: Seq<T>) -> Seq<
    Child<T>,
>
    decreases queries.len(),
{
    if queries.len() == 0 {
        s
    } else {
        queried(
            after_queries(s, queries.drop_last(), fresh.drop_last()),
            (queries.len() - 1) as nat,
            queries.last(),
            fresh.last(),
        )
    }
}

/// The children after a whole frame: invalidation, the queries, and the
/// removal of the children not queried.
pub open spec fn after_frame<T>(s: Seq<Child<T>>, queries: Seq<ComponentId>, fresh: Seq<T>) -> Seq<
    Child<T>,
> {
    kept_valid(after_queries(invalidated(s), queries, fresh))
}

/// The ordered children of a container that holds any number of them
/// (a window, an inline row, the window handler).
pub struct ChildList<T> {
    content: Vec<Child<T>>,
    valid_index: usize,
}

impl<T> ChildList<T> {
    #[verifier::type_invariant]
    spec fn distinct(self) -> bool {
        ids_distinct(self.content@)
    }

    /// The children, in order.
    pub closed spec fn entries(&self) -> Seq<Child<T>> {
        self.content@
    }

    /// The number of queries since the children were last invalidated: the
    /// position the next queried child is moved to.
    pub closed spec fn cursor(&self) -> nat {
        self.valid_index as nat
    }

    /// The children never share an identifier.
    pub fn entries_distinct(&self)
        ensures
            ids_distinct(self.entries()),
    {
        proof {
            use_type_invariant(self);
        }
    }

    /// A container with no child.
    pub fn new() -> (r: Self)
        ensures
            r.entries() == Seq::<Child<T>>::empty(),
            r.cursor() == 0,
    {
        ChildList { content: Vec::new(), valid_index: 0 }
    }

    /// The number of children.
    pub fn len(&self) -> (r: usize)
        ensures
            r == self.entries().len(),
    {
        self.content.len()
    }

    /// The node of the child at position `i`.
    pub fn node(&self, i: usize) -> (r: &T)
        requires
            i < self.entries().len(),
        ensures
            *r == self.entries()[i as int].node,
    {
        &self.content[i].node
    }

    /// The identifier of the child at position `i`.
    pub fn id(&self, i: usize) -> (r: ComponentId)
        requires
            i < self.entries().len(),
        ensures
            r == self.entries()[i as int].id,
    {
        self.content[i].id
    }

    /// Puts `node` in place of the node of the child at position `i`, and
    /// gives back the node it replaces.
    pub fn replace_node(&mut self, i: usize, node: T) -> (r: T)
        requires
            i < old(self).entries().len(),
        ensures
            r == old(self).entries()[i as int].node,
            final(self).entries() == old(self).entries().update(
                i as int,
                Child { id: old(self).entries()[i as int].id, valid: old(self).entries()[i as int].valid, node },
            ),
            final(self).cursor() == old(self).cursor(),
    {
        proof {
            use_type_invariant(&*self);
        }
        let mut v: Vec<Child<T>> = Vec::new();
        std::mem::swap(&mut v, &mut self.content);
        let ghost start = v@;
        let c = v.remove(i);
        v.insert(i, Child { id: c.id, valid: c.valid, node });
        assert(v@ =~= start.update(i as int, Child { id: c.id, valid: c.valid, node }));
        assert(ids_distinct(v@)) by {
            assert forall|a: int, b: int|
                0 <= a < v@.len() && 0 <= b < v@.len() && a != b implies #[trigger] v@[a].id
                != #[trigger] v@[b].id by {
                assert(v@[a].id == start[a].id);
                assert(v@[b].id == start[b].id);
            }
        }
        self.content = v;
        c.node
    }

    /// Whether the child at position `i` was queried during this frame.
    pub fn is_valid(&self, i: usize) -> (r: bool)
        requires
            i < self.entries().len(),
        ensures
            r == self.entries()[i as int].valid,
    {
        self.content[i].valid
    }

    /// Starts a frame: every child is marked as not queried yet, and the
    /// cursor goes back to the first position.
    pub fn invalidate_all(&mut self)
        ensures
            final(self).entries() == invalidated(old(self).entries()),
            final(self).cursor() == 0,
    {
        proof {
            use_type_invariant(&*self);
        }
        let mut v: Vec<Child<T>> = Vec::new();
        std::mem::swap(&mut v, &mut self.content);
        let ghost start = v@;
        let n = v.len();
        let mut i: usize = 0;
        while i < n
            invariant
                n == start.len(),
                v@.len() == n,
                i <= n,
                ids_distinct(start),
                forall|j: int| 0 <= j < i ==> v@[j] == invalidated(start)[j],
                forall|j: int| i <= j < n ==> v@[j] == start[j],
            decreases n - i,
        {
            v[i].valid = false;
            i += 1;
        }
        assert(v@ =~= invalidated(start));
        assert(ids_distinct(v@)) by {
            assert forall|a: int, b: int|
                0 <= a < v@.len() && 0 <= b < v@.len() && a != b implies #[trigger] v@[a].id
                != #[trigger] v@[b].id by {
                assert(v@[a].id == start[a].id);
                assert(v@[b].id == start[b].id);
            }
        }
        self.content = v;
        self.valid_index = 0;
    }

    /// The position of the child carrying `id`, if any.
    pub fn position(&self, id: &ComponentId) -> (r: Option<usize>)
        ensures
            r is Some <==> has_id(self.entries(), *id),
            r matches Some(i) ==> i < self.entries().len() && self.entries()[i as int].id == *id,
    {
        let n = self.content.len();
        let mut i: usize = 0;
        while i < n
            invariant
                n == self.entries().len(),
                i <= n,
                forall|j: int| 0 <= j < i ==> #[trigger] self.entries()[j].id != *id,
            decreases n - i,
        {
            if self.content[i].id == *id {
                return Some(i);
            }
            i += 1;
        }
        None
    }

    /// Whether a query of `id` may proceed now: the child it finds or
    /// appends can be moved to the cursor position.
    pub fn query_possible(&self, id: &ComponentId) -> (r: bool)
        ensures
            r == can_query(self.entries(), self.cursor(), *id),
    {
        match self.position(id) {
            Some(_) => self.valid_index < self.content.len(),
            None => self.valid_index <= self.content.len(),
        }
    }

    /// Queries the child carrying `id`: it is moved to the cursor position
    /// and marked as queried, and the cursor advances. When no child carries
    /// `id`, a new one is appended first, with the node that `create` makes.
    pub fn query<F: FnOnce() -> T>(&mut self, id: ComponentId, create: F) -> (r: ChildQuery)
        requires
            can_query(old(self).entries(), old(self).cursor(), id),
            create.requires(()),
        ensures
            final(self).entries() == queried(
                old(self).entries(),
                old(self).cursor(),
                id,
                final(self).entries()[old(self).cursor() as int].node,
            ),
            !has_id(old(self).entries(), id) ==> create.ensures(
                (),
                final(self).entries()[old(self).cursor() as int].node,
            ),
            final(self).cursor() == old(self).cursor() + 1,
            r == (if has_id(old(self).entries(), id) {
                ChildQuery::Initialized(old(self).cursor() as usize)
            } else {
                ChildQuery::Uninitialized(old(self).cursor() as usize)
            }),
    {
        proof {
            use_type_invariant(&*self);
        }
        let found = self.position(&id);
        let mut v: Vec<Child<T>> = Vec::new();
        std::mem::swap(&mut v, &mut self.content);
        let ghost start = v@;
        let c = self.valid_index;
        let (index, result) = match found {
            Some(i) => (i, ChildQuery::Initialized(c)),
            None => {
                let node = create();
                v.push(Child { id, valid: true, node });
                (v.len() - 1, ChildQuery::Uninitialized(c))
            },
        };
        let ghost before = v@;
        proof {
            if found is Some {
                assert(index == index_of_id(start, id)) by {
                    let k = index_of_id(start, id);
                    assert(start[index as int].id == id);
                    assert(start[k].id == id);
                }
            }
        }
        promote(&mut v, c, index);
        proof {
            if found is None {
                assert(v@[c as int].node == before[index as int].node);
                assert(v@ == queried(start, c as nat, id, v@[c as int].node));
            }
            lemma_promoted_distinct(before, c as int, index as int);
            if found is None {
                lemma_push_fresh_distinct(start, id, before.last());
            }
        }
        self.content = v;
        self.valid_index = c + 1;
        result
    }

    /// Queries the child carrying `id` without reordering the children: when
    /// none carries it, a new one is appended with the node that `create`
    /// makes. This is the lookup of containers that never drop a child.
    pub fn lookup_or_insert<F: FnOnce() -> T>(&mut self, id: ComponentId, create: F) -> (r:
        ChildQuery)
        requires
            create.requires(()),
        ensures
            final(self).entries() == looked_up(
                old(self).entries(),
                id,
                final(self).entries().last().node,
            ),
            !has_id(old(self).entries(), id) ==> create.ensures(
                (),
                final(self).entries().last().node,
            ),
            r == (if has_id(old(self).entries(), id) {
                ChildQuery::Initialized(index_of_id(old(self).entries(), id) as usize)
            } else {
                ChildQuery::Uninitialized(old(self).entries().len() as usize)
            }),
            final(self).cursor() == old(self).cursor(),
            has_id(old(self).entries(), id) ==> final(self).entries() == old(self).entries(),
            !has_id(old(self).entries(), id) ==> final(self).entries().len() == old(
                self,
            ).entries().len() + 1 && final(self).entries().drop_last() == old(self).entries(),
            r matches ChildQuery::Initialized(i) ==> i < final(self).entries().len()
                && final(self).entries()[i as int].id == id,
            r matches ChildQuery::Uninitialized(i) ==> i < final(self).entries().len()
                && final(self).entries()[i as int].id == id,
    {
        proof {
            use_type_invariant(&*self);
        }
        match self.position(&id) {
            Some(i) => {
                proof {
                    let k = index_of_id(self.entries(), id);
                    assert(self.entries()[k].id == id);
                    assert(self.entries()[i as int].id == id);
                }
                ChildQuery::Initialized(i)
            },
            None => {
                let node = create();
                let mut v: Vec<Child<T>> = Vec::new();
                std::mem::swap(&mut v, &mut self.content);
                let ghost start = v@;
                let n = v.len();
                v.push(Child { id, valid: true, node });
                proof {
                    lemma_push_fresh_distinct(start, id, v@.last());
                    assert(v@.drop_last() =~= start);
                }
                self.content = v;
                ChildQuery::Uninitialized(n)
            },
        }
    }

    /// Ends a frame: the children that were not queried are dropped, the
    /// others keep their order.
    pub fn retain_valid(&mut self)
        ensures
            final(self).entries() == kept_valid(old(self).entries()),
            final(self).cursor() == old(self).cursor(),
    {
        proof {
            use_type_invariant(&*self);
        }
        let mut v: Vec<Child<T>> = Vec::new();
        std::mem::swap(&mut v, &mut self.content);
        let ghost start = v@;
        let mut i: usize = 0;
        let ghost mut j: int = 0;
        proof {
            assert(start.take(0) =~= Seq::<Child<T>>::empty());
            assert(start.skip(0) =~= start);
        }
        while i < v.len()
            invariant
                0 <= j <= start.len(),
                i == kept_valid(start.take(j)).len(),
                v@ =~= kept_valid(start.take(j)) + start.skip(j),
            decreases start.len() - j,
        {
            proof {
                assert(v@[i as int] == start[j]);
                assert(start.take(j + 1).drop_last() =~= start.take(j));
                assert(start.take(j + 1).last() == start[j]);
            }
            if v[i].valid {
                i += 1;
            } else {
                v.remove(i);
            }
            proof {
                j = j + 1;
            }
        }
        proof {
            assert(j == start.len());
            assert(start.take(j) =~= start);
            lemma_kept_valid_distinct(start);
        }
        self.content = v;
    }
}

/// Exchanges the children at `c` and `i`, then marks the one now at `c` as
/// queried.
fn promote<T>(v: &mut Vec<Child<T>>, c: usize, i: usize)
    requires
        c < old(v).len(),
        i < old(v).len(),
    ensures
        final(v)@ == promoted(old(v)@, c as int, i as int),
{
    let ghost s = v@;
    if c == i {
        v[c].valid = true;
        assert(v@ =~= promoted(s, c as int, i as int));
    } else if c < i {
        let at_i = v.remove(i);
        let at_c = v.remove(c);
        v.insert(c, Child { id: at_i.id, valid: true, node: at_i.node });
        v.insert(i, at_c);
        assert(v@ =~= promoted(s, c as int, i as int));
    } else {
        let at_c = v.remove(c);
        let at_i = v.remove(i);
        v.insert(i, at_c);
        v.insert(c, Child { id: at_i.id, valid: true, node: at_i.node });
        assert(v@ =~= promoted(s, c as int, i as int));
    }
}

/// Exchanging two children keeps their identifiers distinct.
proof fn lemma_promoted_distinct<T>(s: Seq<Child<T>>, c: int, i: int)
    requires
        ids_distinct(s),
        0 <= c < s.len(),
        0 <= i < s.len(),
    ensures
        ids_distinct(promoted(s, c, i)),
{
    let p = promoted(s, c, i);
    assert forall|a: int, b: int|
        0 <= a < p.len() && 0 <= b < p.len() && a != b implies #[trigger] p[a].id
        != #[trigger] p[b].id by {
        let src_a = if a == c {
            i
        } else if a == i {
            c
        } else {
            a
        };
        let src_b = if b == c {
            i
        } else if b == i {
            c
        } else {
            b
        };
        assert(p[a].id == s[src_a].id);
        assert(p[b].id == s[src_b].id);
    }
}

/// Appending a child with an identifier that no child carries keeps the
/// identifiers distinct.
proof fn lemma_push_fresh_distinct<T>(s: Seq<Child<T>>, id: ComponentId, c: Child<T>)
    requires
        ids_distinct(s),
        !has_id(s, id),
        c.id == id,
    ensures
        ids_distinct(s.push(c)),
{
    let p = s.push(c);
    assert forall|a: int, b: int|
        0 <= a < p.len() && 0 <= b < p.len() && a != b implies #[trigger] p[a].id
        != #[trigger] p[b].id by {
        if a < s.len() && b < s.len() {
            assert(p[a] == s[a]);
            assert(p[b] == s[b]);
        } else if a < s.len() {
            assert(p[a] == s[a]);
            assert(s[a].id != id);
        } else {
            assert(p[b] == s[b]);
            assert(s[b].id != id);
        }
    }
}

/// Every child kept was a child before, in the same relative order; in
/// particular identifiers stay distinct.
proof fn lemma_kept_valid_distinct<T>(s: Seq<Child<T>>)
    requires
        ids_distinct(s),
    ensures
        ids_distinct(kept_valid(s)),
        forall|k: int|
            0 <= k < kept_valid(s).len() ==> exists|m: int|
                0 <= m < s.len() && #[trigger] kept_valid(s)[k] == s[m],
    decreases s.len(),
{
    if s.len() > 0 {
        let d = s.drop_last();
        assert(ids_distinct(d)) by {
            assert forall|a: int, b: int|
                0 <= a < d.len() && 0 <= b < d.len() && a != b implies #[trigger] d[a].id
                != #[trigger] d[b].id by {
                assert(d[a] == s[a]);
                assert(d[b] == s[b]);
            }
        }
        lemma_kept_valid_distinct(d);
        let r = kept_valid(d);
        if s.last().valid {
            let p = r.push(s.last());
            assert forall|k: int| 0 <= k < p.len() implies exists|m: int|
                0 <= m < s.len() && #[trigger] p[k] == s[m] by {
                if k < r.len() {
                    let m = choose|m: int| 0 <= m < d.len() && #[trigger] r[k] == d[m];
                    assert(p[k] == s[m]);
                } else {
                    assert(p[k] == s[s.len() - 1]);
                }
            }
            assert forall|a: int, b: int|
                0 <= a < p.len() && 0 <= b < p.len() && a != b implies #[trigger] p[a].id
                != #[trigger] p[b].id by {
                if a < r.len() && b < r.len() {
                    assert(p[a] == r[a]);
                    assert(p[b] == r[b]);
                } else if a < r.len() {
                    let m = choose|m: int| 0 <= m < d.len() && #[trigger] r[a] == d[m];
                    assert(p[a] == s[m]);
                    assert(p[b] == s[s.len() - 1]);
                } else {
                    let m = choose|m: int| 0 <= m < d.len() && #[trigger] r[b] == d[m];
                    assert(p[b] == s[m]);
                    assert(p[a] == s[s.len() - 1]);
                }
            }
        } else {
            assert forall|k: int| 0 <= k < r.len() implies exists|m: int|
                0 <= m < s.len() && #[trigger] r[k] == s[m] by {
                let m = choose|m: int| 0 <= m < d.len() && #[trigger] r[k] == d[m];
                assert(r[k] == s[m]);
            }
        }
    }
}

/// What holds after the first `k` queries of a frame that started from the
/// children `s0`: the queried children stand first, in query order, marked
/// as queried and holding their previous node (or the fresh one); the others
/// follow, not queried, each one a child of `s0` with its node.
spec fn frame_progress<T>(
    s0: Seq<Child<T>>,
    queries: Seq<ComponentId>,
    fresh: Seq<T>,
    k: int,
    t: Seq<Child<T>>,
) -> bool {
    &&& ids_distinct(t)
    &&& k <= t.len()
    &&& forall|j: int|
        0 <= j < k ==> {
            &&& #[trigger] t[j].id == queries[j]
            &&& t[j].valid
            &&& has_id(s0, queries[j]) ==> t[j].node == s0[index_of_id(s0, queries[j])].node
            &&& !has_id(s0, queries[j]) ==> t[j].node == fresh[j]
        }
    &&& forall|j: int|
        k <= j < t.len() ==> {
            &&& !(#[trigger] t[j]).valid
            &&& has_id(s0, t[j].id)
            &&& t[j].node == s0[index_of_id(s0, t[j].id)].node
        }
    &&& forall|x: ComponentId| has_id(s0, x) ==> has_id(t, x)
}

/// The position of the child carrying an identifier is the one position
/// where it stands.
proof fn lemma_index_of_id<T>(s: Seq<Child<T>>, i: int)
    requires
        ids_distinct(s),
        0 <= i < s.len(),
    ensures
        has_id(s, s[i].id),
        index_of_id(s, s[i].id) == i,
{
    assert(s[i].id == s[i].id);
    let k = index_of_id(s, s[i].id);
    assert(s[k].id == s[i].id);
}

proof fn lemma_frame_start<T>(s0: Seq<Child<T>>, queries: Seq<ComponentId>, fresh: Seq<T>)
    requires
        ids_distinct(s0),
    ensures
        frame_progress(s0, queries, fresh, 0, invalidated(s0)),
{
    let t = invalidated(s0);
    assert forall|a: int, b: int|
        0 <= a < t.len() && 0 <= b < t.len() && a != b implies #[trigger] t[a].id
        != #[trigger] t[b].id by {
        assert(t[a].id == s0[a].id);
        assert(t[b].id == s0[b].id);
    }
    assert forall|j: int| 0 <= j < t.len() implies {
        &&& !(#[trigger] t[j]).valid
        &&& has_id(s0, t[j].id)
        &&& t[j].node == s0[index_of_id(s0, t[j].id)].node
    } by {
        lemma_index_of_id(s0, j);
    }
    assert forall|x: ComponentId| has_id(s0, x) implies has_id(t, x) by {
        let i = choose|i: int| 0 <= i < s0.len() && #[trigger] s0[i].id == x;
        assert(t[i].id == x);
    }
}

proof fn lemma_frame_step<T>(
    s0: Seq<Child<T>>,
    queries: Seq<ComponentId>,
    fresh: Seq<T>,
    k: int,
    t: Seq<Child<T>>,
)
    requires
        ids_distinct(s0),
        queries.no_duplicates(),
        fresh.len() == queries.len(),
        0 <= k < queries.len(),
        frame_progress(s0, queries, fresh, k, t),
    ensures
        has_id(t, queries[k]) == has_id(s0, queries[k]),
        can_query(t, k as nat, queries[k]),
        frame_progress(s0, queries, fresh, k + 1, queried(t, k as nat, queries[k], fresh[k])),
{
    let x = queries[k];
    assert forall|j: int| 0 <= j < k implies #[trigger] t[j].id != x by {
        assert(t[j].id == queries[j]);
        assert(queries[j] != queries[k]);
    }
    if has_id(t, x) {
        let j = index_of_id(t, x);
        assert(t[j].id == x);
        assert(j >= k);
        assert(has_id(s0, x));
    }
    if has_id(s0, x) {
        assert(has_id(t, x));
    }
    let r = queried(t, k as nat, x, fresh[k]);
    if has_id(t, x) {
        let j = index_of_id(t, x);
        lemma_promoted_distinct(t, k, j);
        assert(r =~= promoted(t, k, j));
        assert forall|m: int| 0 <= m < k + 1 implies {
            &&& #[trigger] r[m].id == queries[m]
            &&& r[m].valid
            &&& has_id(s0, queries[m]) ==> r[m].node == s0[index_of_id(s0, queries[m])].node
            &&& !has_id(s0, queries[m]) ==> r[m].node == fresh[m]
        } by {
            if m < k {
                assert(r[m] == t[m]);
            } else {
                assert(r[m].id == t[j].id);
                assert(r[m].node == t[j].node);
            }
        }
        assert forall|m: int| k + 1 <= m < r.len() implies {
            &&& !(#[trigger] r[m]).valid
            &&& has_id(s0, r[m].id)
            &&& r[m].node == s0[index_of_id(s0, r[m].id)].node
        } by {
            if m == j {
                assert(r[m] == t[k]);
            } else {
                assert(r[m] == t[m]);
            }
        }
        assert forall|y: ComponentId| has_id(s0, y) implies has_id(r, y) by {
            assert(has_id(t, y));
            let p = choose|p: int| 0 <= p < t.len() && #[trigger] t[p].id == y;
            if p == k {
                assert(r[j].id == y);
            } else if p == j {
                assert(r[k].id == y);
            } else {
                assert(r[p].id == y);
            }
        }
    } else {
        let c = Child { id: x, valid: true, node: fresh[k] };
        let u = t.push(c);
        lemma_push_fresh_distinct(t, x, c);
        lemma_promoted_distinct(u, k, t.len() as int);
        assert(r =~= promoted(u, k, t.len() as int));
        assert forall|m: int| 0 <= m < k + 1 implies {
            &&& #[trigger] r[m].id == queries[m]
            &&& r[m].valid
            &&& has_id(s0, queries[m]) ==> r[m].node == s0[index_of_id(s0, queries[m])].node
            &&& !has_id(s0, queries[m]) ==> r[m].node == fresh[m]
        } by {
            if m < k {
                assert(r[m] == t[m]);
            } else {
                assert(r[m] == c);
            }
        }
        assert forall|m: int| k + 1 <= m < r.len() implies {
            &&& !(#[trigger] r[m]).valid
            &&& has_id(s0, r[m].id)
            &&& r[m].node == s0[index_of_id(s0, r[m].id)].node
        } by {
            if m == t.len() {
                assert(r[m] == t[k]);
            } else {
                assert(r[m] == t[m]);
            }
        }
        assert forall|y: ComponentId| has_id(s0, y) implies has_id(r, y) by {
            assert(has_id(t, y));
            let p = choose|p: int| 0 <= p < t.len() && #[trigger] t[p].id == y;
            if p == k {
                assert(r[t.len() as int].id == y);
            } else {
                assert(r[p].id == y);
            }
        }
    }
}

proof fn lemma_frame_progress<T>(
    s0: Seq<Child<T>>,
    queries: Seq<ComponentId>,
    fresh: Seq<T>,
    k: int,
)
    requires
        ids_distinct(s0),
        queries.no_duplicates(),
        fresh.len() == queries.len(),
        0 <= k <= queries.len(),
    ensures
        frame_progress(
            s0,
            queries,
            fresh,
            k,
            after_queries(invalidated(s0), queries.take(k), fresh.take(k)),
        ),
    decreases k,
{
    if k == 0 {
        assert(queries.take(0) =~= Seq::<ComponentId>::empty());
        lemma_frame_start(s0, queries, fresh);
    } else {
        lemma_frame_progress(s0, queries, fresh, k - 1);
        lemma_after_queries_step(invalidated(s0), queries, fresh, k - 1);
        lemma_frame_step(
            s0,
            queries,
            fresh,
            k - 1,
            after_queries(invalidated(s0), queries.take(k - 1), fresh.take(k - 1)),
        );
    }
}

/// Issuing the queries up to `k + 1` is issuing those up to `k`, then the
/// `k`-th one.
proof fn lemma_after_queries_step<T>(
    s: Seq<Child<T>>,
    queries: Seq<ComponentId>,
    fresh: Seq<T>,
    k: int,
)
    requires
        fresh.len() == queries.len(),
        0 <= k < queries.len(),
    ensures
        after_queries(s, queries.take(k + 1), fresh.take(k + 1)) == queried(
            after_queries(s, queries.take(k), fresh.take(k)),
            k as nat,
            queries[k],
            fresh[k],
        ),
{
    assert(queries.take(k + 1).drop_last() =~= queries.take(k));
    assert(fresh.take(k + 1).drop_last() =~= fresh.take(k));
}

/// Keeping the queried children of a sequence whose first `n` are queried
/// and the others not gives the first `n`.
proof fn lemma_kept_valid_prefix<T>(s: Seq<Child<T>>, n: int)
    requires
        0 <= n <= s.len(),
        forall|j: int| 0 <= j < n ==> (#[trigger] s[j]).valid,
        forall|j: int| n <= j < s.len() ==> !(#[trigger] s[j]).valid,
    ensures
        kept_valid(s) == s.take(n),
    decreases s.len(),
{
    if s.len() == 0 {
        assert(s.take(n) =~= s);
    } else {
        let d = s.drop_last();
        if s.len() == n {
            lemma_kept_valid_prefix(d, n - 1);
            assert(d.take(n - 1) =~= d);
            assert(s.take(n) =~= d.push(s.last()));
        } else {
            lemma_kept_valid_prefix(d, n);
            assert(d.take(n) =~= s.take(n));
        }
    }
}

/// The frame law of immediate-mode containers: after a frame in which the
/// children `queries` (distinct identifiers) were built in that order, the
/// container holds exactly those children, in build order. A child whose
/// identifier existed before the frame keeps its node, and so its state; a
/// new one holds the node made for it. Every query of the frame may proceed,
/// and it finds a child exactly when one existed before the frame.
pub proof fn lemma_frame_reconciles<T>(s: Seq<Child<T>>, queries: Seq<ComponentId>, fresh: Seq<T>)
    requires
        ids_distinct(s),
        queries.no_duplicates(),
        fresh.len() == queries.len(),
    ensures
        after_frame(s, queries, fresh).len() == queries.len(),
        forall|k: int|
            0 <= k < queries.len() ==> {
                &&& (#[trigger] after_frame(s, queries, fresh)[k]).id == queries[k]
                &&& after_frame(s, queries, fresh)[k].valid
                &&& has_id(s, queries[k]) ==> after_frame(s, queries, fresh)[k].node == s[index_of_id(
                    s,
                    queries[k],
                )].node
                &&& !has_id(s, queries[k]) ==> after_frame(s, queries, fresh)[k].node == fresh[k]
            },
        forall|k: int|
            0 <= k < queries.len() ==> {
                &&& can_query(
                    #[trigger] after_queries(invalidated(s), queries.take(k), fresh.take(k)),
                    k as nat,
                    queries[k],
                )
                &&& has_id(after_queries(invalidated(s), queries.take(k), fresh.take(k)), queries[k])
                    == has_id(s, queries[k])
            },
{
    let n = queries.len() as int;
    assert forall|k: int| 0 <= k < n implies {
        &&& can_query(
            #[trigger] after_queries(invalidated(s), queries.take(k), fresh.take(k)),
            k as nat,
            queries[k],
        )
        &&& has_id(after_queries(invalidated(s), queries.take(k), fresh.take(k)), queries[k])
            == has_id(s, queries[k])
    } by {
        lemma_frame_progress(s, queries, fresh, k);
        lemma_frame_step(
            s,
            queries,
            fresh,
            k,
            after_queries(invalidated(s), queries.take(k), fresh.take(k)),
        );
    }
    lemma_frame_progress(s, queries, fresh, n);
    assert(queries.take(n) =~= queries);
    assert(fresh.take(n) =~= fresh);
    let t = after_queries(invalidated(s), queries, fresh);
    lemma_kept_valid_prefix(t, n);
    assert(after_frame(s, queries, fresh) == t.take(n));
}

/// The occupant of a slot after a query of `id`: kept when it carries `id`,
/// otherwise replaced by a child carrying `id` with node `fresh`.
pub open spec fn slot_queried<T>(o: Option<(ComponentId, T)>, id: ComponentId, fresh: T) -> Option<
    (ComponentId, T),
> {
    match o {
        Some(p) => if p.0 == id {
            o
        } else {
            Some((id, fresh))
        },
        None => Some((id, fresh)),
    }
}

/// The slot holds a child carrying `id`.
pub open spec fn slot_holds<T>(o: Option<(ComponentId, T)>, id: ComponentId) -> bool {
    match o {
        Some(p) => p.0 == id,
        None => false,
    }
}

/// The single child of a container that holds at most one (a padding, a
/// maximizer). A query for another identifier replaces the child.
pub struct Slot<T> {
    content: Option<(ComponentId, T)>,
}

impl<T> Slot<T> {
    /// The child held, with its identifier.
    pub closed spec fn occupant(&self) -> Option<(ComponentId, T)> {
        self.content
    }

    /// An empty slot.
    pub fn new() -> (r: Self)
        ensures
            r.occupant() is None,
    {
        Slot { content: None }
    }

    /// The node held, if any.
    pub fn get(&self) -> (r: Option<&T>)
        ensures
            r is Some <==> self.occupant() is Some,
            r matches Some(n) ==> *n == self.occupant().unwrap().1,
    {
        match &self.content {
            Some(p) => Some(&p.1),
            None => None,
        }
    }

    /// The node held.
    pub fn node(&self) -> (r: &T)
        requires
            self.occupant() is Some,
        ensures
            *r == self.occupant().unwrap().1,
    {
        let p = self.content.as_ref().unwrap();
        &p.1
    }

    /// Queries the child carrying `id`: it is kept when the slot holds it,
    /// otherwise the slot now holds a new child with the node that `create`
    /// makes.
    pub fn query<F: FnOnce() -> T>(&mut self, id: ComponentId, create: F) -> (r: ChildQuery)
        requires
            create.requires(()),
        ensures
            final(self).occupant() is Some,
            final(self).occupant() == slot_queried(
                old(self).occupant(),
                id,
                final(self).occupant().unwrap().1,
            ),
            !slot_holds(old(self).occupant(), id) ==> create.ensures(
                (),
                final(self).occupant().unwrap().1,
            ),
            r == (if slot_holds(old(self).occupant(), id) {
                ChildQuery::Initialized(0)
            } else {
                ChildQuery::Uninitialized(0)
            }),
    {
        let holds = match &self.content {
            Some(p) => p.0 == id,
            None => false,
        };
        if holds {
            ChildQuery::Initialized(0)
        } else {
            let node = create();
            self.content = Some((id, node));
            ChildQuery::Uninitialized(0)
        }
    }
}

/// A slot queried twice in a row with the same identifier keeps the node of
/// the first query: rebuilding the same child keeps its state.
pub proof fn lemma_slot_requery_keeps<T>(
    o: Option<(ComponentId, T)>,
    id: ComponentId,
    first: T,
    second: T,
)
    ensures
        slot_holds(slot_queried(o, id, first), id),
        slot_queried(slot_queried(o, id, first), id, second) == slot_queried(o, id, first),
{
}

/// Querying a slot for an identifier other than the one it holds replaces
/// the child with a fresh one.
pub proof fn lemma_slot_other_id_replaces<T>(
    o: Option<(ComponentId, T)>,
    id: ComponentId,
    fresh: T,
)
    requires
        !slot_holds(o, id),
    ensures
        slot_queried(o, id, fresh) == Some((id, fresh)),
{
}

/// Looking up an identifier that a child already carries changes nothing,
/// and the position found is the one where that child stands; looking up an
/// identifier that no child carries appends one child carrying it and
/// leaves the others as they were.
pub proof fn lemma_lookup_keeps_existing<T>(s: Seq<Child<T>>, id: ComponentId, fresh: T)
    ensures
        has_id(s, id) ==> looked_up(s, id, fresh) == s && 0 <= index_of_id(s, id) < s.len()
            && s[index_of_id(s, id)].id == id,
        !has_id(s, id) ==> looked_up(s, id, fresh).len() == s.len() + 1 && looked_up(
            s,
            id,
            fresh,
        ).drop_last() == s && looked_up(s, id, fresh).last().id == id,
        forall|i: int|
            0 <= i < s.len() ==> #[trigger] looked_up(s, id, fresh)[i] == s[i],
{
    if has_id(s, id) {
        let k = index_of_id(s, id);
        assert(s[k].id == id);
    } else {
        assert(looked_up(s, id, fresh).drop_last() =~= s);
    }
}

/// Looking up an identifier twice appends at most one child: the second
/// lookup finds the child of the first and changes nothing.
pub proof fn lemma_lookup_idempotent<T>(s: Seq<Child<T>>, id: ComponentId, first: T, second: T)
    ensures
        has_id(looked_up(s, id, first), id),
        looked_up(looked_up(s, id, first), id, second) == looked_up(s, id, first),
{
    if !has_id(s, id) {
        let t = looked_up(s, id, first);
        assert(t[s.len() as int].id == id);
    }
}

/// The children after the frames `frames`, in order; `fresh[f]` gives the
/// nodes made for new children during frame `f`.
pub open spec fn after_frames<T>(
    s: Seq<Child<T>>,
    frames: Seq<Seq<ComponentId>>,
    fresh: Seq<Seq<T>>,
) -> Seq<Child<T>>
    decreases frames.len(),
{
    if frames.len() == 0 {
        s
    } else {
        after_frame(
            after_frames(s, frames.drop_last(), fresh.drop_last()),
            frames.last(),
            fresh.last(),
        )
    }
}

/// A child not built during a frame is dropped by it, and the children left
/// carry distinct identifiers.
pub proof fn lemma_frame_drops_unbuilt<T>(
    s: Seq<Child<T>>,
    queries: Seq<ComponentId>,
    fresh: Seq<T>,
    x: ComponentId,
)
    requires
        ids_distinct(s),
        queries.no_duplicates(),
        fresh.len() == queries.len(),
    ensures
        ids_distinct(after_frame(s, queries, fresh)),
        has_id(after_frame(s, queries, fresh), x) == queries.contains(x),
{
    lemma_frame_reconciles(s, queries, fresh);
    let r = after_frame(s, queries, fresh);
    assert forall|a: int, b: int|
        0 <= a < r.len() && 0 <= b < r.len() && a != b implies #[trigger] r[a].id
        != #[trigger] r[b].id by {
        assert(r[a].id == queries[a]);
        assert(r[b].id == queries[b]);
    }
    if has_id(r, x) {
        let i = choose|i: int| 0 <= i < r.len() && #[trigger] r[i].id == x;
        assert(queries[i] == x);
    }
    if queries.contains(x) {
        let i = choose|i: int| 0 <= i < queries.len() && queries[i] == x;
        assert(r[i].id == x);
    }
}

/// A widget rebuilt during every frame keeps the node, and so the state, it
/// had when the first of these frames began (or got during it, when it was
/// new then).
pub proof fn lemma_rebuilt_child_persists<T>(
    s: Seq<Child<T>>,
    frames: Seq<Seq<ComponentId>>,
    fresh: Seq<Seq<T>>,
    x: ComponentId,
)
    requires
        ids_distinct(s),
        frames.len() > 0,
        fresh.len() == frames.len(),
        forall|f: int|
            0 <= f < frames.len() ==> (#[trigger] frames[f]).no_duplicates() && fresh[f].len()
                == frames[f].len() && frames[f].contains(x),
    ensures
        ids_distinct(after_frames(s, frames, fresh)),
        has_id(after_frames(s, frames, fresh), x),
        after_frames(s, frames, fresh)[index_of_id(after_frames(s, frames, fresh), x)].node
            == after_frames(s, frames.take(1), fresh.take(1))[index_of_id(
            after_frames(s, frames.take(1), fresh.take(1)),
            x,
        )].node,
    decreases frames.len(),
{
    let n = frames.len() as int;
    let prev_frames = frames.drop_last();
    let prev_fresh = fresh.drop_last();
    if n == 1 {
        assert(frames.take(1) =~= frames);
        assert(fresh.take(1) =~= fresh);
        assert(prev_frames =~= Seq::<Seq<ComponentId>>::empty());
        assert(frames[0] == frames.last());
        lemma_frame_drops_unbuilt(s, frames.last(), fresh.last(), x);
        let r = after_frames(s, frames, fresh);
        assert(has_id(r, x));
    } else {
        assert forall|f: int| 0 <= f < prev_frames.len() implies (#[trigger] prev_frames[f]).no_duplicates()
            && prev_fresh[f].len() == prev_frames[f].len() && prev_frames[f].contains(x) by {
            assert(prev_frames[f] == frames[f]);
            assert(prev_fresh[f] == fresh[f]);
        }
        lemma_rebuilt_child_persists(s, prev_frames, prev_fresh, x);
        assert(prev_frames.take(1) =~= frames.take(1));
        assert(prev_fresh.take(1) =~= fresh.take(1));
        let p = after_frames(s, prev_frames, prev_fresh);
        let q = frames.last();
        assert(q == frames[n - 1]);
        assert(fresh.last() == fresh[n - 1]);
        lemma_frame_reconciles(p, q, fresh.last());
        lemma_frame_drops_unbuilt(p, q, fresh.last(), x);
        let r = after_frame(p, q, fresh.last());
        assert(r == after_frames(s, frames, fresh));
        let k = choose|k: int| 0 <= k < q.len() && q[k] == x;
        assert(r[k].id == x);
        lemma_index_of_id(r, k);
        assert(has_id(p, q[k]));
        assert(r[k].node == p[index_of_id(p, x)].node);
    }
}

} // verus!
