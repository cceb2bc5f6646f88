//! The container at the root of a widget structure.
use vstd::prelude::*;

verus! {

/// A widget held by the global container: its identifier and whether it is
/// valid (was built during the current frame).
#[derive(Copy, Clone, Debug, PartialEq, Eq, Structural)]
pub struct ContainedWidget {
    pub id: u128,
    pub valid: bool,
}

/// The widgets of a sequence that are valid, in their order.
pub open spec fn valid_widgets(s: Seq<ContainedWidget>) -> Seq<ContainedWidget>
    decreases s.len(),
{
    if s.len() == 0 {
        s
    } else {
        let rest = valid_widgets(s.drop_last());
        if s.last().valid {
            rest.push(s.last())
        } else {
            rest
        }
    }
}

/// Every widget of a sequence marked invalid.
pub open spec fn all_invalid(s: Seq<ContainedWidget>) -> Seq<ContainedWidget> {
    Seq::new(s.len(), |i: int| ContainedWidget { id: s[i].id, valid: false })
}

/// The container at the root of a widget structure. It is always valid,
/// cannot be marked, and drops its invalid widgets when its content is
/// validated.
pub struct GlobalContainer {
    map: Vec<ContainedWidget>,
}

impl GlobalContainer {
    /// The widgets held, in order.
    pub closed spec fn widgets(&self) -> Seq<ContainedWidget> {
        self.map@
    }

    /// An empty global container.
    pub fn new() -> (r: Self)
        ensures
            r.widgets() == Seq::<ContainedWidget>::empty(),
    {
        GlobalContainer { map: Vec::new() }
    }

    /// The number of widgets held.
    pub fn len(&self) -> (r: usize)
        ensures
            r == self.widgets().len(),
    {
        self.map.len()
    }

    /// The global container cannot be marked.
    pub fn mark_valid(&self) {
    }

    /// The global container cannot be marked.
    pub fn mark_invalid(&self) {
    }

    /// The global container is always valid.
    pub fn is_valid(&self) -> (r: bool)
        ensures
            r,
    {
        true
    }

    /// Drops the widgets that are not valid; the others keep their order.
    pub fn validate_content(&mut self)
        ensures
            final(self).widgets() == valid_widgets(old(self).widgets()),
    {
        let ghost start = self.map@;
        let mut i: usize = 0;
        let ghost mut j: int = 0;
        proof {
            assert(start.take(0) =~= Seq::<ContainedWidget>::empty());
            assert(start.skip(0) =~= start);
        }
        while i < self.map.len()
            invariant
                0 <= j <= start.len(),
                i == valid_widgets(start.take(j)).len(),
                self.map@ =~= valid_widgets(start.take(j)) + start.skip(j),
            decreases start.len() - j,
        {
            proof {
                assert(self.map@[i as int] == start[j]);
                assert(start.take(j + 1).drop_last() =~= start.take(j));
                assert(start.take(j + 1).last() == start[j]);
            }
            if self.map[i].valid {
                i += 1;
            } else {
                self.map.remove(i);
            }
            proof {
                j = j + 1;
            }
        }
        proof {
            assert(start.take(j) =~= start);
        }
    }

    /// Marks every widget held as invalid.
    pub fn invalidate_content(&mut self)
        ensures
            final(self).widgets() == all_invalid(old(self).widgets()),
    {
        let ghost start = self.map@;
        let n = self.map.len();
        let mut i: usize = 0;
        while i < n
            invariant
                n == start.len(),
                self.map@.len() == n,
                i <= n,
                forall|j: int| 0 <= j < i ==> self.map@[j] == all_invalid(start)[j],
                forall|j: int| i <= j < n ==> self.map@[j] == start[j],
            decreases n - i,
        {
            self.map.set(i, ContainedWidget { id: self.map[i].id, valid: false });
            i += 1;
        }
        assert(self.map@ =~= all_invalid(start));
    }

    /// Adding a widget is not implemented yet: the container is unchanged.
    pub fn add(&self, _widget: &ContainedWidget) {
    }
}

/// Invalidating the content of the global container and then validating it
/// leaves it empty.
pub proof fn lemma_invalidate_then_validate_empties(s: Seq<ContainedWidget>)
    ensures
        valid_widgets(all_invalid(s)) == Seq::<ContainedWidget>::empty(),
    decreases s.len(),
{
    if s.len() > 0 {
        lemma_invalidate_then_validate_empties(s.drop_last());
        assert(all_invalid(s).drop_last() =~= all_invalid(s.drop_last()));
    }
}

} // verus!
