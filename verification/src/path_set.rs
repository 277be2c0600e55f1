//! A set of paths, kept in the order in which the paths came.

use vstd::prelude::*;
use crate::text::{copy_text, position_of, texts};

verus! {

/// The elements of `of` that are not in `than`, in their order.
pub open spec fn outside_of(of: Seq<Seq<char>>, than: Set<Seq<char>>) -> Seq<Seq<char>>
    decreases of.len(),
{
    if of.len() == 0 {
        Seq::empty()
    } else if than.contains(of.last()) {
        outside_of(of.drop_last(), than)
    } else {
        outside_of(of.drop_last(), than).push(of.last())
    }
}

/// The elements of `of`, each where it stands first.
pub open spec fn first_occurrences(of: Seq<Seq<char>>) -> Seq<Seq<char>>
    decreases of.len(),
{
    if of.len() == 0 {
        Seq::empty()
    } else if of.drop_last().contains(of.last()) {
        first_occurrences(of.drop_last())
    } else {
        first_occurrences(of.drop_last()).push(of.last())
    }
}

/// An element stands in what is kept of a list exactly when it stands in
/// the list and outside of `than`.
pub proof fn lemma_outside_of_holds(of: Seq<Seq<char>>, than: Set<Seq<char>>, x: Seq<char>)
    ensures
        outside_of(of, than).contains(x) <==> of.contains(x) && !than.contains(x),
    decreases of.len(),
{
    let kept = outside_of(of, than);
    if of.len() > 0 {
        let front = of.drop_last();
        let last = of.last();
        lemma_outside_of_holds(front, than, x);
        let kept_front = outside_of(front, than);
        if kept.contains(x) {
            let at = choose|at: int| 0 <= at < kept.len() && kept[at] == x;
            if at < kept_front.len() {
                assert(kept_front[at] == x);
                assert(kept_front.contains(x));
                assert(front.contains(x));
                let k = choose|k: int| 0 <= k < front.len() && front[k] == x;
                assert(of[k] == x);
            } else {
                assert(of[of.len() - 1] == x);
            }
        }
        if of.contains(x) && !than.contains(x) {
            let k = choose|k: int| 0 <= k < of.len() && of[k] == x;
            if k < front.len() {
                assert(front[k] == x);
                assert(front.contains(x));
                assert(kept_front.contains(x));
                let at = choose|at: int| 0 <= at < kept_front.len() && kept_front[at] == x;
                assert(kept[at] == x);
            } else {
                assert(kept[kept.len() - 1] == x);
            }
        }
    }
}

/// What is kept of a list is, as a set, the list's set without `than`; a
/// list without duplicates stays without.
pub proof fn lemma_outside_of(of: Seq<Seq<char>>, than: Set<Seq<char>>)
    ensures
        outside_of(of, than).to_set() == of.to_set().difference(than),
        of.no_duplicates() ==> outside_of(of, than).no_duplicates(),
        outside_of(of, than).len() <= of.len(),
    decreases of.len(),
{
    let kept = outside_of(of, than);
    if of.len() > 0 {
        let front = of.drop_last();
        let last = of.last();
        lemma_outside_of(front, than);
        let kept_front = outside_of(front, than);
        if of.no_duplicates() {
            assert(front.no_duplicates());
            if !than.contains(last) {
                assert(!kept_front.contains(last)) by {
                    lemma_outside_of_holds(front, than, last);
                    if front.contains(last) {
                        let k = choose|k: int| 0 <= k < front.len() && front[k] == last;
                        assert(of[k] == of[of.len() - 1]);
                    }
                }
                assert forall|i: int, j: int|
                    0 <= i < kept.len() && 0 <= j < kept.len() && i != j implies kept[i]
                    != kept[j] by {
                    if i < kept_front.len() && j < kept_front.len() {
                        assert(kept_front[i] != kept_front[j]);
                    } else if i < kept_front.len() {
                        assert(kept_front.contains(kept_front[i]));
                    } else {
                        assert(kept_front.contains(kept_front[j]));
                    }
                }
            }
        }
    }
    assert forall|x: Seq<char>| kept.to_set().contains(x) <==> of.to_set().difference(
        than,
    ).contains(x) by {
        lemma_outside_of_holds(of, than, x);
    }
    assert(kept.to_set() =~= of.to_set().difference(than));
}

/// An element stands among the first occurrences of a list exactly when it
/// stands in the list.
pub proof fn lemma_first_occurrences_hold(of: Seq<Seq<char>>, x: Seq<char>)
    ensures
        first_occurrences(of).contains(x) <==> of.contains(x),
    decreases of.len(),
{
    let firsts = first_occurrences(of);
    if of.len() > 0 {
        let front = of.drop_last();
        let last = of.last();
        lemma_first_occurrences_hold(front, x);
        let firsts_front = first_occurrences(front);
        if firsts.contains(x) {
            let at = choose|at: int| 0 <= at < firsts.len() && firsts[at] == x;
            if at < firsts_front.len() {
                assert(firsts_front[at] == x);
                assert(firsts_front.contains(x));
                assert(front.contains(x));
                let k = choose|k: int| 0 <= k < front.len() && front[k] == x;
                assert(of[k] == x);
            } else {
                assert(of[of.len() - 1] == x);
            }
        }
        if of.contains(x) {
            let k = choose|k: int| 0 <= k < of.len() && of[k] == x;
            if k < front.len() {
                assert(front[k] == x);
                assert(front.contains(x));
            }
            if front.contains(x) {
                assert(firsts_front.contains(x));
                let at = choose|at: int| 0 <= at < firsts_front.len() && firsts_front[at] == x;
                assert(firsts[at] == x);
            } else {
                assert(x == last);
                assert(firsts[firsts.len() - 1] == x);
            }
        }
    }
}

/// The first occurrences of a list hold what the list holds, each once; a
/// list without duplicates is its own first occurrences.
pub proof fn lemma_first_occurrences(of: Seq<Seq<char>>)
    ensures
        first_occurrences(of).to_set() == of.to_set(),
        first_occurrences(of).no_duplicates(),
        of.no_duplicates() ==> first_occurrences(of) == of,
    decreases of.len(),
{
    let firsts = first_occurrences(of);
    if of.len() > 0 {
        let front = of.drop_last();
        let last = of.last();
        lemma_first_occurrences(front);
        let firsts_front = first_occurrences(front);
        if !front.contains(last) {
            lemma_first_occurrences_hold(front, last);
            assert(!firsts_front.contains(last));
            assert forall|i: int, j: int|
                0 <= i < firsts.len() && 0 <= j < firsts.len() && i != j implies firsts[i]
                != firsts[j] by {
                if i < firsts_front.len() && j < firsts_front.len() {
                    assert(firsts_front[i] != firsts_front[j]);
                } else if i < firsts_front.len() {
                    assert(firsts_front.contains(firsts_front[i]));
                } else {
                    assert(firsts_front.contains(firsts_front[j]));
                }
            }
        }
        if of.no_duplicates() {
            assert(front.no_duplicates());
            assert(!front.contains(last)) by {
                if front.contains(last) {
                    let k = choose|k: int| 0 <= k < front.len() && front[k] == last;
                    assert(of[k] == of[of.len() - 1]);
                }
            }
            assert(front.push(last) =~= of);
        }
    } else {
        assert(firsts =~= of);
    }
    assert forall|x: Seq<char>| firsts.to_set().contains(x) <==> of.to_set().contains(x) by {
        lemma_first_occurrences_hold(of, x);
    }
    assert(firsts.to_set() =~= of.to_set());
}

/// A set of paths. No path stands twice in it, and the paths keep the order
/// in which they were put in.
#[derive(Debug)]
pub struct PathSet {
    items: Vec<String>,
}

impl View for PathSet {
    type V = Set<Seq<char>>;

    open spec fn view(&self) -> Set<Seq<char>> {
        self.list().to_set()
    }
}

impl PathSet {
    #[verifier::type_invariant]
    spec fn distinct(self) -> bool {
        texts(self.items@).no_duplicates()
    }

    /// The paths of the set, in the order in which they were put in.
    pub closed spec fn list(&self) -> Seq<Seq<char>> {
        texts(self.items@)
    }

    /// Takes the paths out of the set, which is left empty.
    fn take_items(&mut self) -> (items: Vec<String>)
        ensures
            texts(items@) == old(self).list(),
            texts(items@).no_duplicates(),
            final(self).list() == Seq::<Seq<char>>::empty(),
    {
        proof {
            use_type_invariant(&*self);
        }
        let mut taken = PathSet::new();
        core::mem::swap(self, &mut taken);
        taken.items
    }

    /// The empty set.
    pub fn new() -> (set: Self)
        ensures
            set.list() == Seq::<Seq<char>>::empty(),
            set@ == Set::<Seq<char>>::empty(),
    {
        let items: Vec<String> = Vec::new();
        assert(texts(items@) =~= Seq::<Seq<char>>::empty());
        assert(texts(items@).to_set() =~= Set::<Seq<char>>::empty());
        PathSet { items }
    }

    /// The number of paths in the set.
    pub fn len(&self) -> (n: usize)
        ensures
            n == self.list().len(),
            self.list().no_duplicates(),
    {
        proof {
            use_type_invariant(self);
        }
        self.items.len()
    }

    /// Whether the set holds no path.
    pub fn is_empty(&self) -> (empty: bool)
        ensures
            empty == (self.list().len() == 0),
            empty == (self@ == Set::<Seq<char>>::empty()),
    {
        proof {
            if self.items.len() > 0 {
                assert(self.list().contains(self.list()[0]));
                assert(self@.contains(self.list()[0]));
            } else {
                assert(self@ =~= Set::<Seq<char>>::empty());
            }
        }
        self.items.len() == 0
    }

    /// Whether the set holds `path`.
    pub fn contains(&self, path: &str) -> (found: bool)
        ensures
            found == self@.contains(path@),
    {
        position_of(&self.items, path).is_some()
    }

    /// The path at position `at` of the list, if the list is that long.
    pub fn get(&self, at: usize) -> (path: Option<&str>)
        ensures
            at < self.list().len() ==> (path matches Some(text) && text@ == self.list()[at as int]),
            at >= self.list().len() ==> path is None,
    {
        if at < self.items.len() {
            Some(self.items[at].as_str())
        } else {
            None
        }
    }

    /// Puts `path` into the set. Returns whether it was new to the set; a
    /// path that the set holds already changes nothing.
    pub fn insert(&mut self, path: String) -> (inserted: bool)
        ensures
            inserted == !old(self)@.contains(path@),
            final(self)@ == old(self)@.insert(path@),
            final(self).list() == if inserted {
                old(self).list().push(path@)
            } else {
                old(self).list()
            },
    {
        proof {
            use_type_invariant(&*self);
        }
        if position_of(&self.items, path.as_str()).is_some() {
            assert(self@ =~= self@.insert(path@));
            false
        } else {
            let ghost before = texts(self.items@);
            let mut items = self.take_items();
            items.push(path);
            proof {
                assert(texts(items@) =~= before.push(path@));
                assert(before.push(path@).to_set() =~= before.to_set().insert(path@)) by {
                    assert forall|x: Seq<char>| before.push(path@).contains(x) <==> (
                    before.contains(x) || x == path@) by {
                        if before.push(path@).contains(x) {
                            let k = choose|k: int|
                                0 <= k < before.push(path@).len() && before.push(path@)[k] == x;
                            if k < before.len() {
                                assert(before[k] == x);
                            }
                        }
                        if before.contains(x) {
                            let k = choose|k: int| 0 <= k < before.len() && before[k] == x;
                            assert(before.push(path@)[k] == x);
                        }
                        if x == path@ {
                            assert(before.push(path@)[before.len() as int] == x);
                        }
                    }
                }
            }
            *self = PathSet { items };
            true
        }
    }

    /// Takes `path` out of the set. Returns whether the set held it; the
    /// other paths keep their order.
    pub fn remove(&mut self, path: &str) -> (removed: bool)
        ensures
            removed == old(self)@.contains(path@),
            final(self)@ == old(self)@.remove(path@),
            final(self).list() == outside_of(old(self).list(), set![path@]),
    {
        proof {
            use_type_invariant(&*self);
        }
        let ghost before = texts(self.items@);
        proof {
            lemma_outside_of(before, set![path@]);
            lemma_outside_without_one(before, path@);
        }
        match position_of(&self.items, path) {
            Some(at) => {
                let mut items = self.take_items();
                items.remove(at);
                proof {
                    assert(texts(items@) =~= before.remove(at as int));
                    assert(before.remove(at as int).to_set() =~= before.to_set().remove(path@));
                }
                *self = PathSet { items };
                true
            },
            None => {
                assert(self@ =~= self@.remove(path@));
                false
            },
        }
    }

    /// The set of the paths of `paths`, each at the place where it stands
    /// first.
    pub fn from_vec(paths: Vec<String>) -> (set: Self)
        ensures
            set.list() == first_occurrences(texts(paths@)),
            set@ == texts(paths@).to_set(),
    {
        let mut set = PathSet::new();
        let mut i: usize = 0;
        while i < paths.len()
            invariant
                i <= paths.len(),
                set.list() == first_occurrences(texts(paths@).take(i as int)),
            decreases paths.len() - i,
        {
            let ghost before = texts(paths@).take(i as int);
            let ghost next = texts(paths@).take(i + 1);
            proof {
                assert(next.drop_last() =~= before);
                assert(next.last() == paths@[i as int]@);
                lemma_first_occurrences(before);
            }
            let path = copy_text(paths[i].as_str());
            set.insert(path);
            i += 1;
        }
        proof {
            assert(texts(paths@).take(paths.len() as int) =~= texts(paths@));
            lemma_first_occurrences(texts(paths@));
        }
        set
    }

    /// The paths of the set, in their order.
    pub fn to_vec(&self) -> (paths: Vec<String>)
        ensures
            texts(paths@) == self.list(),
            texts(paths@).no_duplicates(),
    {
        proof {
            use_type_invariant(self);
        }
        let mut paths: Vec<String> = Vec::new();
        let mut i: usize = 0;
        while i < self.items.len()
            invariant
                i <= self.items.len(),
                texts(paths@) == texts(self.items@).take(i as int),
            decreases self.items.len() - i,
        {
            let ghost before = texts(paths@);
            let path = copy_text(self.items[i].as_str());
            paths.push(path);
            proof {
                assert(texts(paths@) =~= before.push(path@));
                assert(texts(self.items@)[i as int] == path@);
                assert(texts(paths@) =~= texts(self.items@).take(i + 1));
            }
            i += 1;
        }
        proof {
            assert(texts(self.items@).take(self.items.len() as int) =~= texts(self.items@));
        }
        paths
    }

    /// A copy of the set.
    pub fn copy(&self) -> (set: Self)
        ensures
            set.list() == self.list(),
            set@ == self@,
    {
        let items = self.to_vec();
        PathSet { items }
    }

    /// The paths of this set that `other` does not hold, in their order.
    pub fn difference(&self, other: &PathSet) -> (rest: Self)
        ensures
            rest.list() == outside_of(self.list(), other@),
            rest@ == self@.difference(other@),
    {
        proof {
            use_type_invariant(self);
        }
        let mut items: Vec<String> = Vec::new();
        let mut i: usize = 0;
        while i < self.items.len()
            invariant
                i <= self.items.len(),
                texts(items@) == outside_of(texts(self.items@).take(i as int), other@),
            decreases self.items.len() - i,
        {
            let ghost before = texts(self.items@).take(i as int);
            let ghost next = texts(self.items@).take(i + 1);
            proof {
                assert(next.drop_last() =~= before);
                assert(next.last() == self.items@[i as int]@);
            }
            if !other.contains(self.items[i].as_str()) {
                let ghost kept = texts(items@);
                let path = copy_text(self.items[i].as_str());
                items.push(path);
                proof {
                    assert(texts(items@) =~= kept.push(next.last()));
                }
            }
            i += 1;
        }
        proof {
            assert(texts(self.items@).take(self.items.len() as int) =~= texts(self.items@));
            lemma_outside_of(texts(self.items@), other@);
        }
        PathSet { items }
    }

    /// Whether this set and `other` hold the same paths, in whatever order.
    pub fn same_set(&self, other: &PathSet) -> (same: bool)
        ensures
            same == (self@ == other@),
    {
        let only_here = self.difference(other);
        let only_there = other.difference(self);
        let here_empty = only_here.is_empty();
        let there_empty = only_there.is_empty();
        proof {
            if here_empty && there_empty {
                assert(self@ =~= other@) by {
                    assert forall|x: Seq<char>| self@.contains(x) <==> other@.contains(x) by {
                        if self@.contains(x) && !other@.contains(x) {
                            assert(self@.difference(other@).contains(x));
                        }
                        if other@.contains(x) && !self@.contains(x) {
                            assert(other@.difference(self@).contains(x));
                        }
                    }
                }
            } else if self@ == other@ {
                assert(self@.difference(other@) =~= Set::<Seq<char>>::empty());
                assert(other@.difference(self@) =~= Set::<Seq<char>>::empty());
            }
        }
        here_empty && there_empty
    }
}

impl Clone for PathSet {
    fn clone(&self) -> (set: Self)
        ensures
            set.list() == self.list(),
            set@ == self@,
    {
        self.copy()
    }
}

impl PartialEq for PathSet {
    /// Two sets are equal when they hold the same paths, in whatever order.
    fn eq(&self, other: &Self) -> (same: bool) {
        self.same_set(other)
    }
}

impl vstd::std_specs::cmp::PartialEqSpecImpl for PathSet {
    open spec fn obeys_eq_spec() -> bool {
        true
    }

    open spec fn eq_spec(&self, other: &Self) -> bool {
        self@ == other@
    }
}

impl Eq for PathSet {

}

/// In a list without duplicates, what stands outside of one element is the
/// list without the place of that element.
pub proof fn lemma_outside_without_one(of: Seq<Seq<char>>, x: Seq<char>)
    requires
        of.no_duplicates(),
    ensures
        !of.contains(x) ==> outside_of(of, set![x]) == of,
        forall|at: int|
            0 <= at < of.len() && of[at] == x ==> outside_of(of, set![x]) == #[trigger] of.remove(
                at,
            ),
    decreases of.len(),
{
    if of.len() > 0 {
        let front = of.drop_last();
        let last = of.last();
        assert(front.no_duplicates());
        lemma_outside_without_one(front, x);
        if last == x {
            assert(!front.contains(x)) by {
                if front.contains(x) {
                    let k = choose|k: int| 0 <= k < front.len() && front[k] == x;
                    assert(of[k] == of[of.len() - 1]);
                }
            }
            assert(of.contains(x)) by {
                assert(of[of.len() - 1] == x);
            }
            assert(set![x].contains(last));
            assert forall|at: int| 0 <= at < of.len() && of[at] == x implies outside_of(
                of,
                set![x],
            ) == #[trigger] of.remove(at) by {
                assert(at == of.len() - 1);
                assert(of.remove(at) =~= front);
            }
        } else {
            assert(!set![x].contains(last));
            if !of.contains(x) {
                assert(!front.contains(x)) by {
                    if front.contains(x) {
                        let k = choose|k: int| 0 <= k < front.len() && front[k] == x;
                        assert(of[k] == x);
                    }
                }
                assert(front.push(last) =~= of);
            }
            assert forall|at: int| 0 <= at < of.len() && of[at] == x implies outside_of(
                of,
                set![x],
            ) == #[trigger] of.remove(at) by {
                assert(front[at] == x);
                assert(front.remove(at).push(last) =~= of.remove(at));
            }
        }
    } else {
        assert(outside_of(of, set![x]) =~= of);
    }
}

} // verus!
