//! Sets of strings and a map from strings to such sets, compared by content.
use vstd::prelude::*;
use crate::json::copy_string;
use crate::text::{str_eq, views};

verus! {

/// A set of strings, kept in the order in which they were added.
pub struct StringSet {
    items: Vec<String>,
}

impl View for StringSet {
    type V = Set<Seq<char>>;

    closed spec fn view(&self) -> Set<Seq<char>> {
        Set::new(|s: Seq<char>| has(self.items@, s))
    }
}

/// Some item of `items` has the content `t`.
pub open spec fn has(items: Seq<String>, t: Seq<char>) -> bool {
    exists|i: int| 0 <= i < items.len() && #[trigger] items[i]@ == t
}

proof fn lemma_has_push(items: Seq<String>, x: String, t: Seq<char>)
    ensures
        has(items.push(x), t) <==> (has(items, t) || x@ == t),
{
    if has(items.push(x), t) {
        let i = choose|i: int| 0 <= i < items.push(x).len() && #[trigger] items.push(x)[i]@ == t;
        if i < items.len() {
            assert(items[i]@ == t);
        }
    }
    if has(items, t) {
        let i = choose|i: int| 0 <= i < items.len() && #[trigger] items[i]@ == t;
        assert(items.push(x)[i]@ == t);
    }
    if x@ == t {
        assert(items.push(x)[items.len() as int]@ == t);
    }
}

impl StringSet {
    /// The items, in the order in which they were added.
    pub closed spec fn elems(&self) -> Seq<Seq<char>> {
        views(self.items@)
    }

    /// The items, in order, are exactly the members of the set.
    pub proof fn lemma_elems(&self)
        ensures
            self.elems().to_set() == self@,
    {
        assert(self.elems().to_set() =~= self@) by {
            assert forall|s: Seq<char>| self@.contains(s) implies self.elems().to_set().contains(s) by {
                let i = choose|i: int| 0 <= i < self.items@.len() && #[trigger] self.items@[i]@ == s;
                assert(self.elems()[i] == s);
            }
        }
    }

    pub fn new() -> (r: StringSet)
        ensures
            r@ == Set::<Seq<char>>::empty(),
            r.elems() == Seq::<Seq<char>>::empty(),
    {
        let r = StringSet { items: Vec::new() };
        assert(r@ =~= Set::<Seq<char>>::empty());
        assert(r.elems() =~= Seq::<Seq<char>>::empty());
        r
    }

    pub fn contains(&self, s: &str) -> (r: bool)
        ensures
            r == self@.contains(s@),
    {
        let mut i: usize = 0;
        while i < self.items.len()
            invariant
                i <= self.items@.len(),
                forall|j: int| 0 <= j < i ==> #[trigger] self.items@[j]@ != s@,
            decreases self.items.len() - i,
        {
            if str_eq(self.items[i].as_str(), s) {
                assert(self.items@[i as int]@ == s@);
                return true;
            }
            i += 1;
        }
        false
    }

    /// Adds `s`; does nothing when an equal string is present.
    pub fn insert(&mut self, s: &str)
        ensures
            final(self)@ == old(self)@.insert(s@),
            final(self).elems() == (if old(self)@.contains(s@) { old(self).elems() } else { old(self).elems().push(s@) }),
    {
        if !self.contains(s) {
            let ghost before = self.items@;
            let mut items = Vec::new();
            std::mem::swap(&mut items, &mut self.items);
            items.push(String::from_str(s));
            self.items = items;
            assert(self@ =~= old(self)@.insert(s@)) by {
                assert forall|t: Seq<char>| self@.contains(t) implies old(self)@.insert(s@).contains(t) by {
                    let i = choose|i: int| 0 <= i < self.items@.len() && #[trigger] self.items@[i]@ == t;
                    if i < before.len() {
                        assert(before[i]@ == t);
                    }
                }
                assert forall|t: Seq<char>| old(self)@.insert(s@).contains(t) implies self@.contains(t) by {
                    if t != s@ {
                        let i = choose|i: int| 0 <= i < before.len() && #[trigger] before[i]@ == t;
                        assert(self.items@[i]@ == t);
                    } else {
                        assert(self.items@[before.len() as int]@ == t);
                    }
                }
            }
            assert(self.elems() =~= old(self).elems().push(s@));
        }
    }

    /// Removes `s` if present.
    pub fn remove(&mut self, s: &str)
        ensures
            final(self)@ == old(self)@.remove(s@),
    {
        let ghost before = self.items@;
        let mut items = Vec::new();
        std::mem::swap(&mut items, &mut self.items);
        let mut kept: Vec<String> = Vec::new();
        let mut i: usize = 0;
        while i < items.len()
            invariant
                i <= items@.len(),
                items@ == before,
                forall|t: Seq<char>| #[trigger] has(kept@, t) <==> (t != s@ && has(before.take(i as int), t)),
            decreases items.len() - i,
        {
            let ghost k0 = kept@;
            assert(before.take(i + 1) =~= before.take(i as int).push(before[i as int]));
            if !str_eq(items[i].as_str(), s) {
                let c = copy_string(&items[i]);
                kept.push(c);
                assert(kept@ =~= k0.push(c));
            }
            proof {
                assert forall|t: Seq<char>| #[trigger] has(kept@, t) <==> (t != s@ && has(before.take(i + 1), t)) by {
                    lemma_has_push(before.take(i as int), before[i as int], t);
                    if kept@.len() > k0.len() {
                        lemma_has_push(k0, kept@.last(), t);
                    }
                }
            }
            i += 1;
        }
        assert(before.take(before.len() as int) =~= before);
        self.items = kept;
        assert(self@ =~= old(self)@.remove(s@));
    }

    /// Removes every item.
    pub fn clear(&mut self)
        ensures
            final(self)@ == Set::<Seq<char>>::empty(),
            final(self).elems() == Seq::<Seq<char>>::empty(),
    {
        self.items = Vec::new();
        assert(self@ =~= Set::<Seq<char>>::empty());
        assert(self.elems() =~= Seq::<Seq<char>>::empty());
    }

    /// Copies of the items, in order.
    pub fn to_vec(&self) -> (r: Vec<String>)
        ensures
            views(r@) == self.elems(),
    {
        let mut out: Vec<String> = Vec::new();
        let mut i: usize = 0;
        while i < self.items.len()
            invariant
                i <= self.items@.len(),
                views(out@) == self.elems().take(i as int),
            decreases self.items.len() - i,
        {
            let c = copy_string(&self.items[i]);
            let ghost o = out@;
            out.push(c);
            assert(views(out@) =~= views(o).push(c@));
            assert(self.elems().take(i + 1) =~= self.elems().take(i as int).push(self.elems()[i as int]));
            assert(views(out@) =~= self.elems().take(i + 1));
            i += 1;
        }
        assert(self.elems().take(self.items.len() as int) =~= self.elems());
        out
    }
}

} // verus!

verus! {

impl StringSet {
    /// The set of the given strings (`iter().cloned().collect()`).
    pub fn from_strings(v: &Vec<String>) -> (r: StringSet)
        ensures
            r@ == views(v@).to_set(),
    {
        let mut r = StringSet::new();
        let mut i: usize = 0;
        while i < v.len()
            invariant
                i <= v@.len(),
                r@ == views(v@.take(i as int)).to_set(),
            decreases v.len() - i,
        {
            r.insert(v[i].as_str());
            assert(views(v@.take(i + 1)) =~= views(v@.take(i as int)).push(v@[i as int]@));
            proof {
                views(v@.take(i as int)).lemma_push_to_set_commute(v@[i as int]@);
            }
            i += 1;
        }
        assert(v@.take(v@.len() as int) =~= v@);
        r
    }
}

} // verus!
