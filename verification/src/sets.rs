//! Collections of indicators in which nothing occurs twice.

use vstd::prelude::*;
use vstd::hash_set::StringHashSet;
use crate::text::string_views;

verus! {

/// The elements of `s` in order of first occurrence, each once.
pub open spec fn dedup(s: Seq<Seq<char>>) -> Seq<Seq<char>>
    decreases s.len(),
{
    if s.len() == 0 {
        seq![]
    } else {
        let d = dedup(s.drop_last());
        if d.contains(s.last()) {
            d
        } else {
            d.push(s.last())
        }
    }
}

/// Pushing `y` adds exactly `y` to the elements.
pub proof fn lemma_push_contains(s: Seq<Seq<char>>, y: Seq<char>)
    ensures
        forall|x: Seq<char>| #[trigger] s.push(y).contains(x) <==> (s.contains(x) || x == y),
{
    assert forall|x: Seq<char>| #[trigger] s.push(y).contains(x) <==> (s.contains(x) || x == y) by {
        let t = s.push(y);
        if t.contains(x) {
            let i = choose|i: int| 0 <= i < t.len() && t[i] == x;
            if i < s.len() {
                assert(s[i] == x);
            }
        }
        if s.contains(x) {
            let i = choose|i: int| 0 <= i < s.len() && s[i] == x;
            assert(t[i] == x);
        }
        if x == y {
            assert(t[s.len() as int] == x);
        }
    }
}

/// Pushing an absent element keeps a sequence free of duplicates.
pub proof fn lemma_push_distinct(s: Seq<Seq<char>>, y: Seq<char>)
    requires
        s.no_duplicates(),
        !s.contains(y),
    ensures
        s.push(y).no_duplicates(),
{
    let t = s.push(y);
    assert forall|i: int, j: int| 0 <= i < t.len() && 0 <= j < t.len() && i != j implies t[i]
        != t[j] by {
        if i < s.len() && j < s.len() {
            assert(t[i] == s[i]);
            assert(t[j] == s[j]);
        } else if i < s.len() {
            assert(t[i] == s[i]);
            assert(s.contains(s[i]));
        } else if j < s.len() {
            assert(t[j] == s[j]);
            assert(s.contains(s[j]));
        }
    }
}

/// `dedup` keeps exactly the elements of its argument, each once.
pub proof fn lemma_dedup(s: Seq<Seq<char>>)
    ensures
        dedup(s).no_duplicates(),
        forall|x: Seq<char>| #[trigger] dedup(s).contains(x) <==> s.contains(x),
        dedup(s).len() <= s.len(),
    decreases s.len(),
{
    if s.len() > 0 {
        let p = s.drop_last();
        let y = s.last();
        lemma_dedup(p);
        assert(s =~= p.push(y));
        lemma_push_contains(p, y);
        let d = dedup(p);
        lemma_push_contains(d, y);
        if !d.contains(y) {
            lemma_push_distinct(d, y);
        }
        assert forall|x: Seq<char>| #[trigger] dedup(s).contains(x) <==> s.contains(x) by {
            assert(p.push(y).contains(x) <==> (p.contains(x) || x == y));
            assert(d.push(y).contains(x) <==> (d.contains(x) || x == y));
        }
    }
}

/// A sequence without repeats is its own `dedup`.
pub proof fn lemma_dedup_of_distinct(s: Seq<Seq<char>>)
    requires
        s.no_duplicates(),
    ensures
        dedup(s) == s,
    decreases s.len(),
{
    if s.len() > 0 {
        let p = s.drop_last();
        let y = s.last();
        assert(p.no_duplicates()) by {
            assert forall|i: int, j: int| 0 <= i < p.len() && 0 <= j < p.len() && i != j implies p[i]
                != p[j] by {
                assert(p[i] == s[i]);
                assert(p[j] == s[j]);
            }
        }
        lemma_dedup_of_distinct(p);
        assert(!p.contains(y)) by {
            if p.contains(y) {
                let i = choose|i: int| 0 <= i < p.len() && p[i] == y;
                assert(s[i] == s[s.len() - 1]);
            }
        }
        assert(s =~= p.push(y));
    }
}

/// An insertion-ordered collection of distinct strings, with constant-time membership.
pub struct IndicatorSet {
    items: Vec<String>,
    index: StringHashSet,
}

impl View for IndicatorSet {
    type V = Seq<Seq<char>>;

    closed spec fn view(&self) -> Seq<Seq<char>> {
        string_views(self.items@)
    }
}

impl IndicatorSet {
    /// The membership index agrees with the list, and the list holds nothing twice.
    pub closed spec fn wf(&self) -> bool {
        &&& self@.no_duplicates()
        &&& self.index@ == self@.to_set()
    }

    /// A well-formed collection holds nothing twice.
    pub proof fn lemma_distinct(&self)
        requires
            self.wf(),
        ensures
            self@.no_duplicates(),
    {
    }

    /// The empty collection.
    pub fn new() -> (r: IndicatorSet)
        ensures
            r.wf(),
            r@ == Seq::<Seq<char>>::empty(),
    {
        let r = IndicatorSet { items: Vec::new(), index: StringHashSet::new() };
        assert(r@ =~= Seq::<Seq<char>>::empty());
        assert(r.index@ =~= r@.to_set());
        r
    }

    /// Adds `s` unless it is already present; tells whether it was added.
    pub fn insert(&mut self, s: String) -> (added: bool)
        requires
            old(self).wf(),
        ensures
            final(self).wf(),
            added == !old(self)@.contains(s@),
            final(self)@ == if added {
                old(self)@.push(s@)
            } else {
                old(self)@
            },
    {
        if self.index.contains(s.as_str()) {
            return false;
        }
        let ghost before = self@;
        let key = s.clone();
        self.index.insert(key);
        self.items.push(s);
        assert(self@ =~= before.push(s@));
        proof {
            lemma_push_contains(before, s@);
            lemma_push_distinct(before, s@);
            assert forall|x: Seq<char>| self.index@.contains(x) == self@.to_set().contains(x) by {
                assert(before.push(s@).contains(x) <==> (before.contains(x) || x == s@));
            }
            assert(self.index@ =~= self@.to_set());
        }
        true
    }

    /// Whether `s` is present.
    pub fn contains(&self, s: &str) -> (r: bool)
        requires
            self.wf(),
        ensures
            r == self@.contains(s@),
    {
        self.index.contains(s)
    }

    /// The number of elements.
    pub fn len(&self) -> (r: usize)
        ensures
            r == self@.len(),
    {
        self.items.len()
    }

    /// The elements, in insertion order.
    pub fn items(&self) -> (r: &Vec<String>)
        ensures
            string_views(r@) == self@,
    {
        &self.items
    }

    /// The elements, in insertion order.
    pub fn into_items(self) -> (r: Vec<String>)
        ensures
            string_views(r@) == self@,
    {
        self.items
    }

    /// The distinct elements of `v`, in order of first occurrence.
    pub fn from_strings(v: &Vec<String>) -> (r: IndicatorSet)
        ensures
            r.wf(),
            r@ == dedup(string_views(v@)),
    {
        let mut r = IndicatorSet::new();
        let mut k: usize = 0;
        while k < v.len()
            invariant
                k <= v@.len(),
                r.wf(),
                r@ == dedup(string_views(v@).take(k as int)),
            decreases v@.len() - k,
        {
            proof {
                assert(string_views(v@).take(k + 1).drop_last() =~= string_views(v@).take(k as int));
                assert(string_views(v@).take(k + 1).last() == v@[k as int]@);
            }
            r.insert(v[k].clone());
            k += 1;
        }
        assert(string_views(v@).take(v@.len() as int) =~= string_views(v@));
        r
    }
}

} // verus!
