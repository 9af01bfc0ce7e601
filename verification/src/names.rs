//! Lists of names in the order of the dictionary.
//!
//! The calculator's tables are looked up by name and keep no order. What is
//! shown of them is a list of their names, and that list is the same however
//! the table was filled: each name once, in ascending order.

use crate::text::{chars_of, same_text};
use vstd::prelude::*;

verus! {

/// `a` stands before `b` in the order of the dictionary, where both agree on
/// their first `i` characters: at the first place where they differ `a` has
/// the lesser character, or `a` ends there and `b` does not.
pub open spec fn precedes_from(a: Seq<char>, b: Seq<char>, i: int) -> bool
    decreases a.len() - i,
{
    if i < 0 || i >= b.len() {
        false
    } else if i >= a.len() {
        true
    } else if a[i] != b[i] {
        a[i] < b[i]
    } else {
        precedes_from(a, b, i + 1)
    }
}

/// `a` stands before `b` in the order of the dictionary.
pub open spec fn precedes(a: Seq<char>, b: Seq<char>) -> bool {
    precedes_from(a, b, 0)
}

/// Each name stands before those behind it.
pub open spec fn ascending(names: Seq<Seq<char>>) -> bool {
    forall|i: int, j: int| 0 <= i < j < names.len() ==> precedes(names[i], names[j])
}

/// The texts of a list of strings.
pub open spec fn texts(names: Seq<String>) -> Seq<Seq<char>> {
    Seq::new(names.len(), |i: int| names[i]@)
}

proof fn lemma_precedes_from_transitive(a: Seq<char>, b: Seq<char>, c: Seq<char>, i: int)
    requires
        precedes_from(a, b, i),
        precedes_from(b, c, i),
    ensures
        precedes_from(a, c, i),
    decreases a.len() - i,
{
    if i < a.len() && a[i] == b[i] && b[i] == c[i] {
        lemma_precedes_from_transitive(a, b, c, i + 1);
    }
}

/// The order is transitive.
pub proof fn lemma_precedes_transitive(a: Seq<char>, b: Seq<char>, c: Seq<char>)
    requires
        precedes(a, b),
        precedes(b, c),
    ensures
        precedes(a, c),
{
    lemma_precedes_from_transitive(a, b, c, 0);
}

proof fn lemma_precedes_from_total(a: Seq<char>, b: Seq<char>, i: int)
    requires
        0 <= i <= a.len(),
        i <= b.len(),
        a.subrange(0, i) == b.subrange(0, i),
    ensures
        a == b || precedes_from(a, b, i) || precedes_from(b, a, i),
    decreases a.len() - i,
{
    if i < a.len() && i < b.len() {
        if a[i] == b[i] {
            assert(a.subrange(0, i + 1) =~= a.subrange(0, i).push(a[i]));
            assert(b.subrange(0, i + 1) =~= b.subrange(0, i).push(b[i]));
            lemma_precedes_from_total(a, b, i + 1);
        }
    } else if i == a.len() && i == b.len() {
        assert(a =~= a.subrange(0, i));
        assert(b =~= b.subrange(0, i));
    }
}

/// Of two different names one stands before the other.
pub proof fn lemma_precedes_total(a: Seq<char>, b: Seq<char>)
    ensures
        a == b || precedes(a, b) || precedes(b, a),
{
    assert(a.subrange(0, 0) =~= b.subrange(0, 0));
    lemma_precedes_from_total(a, b, 0);
}

proof fn lemma_precedes_from_irreflexive(a: Seq<char>, i: int)
    ensures
        !precedes_from(a, a, i),
    decreases a.len() - i,
{
    if 0 <= i < a.len() {
        lemma_precedes_from_irreflexive(a, i + 1);
    }
}

/// No name stands before itself.
pub proof fn lemma_precedes_irreflexive(a: Seq<char>)
    ensures
        !precedes(a, a),
{
    lemma_precedes_from_irreflexive(a, 0);
}

/// A list in ascending order has each of its names once.
pub proof fn law_ascending_names_differ(names: Seq<Seq<char>>)
    requires
        ascending(names),
    ensures
        forall|i: int, j: int| 0 <= i < j < names.len() ==> names[i] != names[j],
{
    assert forall|i: int, j: int| 0 <= i < j < names.len() implies names[i] != names[j] by {
        lemma_precedes_irreflexive(names[i]);
    }
}

/// Two lists in ascending order that hold the same names are the same list:
/// the order in which the names were put in leaves no trace.
pub proof fn law_ascending_lists_are_unique(one: Seq<Seq<char>>, other: Seq<Seq<char>>)
    requires
        ascending(one),
        ascending(other),
        forall|name: Seq<char>| one.contains(name) <==> other.contains(name),
    ensures
        one == other,
    decreases one.len(),
{
    if one.len() == 0 {
        if other.len() > 0 {
            assert(other.contains(other[0]));
        }
        assert(one =~= other);
    } else if other.len() == 0 {
        assert(one.contains(one[0]));
    } else {
        let a = one[0];
        let b = other[0];
        assert(one.contains(a));
        assert(other.contains(b));
        if a != b {
            let i = choose|i: int| 0 <= i < other.len() && other[i] == a;
            let j = choose|j: int| 0 <= j < one.len() && one[j] == b;
            assert(precedes(b, a));
            assert(precedes(a, b));
            lemma_precedes_transitive(a, b, a);
            lemma_precedes_irreflexive(a);
        }
        let one_rest = one.drop_first();
        let other_rest = other.drop_first();
        law_ascending_names_differ(one);
        law_ascending_names_differ(other);
        assert forall|name: Seq<char>| one_rest.contains(name) <==> other_rest.contains(name) by {
            if one_rest.contains(name) {
                let k = choose|k: int| 0 <= k < one_rest.len() && one_rest[k] == name;
                assert(one[k + 1] == name);
                assert(one.contains(name));
                let m = choose|m: int| 0 <= m < other.len() && other[m] == name;
                assert(m != 0);
                assert(other_rest[m - 1] == name);
            }
            if other_rest.contains(name) {
                let k = choose|k: int| 0 <= k < other_rest.len() && other_rest[k] == name;
                assert(other[k + 1] == name);
                assert(other.contains(name));
                let m = choose|m: int| 0 <= m < one.len() && one[m] == name;
                assert(m != 0);
                assert(one_rest[m - 1] == name);
            }
        }
        assert forall|i: int, j: int| 0 <= i < j < one_rest.len() implies precedes(
            one_rest[i],
            one_rest[j],
        ) by {
            assert(precedes(one[i + 1], one[j + 1]));
        }
        assert forall|i: int, j: int| 0 <= i < j < other_rest.len() implies precedes(
            other_rest[i],
            other_rest[j],
        ) by {
            assert(precedes(other[i + 1], other[j + 1]));
        }
        law_ascending_lists_are_unique(one_rest, other_rest);
        assert(one =~= seq![a] + one_rest);
        assert(other =~= seq![b] + other_rest);
    }
}

/// Whether `a` stands before `b` in the order of the dictionary.
pub fn before(a: &str, b: &str) -> (r: bool)
    ensures
        r == precedes(a@, b@),
{
    let x = chars_of(a);
    let y = chars_of(b);
    let mut i: usize = 0;
    while i < x.len() && i < y.len() && x[i] == y[i]
        invariant
            i <= x.len(),
            i <= y.len(),
            precedes_from(x@, y@, i as int) == precedes(x@, y@),
        decreases x.len() - i,
    {
        i += 1;
    }
    if i >= y.len() {
        false
    } else if i >= x.len() {
        true
    } else {
        x[i] < y[i]
    }
}

/// A list of names in ascending order, each once.
pub struct Names {
    list: Vec<String>,
}

impl View for Names {
    type V = Seq<Seq<char>>;

    closed spec fn view(&self) -> Seq<Seq<char>> {
        texts(self.list@)
    }
}

impl Names {
    /// The names ascend.
    pub open spec fn wf(&self) -> bool {
        ascending(self@)
    }

    /// The empty list.
    pub fn new() -> (r: Names)
        ensures
            r.wf(),
            r@ == Seq::<Seq<char>>::empty(),
    {
        let r = Names { list: Vec::new() };
        assert(r@ =~= Seq::<Seq<char>>::empty());
        r
    }

    /// Puts `name` in its place, unless the list has it.
    pub fn insert(&mut self, name: &str)
        requires
            old(self).wf(),
        ensures
            final(self).wf(),
            forall|other: Seq<char>|
                final(self)@.contains(other) <==> (old(self)@.contains(other) || other == name@),
    {
        let ghost before_all = self@;
        let mut p: usize = 0;
        while p < self.list.len() && before(self.list[p].as_str(), name)
            invariant
                p <= self.list.len(),
                self@ == before_all,
                forall|i: int| 0 <= i < p ==> precedes(#[trigger] before_all[i], name@),
            decreases self.list.len() - p,
        {
            p += 1;
        }
        if p < self.list.len() && same_text(self.list[p].as_str(), name) {
            assert(before_all[p as int] == name@);
            return ;
        }
        self.list.insert(p, name.to_owned());
        proof {
            let after_all = self@;
            assert(after_all =~= before_all.insert(p as int, name@));
            if p < before_all.len() {
                lemma_precedes_total(before_all[p as int], name@);
            }
            assert forall|i: int, j: int| 0 <= i < j < after_all.len() implies precedes(
                after_all[i],
                after_all[j],
            ) by {
                if j == p {
                } else if i == p {
                    if j - 1 > p {
                        lemma_precedes_transitive(name@, before_all[p as int], before_all[j - 1]);
                    }
                } else if i < p && j < p {
                } else if i < p {
                    assert(after_all[j] == before_all[j - 1]);
                } else {
                    assert(after_all[i] == before_all[i - 1]);
                    assert(after_all[j] == before_all[j - 1]);
                }
            }
            assert forall|other: Seq<char>|
                after_all.contains(other) <==> (before_all.contains(other) || other
                    == name@) by {
                if after_all.contains(other) {
                    let k = choose|k: int| 0 <= k < after_all.len() && after_all[k] == other;
                    if k < p {
                        assert(before_all[k] == other);
                    } else if k > p {
                        assert(before_all[k - 1] == other);
                    }
                }
                if before_all.contains(other) {
                    let k = choose|k: int| 0 <= k < before_all.len() && before_all[k] == other;
                    if k < p {
                        assert(after_all[k] == other);
                    } else {
                        assert(after_all[k + 1] == other);
                    }
                }
                if other == name@ {
                    assert(after_all[p as int] == other);
                }
            }
        }
    }

    /// The names, in ascending order.
    pub fn to_vec(&self) -> (names: Vec<String>)
        ensures
            texts(names@) == self@,
    {
        let mut names: Vec<String> = Vec::new();
        let mut i: usize = 0;
        while i < self.list.len()
            invariant
                i <= self.list.len(),
                names.len() == i,
                forall|j: int| 0 <= j < i ==> names[j]@ == self.list[j]@,
            decreases self.list.len() - i,
        {
            names.push(self.list[i].clone());
            i += 1;
        }
        assert(texts(names@) =~= self@);
        names
    }
}

} // verus!
