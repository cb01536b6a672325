//! Lists of names (addresses, pool ids) and the operations the contracts
//! perform on them.

use vstd::prelude::*;

verus! {

/// The names held in a list of strings.
pub open spec fn names(list: Seq<String>) -> Seq<Seq<char>> {
    list.map_values(|s: String| s@)
}

/// No name occurs twice.
pub open spec fn no_duplicates(s: Seq<Seq<char>>) -> bool {
    forall|i: int, j: int| 0 <= i < j < s.len() ==> s[i] != s[j]
}

/// The list with every occurrence of `x` removed, order kept.
pub open spec fn without(s: Seq<Seq<char>>, x: Seq<char>) -> Seq<Seq<char>>
    decreases s.len(),
{
    if s.len() == 0 {
        Seq::empty()
    } else if s.last() == x {
        without(s.drop_last(), x)
    } else {
        without(s.drop_last(), x).push(s.last())
    }
}

/// A name is in `without(s, x)` exactly when it is in `s` and is not `x`.
pub proof fn lemma_without_contains(s: Seq<Seq<char>>, x: Seq<char>, y: Seq<char>)
    ensures
        without(s, x).contains(y) == (s.contains(y) && y != x),
    decreases s.len(),
{
    if s.len() > 0 {
        lemma_without_contains(s.drop_last(), x, y);
        let w = without(s.drop_last(), x);
        if s.contains(y) && y != x {
            let i = choose|i: int| 0 <= i < s.len() && s[i] == y;
            if i < s.len() - 1 {
                assert(s.drop_last()[i] == y);
            }
            if s.last() != x {
                assert(w.push(s.last())[w.len() as int] == s.last());
                if s.drop_last().contains(y) {
                    let j = choose|j: int| 0 <= j < w.len() && w[j] == y;
                    assert(w.push(s.last())[j] == y);
                }
            }
        }
        if without(s, x).contains(y) {
            if s.last() != x {
                let j = choose|j: int| 0 <= j < w.len() + 1 && w.push(s.last())[j] == y;
                if j < w.len() {
                    assert(w[j] == y);
                    let k = choose|k: int| 0 <= k < s.drop_last().len() && s.drop_last()[k] == y;
                    assert(s[k] == y);
                } else {
                    assert(s[s.len() - 1] == y);
                }
            } else {
                let k = choose|k: int| 0 <= k < s.drop_last().len() && s.drop_last()[k] == y;
                assert(s[k] == y);
            }
        }
    }
}

/// Appending a name that is not yet present keeps a list free of duplicates.
pub proof fn lemma_push_fresh(s: Seq<Seq<char>>, x: Seq<char>)
    requires
        no_duplicates(s),
        !s.contains(x),
    ensures
        no_duplicates(s.push(x)),
{
    assert forall|i: int, j: int| 0 <= i < j < s.push(x).len() implies s.push(x)[i] != s.push(
        x,
    )[j] by {
        if j == s.len() {
            assert(s[i] == s.push(x)[i]);
        }
    }
}

/// Removing a name keeps a list free of duplicates.
pub proof fn lemma_without_no_duplicates(s: Seq<Seq<char>>, x: Seq<char>)
    requires
        no_duplicates(s),
    ensures
        no_duplicates(without(s, x)),
    decreases s.len(),
{
    if s.len() > 0 {
        let d = s.drop_last();
        assert(no_duplicates(d)) by {
            assert forall|i: int, j: int| 0 <= i < j < d.len() implies d[i] != d[j] by {
                assert(s[i] != s[j]);
            }
        }
        lemma_without_no_duplicates(d, x);
        if s.last() != x {
            lemma_without_contains(d, x, s.last());
            if d.contains(s.last()) {
                let k = choose|k: int| 0 <= k < d.len() && d[k] == s.last();
                assert(s[k] != s[s.len() - 1]);
            }
            lemma_push_fresh(without(d, x), s.last());
        }
    }
}

/// A copy of a list of names.
pub fn copy_names(list: &Vec<String>) -> (r: Vec<String>)
    ensures
        r@ == list@,
{
    let mut r: Vec<String> = Vec::new();
    let mut i: usize = 0;
    while i < list.len()
        invariant
            i <= list@.len(),
            r@ == list@.subrange(0, i as int),
        decreases list@.len() - i,
    {
        r.push(list[i].clone());
        proof {
            assert(list@.subrange(0, i + 1) =~= list@.subrange(0, i as int).push(list@[i as int]));
        }
        i = i + 1;
    }
    assert(list@.subrange(0, list@.len() as int) =~= list@);
    r
}

/// Whether the list holds the name `x`.
pub fn contains_name(list: &Vec<String>, x: &String) -> (r: bool)
    ensures
        r == names(list@).contains(x@),
{
    let mut i: usize = 0;
    while i < list.len()
        invariant
            i <= list@.len(),
            forall|j: int| 0 <= j < i ==> list@[j]@ != x@,
        decreases list@.len() - i,
    {
        if list[i] == *x {
            assert(names(list@)[i as int] == x@);
            return true;
        }
        i = i + 1;
    }
    proof {
        if names(list@).contains(x@) {
            let k = choose|k: int| 0 <= k < names(list@).len() && names(list@)[k] == x@;
            assert(list@[k]@ == x@);
        }
    }
    false
}

/// The list without any occurrence of the name `x`.
pub fn without_name(list: &Vec<String>, x: &String) -> (r: Vec<String>)
    ensures
        names(r@) == without(names(list@), x@),
{
    let mut r: Vec<String> = Vec::new();
    let mut i: usize = 0;
    while i < list.len()
        invariant
            i <= list@.len(),
            names(r@) == without(names(list@).subrange(0, i as int), x@),
        decreases list@.len() - i,
    {
        let ghost prefix = names(list@).subrange(0, i + 1);
        proof {
            assert(prefix.drop_last() =~= names(list@).subrange(0, i as int));
            assert(prefix.last() == list@[i as int]@);
        }
        if list[i] != *x {
            let ghost before = r@;
            r.push(list[i].clone());
            proof {
                assert(names(r@) =~= names(before).push(list@[i as int]@));
            }
        }
        i = i + 1;
    }
    assert(names(list@).subrange(0, list@.len() as int) =~= names(list@));
    r
}

} // verus!
