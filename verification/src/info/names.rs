use vstd::prelude::*;

use crate::registry::lemma_last_index;
use crate::text::str_eq;

verus! {

/// The texts of a sequence of string slices.
pub open spec fn texts(names: Seq<&'static str>) -> Seq<Seq<char>> {
    names.map_values(|s: &'static str| s@)
}

/// The last position in `names` that holds `name`: the position that a map built by
/// inserting each name with its position, in order, keeps for `name`.
pub open spec fn spec_last_index(names: Seq<Seq<char>>, name: Seq<char>) -> Option<int> {
    if exists|i: int| 0 <= i < names.len() && #[trigger] names[i] == name {
        Some(choose|i: int|
            0 <= i < names.len() && #[trigger] names[i] == name
            && forall|j: int| i < j < names.len() ==> names[j] != name)
    } else {
        None
    }
}

/// An optional position, as an integer.
pub open spec fn opt_index(r: Option<usize>) -> Option<int> {
    match r {
        Some(i) => Some(i as int),
        None => None,
    }
}

/// The last position in `names` that holds `name`.
pub fn last_index_of(names: &[&'static str], name: &str) -> (r: Option<usize>)
    ensures
        spec_last_index(texts(names@), name@) == opt_index(r),
        r matches Some(i) ==> i < names@.len(),
{
    let ghost t = texts(names@);
    let mut i: usize = names.len();
    while i > 0
        invariant
            i <= names@.len(),
            t == texts(names@),
            forall|j: int| i <= j < names@.len() ==> t[j] != name@,
        decreases i,
    {
        i = i - 1;
        if str_eq(names[i], name) {
            proof {
                assert(t[i as int] == name@);
                let c = spec_last_index(t, name@).unwrap();
                if c < i {
                    assert(t[i as int] != name@);
                }
                if (i as int) < c {
                    assert(t[c] != name@);
                }
            }
            return Some(i);
        }
    }
    proof {
        assert forall|j: int| 0 <= j < t.len() implies #[trigger] t[j] != name@ by {}
    }
    None
}

/// A vector that holds the items of `s`, in order.
pub fn copy_slice<T: Copy>(s: &[T]) -> (r: Vec<T>)
    ensures
        r@ == s@,
{
    let mut r: Vec<T> = Vec::new();
    let mut i: usize = 0;
    while i < s.len()
        invariant
            i <= s@.len(),
            r@ == s@.subrange(0, i as int),
        decreases s@.len() - i,
    {
        r.push(s[i]);
        i = i + 1;
        proof {
            assert(r@ =~= s@.subrange(0, i as int));
        }
    }
    proof {
        assert(r@ =~= s@);
    }
    r
}

/// Among names that are all different, each is found at its own position, and a
/// name that none of them is, nowhere.
pub proof fn lemma_distinct_names(names: Seq<Seq<char>>, i: int, m: Seq<char>)
    requires
        forall|a: int, b: int| 0 <= a < b < names.len() ==> names[a] != names[b],
        0 <= i < names.len(),
    ensures
        spec_last_index(names, names[i]) == Some(i),
        (forall|k: int| 0 <= k < names.len() ==> names[k] != m) ==> spec_last_index(names, m) is None,
{
    lemma_last_index(names, names[i]);
    lemma_last_index(names, m);
    let c = spec_last_index(names, names[i]).unwrap();
    if c < i {
        assert(names[c] != names[i]);
    } else if i < c {
        assert(names[i] != names[c]);
    }
    if (forall|k: int| 0 <= k < names.len() ==> names[k] != m) && spec_last_index(names, m) is Some {
        let d = spec_last_index(names, m).unwrap();
        assert(names[d] == m);
    }
}

} // verus!
