use core::any::TypeId;
use vstd::prelude::*;
use vstd::std_specs::iter::IteratorSpec;

use crate::info::{last_index_of, opt_index, spec_last_index, texts};
use crate::info::type_struct::type_id_eq;

verus! {

/// How many entries of `s` are `q`.
pub open spec fn count_of(s: Seq<Seq<char>>, q: Seq<char>) -> nat
    decreases s.len(),
{
    if s.len() == 0 {
        0
    } else {
        count_of(s.drop_last(), q) + if s.last() == q { 1nat } else { 0nat }
    }
}

/// `q` occurs in `s` exactly when its count is positive.
pub proof fn lemma_count_positive(s: Seq<Seq<char>>, q: Seq<char>)
    ensures
        count_of(s, q) > 0 <==> exists|i: int| 0 <= i < s.len() && s[i] == q,
    decreases s.len(),
{
    if s.len() > 0 {
        lemma_count_positive(s.drop_last(), q);
        if exists|i: int| 0 <= i < s.len() && s[i] == q {
            let i = choose|i: int| 0 <= i < s.len() && s[i] == q;
            if i < s.len() - 1 {
                assert(s.drop_last()[i] == q);
            }
        }
        if exists|i: int| 0 <= i < s.drop_last().len() && s.drop_last()[i] == q {
            let i = choose|i: int| 0 <= i < s.drop_last().len() && s.drop_last()[i] == q;
            assert(s[i] == q);
        }
    }
}

/// Counting after one more entry.
proof fn lemma_count_push(s: Seq<Seq<char>>, x: Seq<char>, q: Seq<char>)
    ensures
        count_of(s.push(x), q) == count_of(s, q) + if x == q { 1nat } else { 0nat },
{
    assert(s.push(x).drop_last() =~= s);
}

/// What the last position of `q` in `s` is.
pub proof fn lemma_last_index(s: Seq<Seq<char>>, q: Seq<char>)
    ensures
        match spec_last_index(s, q) {
            Some(i) => 0 <= i < s.len() && s[i] == q && forall|j: int|
                i < j < s.len() ==> s[j] != q,
            None => forall|j: int| 0 <= j < s.len() ==> s[j] != q,
        },
    decreases s.len(),
{
    if exists|i: int| 0 <= i < s.len() && #[trigger] s[i] == q {
        if s.last() == q {
            let w = s.len() - 1;
            assert(0 <= w < s.len() && s[w] == q && forall|j: int| w < j < s.len() ==> s[j] != q);
        } else {
            let d = s.drop_last();
            let i0 = choose|i: int| 0 <= i < s.len() && #[trigger] s[i] == q;
            assert(d[i0] == q);
            lemma_last_index(d, q);
            let w = spec_last_index(d, q).unwrap();
            assert(s[w] == q);
            assert forall|j: int| w < j < s.len() implies s[j] != q by {
                if j < s.len() - 1 {
                    assert(d[j] != q);
                }
            }
        }
    }
}

/// Where the last entry equal to `q` stands, after one more entry.
proof fn lemma_last_index_push(s: Seq<Seq<char>>, x: Seq<char>, q: Seq<char>)
    ensures
        spec_last_index(s.push(x), q) == if x == q {
            Some(s.len() as int)
        } else {
            spec_last_index(s, q)
        },
{
    let t = s.push(x);
    assert(t.len() == s.len() + 1);
    assert(t[s.len() as int] == x);
    assert(forall|j: int| 0 <= j < s.len() ==> #[trigger] t[j] == s[j]);
    lemma_last_index(s, q);
    lemma_last_index(t, q);
    if x == q {
        let c = spec_last_index(t, q).unwrap();
        assert(c == s.len()) by {
            if c < s.len() {
                assert(t[s.len() as int] == q);
            }
        }
    } else {
        match spec_last_index(s, q) {
            Some(c) => {
                assert(t[c] == q);
                let d = spec_last_index(t, q).unwrap();
                assert(d == c) by {
                    if d < c {
                        assert(t[c] == q);
                    }
                    if c < d {
                        assert(d < s.len());
                        assert(s[d] == t[d]);
                    }
                }
            },
            None => {
                match spec_last_index(t, q) {
                    Some(d) => {
                        assert(d < s.len());
                        assert(s[d] == t[d]);
                    },
                    None => {},
                }
            },
        }
    }
}

/// The position of `q` in `s` when exactly one entry is `q`: the last one is the one.
proof fn lemma_single_entry(s: Seq<Seq<char>>, q: Seq<char>, i: int)
    requires
        count_of(s, q) == 1,
        0 <= i < s.len(),
        s[i] == q,
    ensures
        spec_last_index(s, q) == Some(i),
{
    lemma_last_index(s, q);
    let c = spec_last_index(s, q).unwrap();
    if c < i {
        lemma_two_entries(s, q, c, i);
    } else if i < c {
        lemma_two_entries(s, q, i, c);
    }
}

/// Two distinct positions that hold `q` make its count at least two.
proof fn lemma_two_entries(s: Seq<Seq<char>>, q: Seq<char>, i: int, j: int)
    requires
        0 <= i < j < s.len(),
        s[i] == q,
        s[j] == q,
    ensures
        count_of(s, q) >= 2,
    decreases s.len(),
{
    if j < s.len() - 1 {
        assert(s.drop_last()[i] == q);
        assert(s.drop_last()[j] == q);
        lemma_two_entries(s.drop_last(), q, i, j);
    } else {
        assert(s.drop_last()[i] == q);
        lemma_count_positive(s.drop_last(), q);
    }
}

/// The type that a path leads to, among types registered in order with the given
/// paths and ids: the last one registered under it.
pub open spec fn path_target_of(paths: Seq<Seq<char>>, ids: Seq<TypeId>, p: Seq<char>) -> Option<
    TypeId,
> {
    match spec_last_index(paths, p) {
        Some(i) => Some(ids[i]),
        None => None,
    }
}

/// The type that a short name leads to, among types registered in order with the
/// given names and ids: the one registered under it, if exactly one was.
pub open spec fn name_target_of(names: Seq<Seq<char>>, ids: Seq<TypeId>, n: Seq<char>) -> Option<
    TypeId,
> {
    if count_of(names, n) == 1 {
        Some(ids[spec_last_index(names, n).unwrap()])
    } else {
        None
    }
}

/// Some key has the text `q`.
pub open spec fn key_present(keys: Seq<&'static str>, q: Seq<char>) -> bool {
    exists|k: int| 0 <= k < keys.len() && #[trigger] keys[k]@ == q
}

/// No two keys have the same text.
pub open spec fn keys_distinct(keys: Seq<&'static str>) -> bool {
    forall|i: int, j: int| 0 <= i < j < keys.len() ==> keys[i]@ != keys[j]@
}

/// An index of paths, as parallel lists of keys and ids, leads each registered path
/// to its target and holds nothing else.
pub open spec fn path_index_ok(
    keys: Seq<&'static str>,
    tbl: Seq<TypeId>,
    paths: Seq<Seq<char>>,
    ids: Seq<TypeId>,
) -> bool {
    &&& keys.len() == tbl.len()
    &&& keys_distinct(keys)
    &&& forall|i: int|
        0 <= i < keys.len() ==> path_target_of(paths, ids, #[trigger] keys[i]@) == Some(tbl[i])
    &&& forall|i: int| 0 <= i < paths.len() ==> key_present(keys, #[trigger] paths[i])
}

/// An index of short names, as parallel lists of keys and ids, leads each short name
/// that exactly one registered type has to that type and holds nothing else.
pub open spec fn name_index_ok(
    keys: Seq<&'static str>,
    tbl: Seq<TypeId>,
    names: Seq<Seq<char>>,
    ids: Seq<TypeId>,
) -> bool {
    &&& keys.len() == tbl.len()
    &&& keys_distinct(keys)
    &&& forall|i: int|
        0 <= i < keys.len() ==> name_target_of(names, ids, #[trigger] keys[i]@) == Some(tbl[i])
    &&& forall|i: int|
        0 <= i < names.len() && count_of(names, #[trigger] names[i]) == 1 ==> key_present(
            keys,
            names[i],
        )
}

/// The list of ambiguous short names holds, once each, exactly the short names that
/// two or more registered types have.
pub open spec fn ambiguous_ok(amb: Seq<&'static str>, names: Seq<Seq<char>>) -> bool {
    &&& keys_distinct(amb)
    &&& forall|i: int| 0 <= i < amb.len() ==> count_of(names, #[trigger] amb[i]@) >= 2
    &&& forall|i: int|
        0 <= i < names.len() && count_of(names, #[trigger] names[i]) >= 2 ==> key_present(
            amb,
            names[i],
        )
}

/// No two ids are the same.
pub open spec fn ids_distinct(ids: Seq<TypeId>) -> bool {
    forall|i: int, j: int| 0 <= i < j < ids.len() ==> ids[i] != ids[j]
}

/// The position of `id` in `ids`.
pub open spec fn position_in(ids: Seq<TypeId>, id: TypeId) -> Option<int> {
    if exists|i: int| 0 <= i < ids.len() && #[trigger] ids[i] == id {
        Some(choose|i: int| 0 <= i < ids.len() && #[trigger] ids[i] == id)
    } else {
        None
    }
}

/// Among distinct ids, the position of the id at `i` is `i`.
proof fn lemma_position(ids: Seq<TypeId>, i: int)
    requires
        ids_distinct(ids),
        0 <= i < ids.len(),
    ensures
        position_in(ids, ids[i]) == Some(i),
{
    let c = position_in(ids, ids[i]).unwrap();
    if c < i {
        assert(ids[c] != ids[i]);
    } else if i < c {
        assert(ids[i] != ids[c]);
    }
}

/// Where a path leads after one more registration.
proof fn lemma_path_target_push(
    paths: Seq<Seq<char>>,
    ids: Seq<TypeId>,
    p: Seq<char>,
    id: TypeId,
    q: Seq<char>,
)
    requires
        paths.len() == ids.len(),
    ensures
        path_target_of(paths.push(p), ids.push(id), q) == if q == p {
            Some(id)
        } else {
            path_target_of(paths, ids, q)
        },
{
    lemma_last_index_push(paths, p, q);
    lemma_last_index(paths, q);
}

/// Where a short name leads after one more registration.
proof fn lemma_name_target_push(
    names: Seq<Seq<char>>,
    ids: Seq<TypeId>,
    n: Seq<char>,
    id: TypeId,
    q: Seq<char>,
)
    requires
        names.len() == ids.len(),
    ensures
        name_target_of(names.push(n), ids.push(id), q) == if q == n {
            if count_of(names, n) == 0 {
                Some(id)
            } else {
                None
            }
        } else {
            name_target_of(names, ids, q)
        },
{
    lemma_count_push(names, n, q);
    lemma_last_index_push(names, n, q);
    lemma_last_index(names, q);
    lemma_count_positive(names, q);
}

/// Records in the path index that the path `path` leads to `type_id`, a type
/// registered after those that `paths` and `ids` describe.
#[verifier::spinoff_prover]
#[verifier::rlimit(40)]
fn add_path_index(
    keys: &mut Vec<&'static str>,
    tbl: &mut Vec<TypeId>,
    Ghost(paths): Ghost<Seq<Seq<char>>>,
    Ghost(ids): Ghost<Seq<TypeId>>,
    type_id: TypeId,
    path: &'static str,
)
    requires
        paths.len() == ids.len(),
        path_index_ok(old(keys)@, old(tbl)@, paths, ids),
    ensures
        path_index_ok(final(keys)@, final(tbl)@, paths.push(path@), ids.push(type_id)),
{
    let ghost keys0 = keys@;
    let ghost tbl0 = tbl@;
    let found = last_index_of(keys.as_slice(), path);
    proof {
        lemma_last_index(texts(keys0), path@);
    }
    match found {
        Some(k) => {
            tbl.set(k, type_id);
        },
        None => {
            keys.push(path);
            tbl.push(type_id);
        },
    }
    proof {
        let paths2 = paths.push(path@);
        let ids2 = ids.push(type_id);
        assert(texts(keys0).len() == keys0.len());
        assert forall|i: int| 0 <= i < keys@.len() implies path_target_of(
            paths2,
            ids2,
            #[trigger] keys@[i]@,
        ) == Some(tbl@[i]) by {
            lemma_path_target_push(paths, ids, path@, type_id, keys@[i]@);
            if i < keys0.len() {
                assert(texts(keys0)[i] == keys0[i]@);
            }
        }
        assert forall|i: int, j: int| 0 <= i < j < keys@.len() implies keys@[i]@ != keys@[j]@ by {
            if j == keys0.len() {
                assert(texts(keys0)[i] == keys0[i]@);
            }
        }
        assert forall|i: int| 0 <= i < paths2.len() implies key_present(keys@, #[trigger] paths2[i]) by {
            if i < paths.len() {
                assert(paths2[i] == paths[i]);
                let k = choose|k: int| 0 <= k < keys0.len() && #[trigger] keys0[k]@ == paths[i];
                assert(keys@[k] == keys0[k]);
            } else {
                match found {
                    Some(k) => {
                        assert(texts(keys0)[k as int] == keys0[k as int]@);
                        assert(keys@[k as int]@ == paths2[i]);
                    },
                    None => {
                        assert(keys@[keys0.len() as int]@ == paths2[i]);
                    },
                }
            }
        }
        assert(keys@.len() == tbl@.len());
        assert(keys_distinct(keys@));
        assert(path_index_ok(keys@, tbl@, paths2, ids2));
    }
}

/// Records in the index of short names and in the list of ambiguous ones that
/// `type_id`, a type registered after those that `names` and `ids` describe, has the
/// short name `name`.
fn add_name_index(
    keys: &mut Vec<&'static str>,
    tbl: &mut Vec<TypeId>,
    amb: &mut Vec<&'static str>,
    Ghost(names): Ghost<Seq<Seq<char>>>,
    Ghost(ids): Ghost<Seq<TypeId>>,
    type_id: TypeId,
    name: &'static str,
)
    requires
        names.len() == ids.len(),
        name_index_ok(old(keys)@, old(tbl)@, names, ids),
        ambiguous_ok(old(amb)@, names),
    ensures
        name_index_ok(final(keys)@, final(tbl)@, names.push(name@), ids.push(type_id)),
        ambiguous_ok(final(amb)@, names.push(name@)),
{
    let ghost keys0 = keys@;
    let ghost tbl0 = tbl@;
    let ghost amb0 = amb@;
    let ghost names2 = names.push(name@);
    let ghost ids2 = ids.push(type_id);
    let in_table = last_index_of(keys.as_slice(), name);
    let in_ambiguous = last_index_of(amb.as_slice(), name);
    proof {
        lemma_last_index(texts(keys0), name@);
        lemma_last_index(texts(amb0), name@);
        assert(texts(keys0).len() == keys0.len());
        assert(texts(amb0).len() == amb0.len());
        lemma_count_push(names, name@, name@);
        assert forall|q: Seq<char>| q != name@ implies #[trigger] count_of(names2, q) == count_of(
            names,
            q,
        ) by {
            lemma_count_push(names, name@, q);
        }
    }
    if in_table.is_some() || in_ambiguous.is_some() {
        proof {
            // the name is already had by at least one registered type
            match in_table {
                Some(k) => {
                    assert(texts(keys0)[k as int] == keys0[k as int]@);
                    assert(name_target_of(names, ids, keys0[k as int]@) == Some(tbl0[k as int]));
                },
                None => {
                    let k = in_ambiguous.unwrap();
                    assert(texts(amb0)[k as int] == amb0[k as int]@);
                    assert(count_of(names, amb0[k as int]@) >= 2);
                },
            }
            assert(count_of(names, name@) >= 1);
        }
        match in_table {
            Some(k) => {
                keys.remove(k);
                tbl.remove(k);
            },
            None => {},
        }
        if in_ambiguous.is_none() {
            amb.push(name);
        }
        proof {
            assert(count_of(names2, name@) >= 2);
            // the index of short names
            assert forall|i: int| 0 <= i < keys@.len() implies name_target_of(
                names2,
                ids2,
                #[trigger] keys@[i]@,
            ) == Some(tbl@[i]) by {
                let j = match in_table {
                    Some(k) => if i < k { i } else { i + 1 },
                    None => i,
                };
                assert(keys@[i] == keys0[j]);
                assert(tbl@[i] == tbl0[j]);
                if keys0[j]@ == name@ {
                    let k = in_table.unwrap() as int;
                    assert(texts(keys0)[k] == keys0[k]@);
                    assert(j != k);
                }
                lemma_name_target_push(names, ids, name@, type_id, keys@[i]@);
            }
            assert forall|i: int, j: int| 0 <= i < j < keys@.len() implies keys@[i]@
                != keys@[j]@ by {
                let a = match in_table {
                    Some(k) => if i < k { i } else { i + 1 },
                    None => i,
                };
                let b = match in_table {
                    Some(k) => if j < k { j } else { j + 1 },
                    None => j,
                };
                assert(keys@[i] == keys0[a]);
                assert(keys@[j] == keys0[b]);
            }
            assert forall|i: int|
                0 <= i < names2.len() && count_of(names2, #[trigger] names2[i]) == 1 implies key_present(
                keys@,
                names2[i],
            ) by {
                let q = names2[i];
                assert(q != name@);
                assert(names2[i] == names[i]);
                let k0 = choose|k: int| 0 <= k < keys0.len() && #[trigger] keys0[k]@ == names[i];
                match in_table {
                    Some(k) => {
                        assert(texts(keys0)[k as int] == keys0[k as int]@);
                        assert(k0 != k);
                        let k1 = if k0 < k { k0 } else { k0 - 1 };
                        assert(keys@[k1] == keys0[k0]);
                    },
                    None => {
                        assert(keys@[k0] == keys0[k0]);
                    },
                }
            }
            // the ambiguous short names
            assert forall|i: int| 0 <= i < amb@.len() implies count_of(
                names2,
                #[trigger] amb@[i]@,
            ) >= 2 by {
                if i < amb0.len() {
                    assert(amb@[i] == amb0[i]);
                    lemma_count_push(names, name@, amb0[i]@);
                }
            }
            assert forall|i: int, j: int| 0 <= i < j < amb@.len() implies amb@[i]@ != amb@[j]@ by {
                if j == amb0.len() {
                    assert(texts(amb0)[i] == amb0[i]@);
                }
            }
            assert forall|i: int|
                0 <= i < names2.len() && count_of(names2, #[trigger] names2[i]) >= 2 implies key_present(
                amb@,
                names2[i],
            ) by {
                let q = names2[i];
                if q == name@ {
                    match in_ambiguous {
                        Some(k) => {
                            assert(texts(amb0)[k as int] == amb0[k as int]@);
                            assert(amb@[k as int]@ == q);
                        },
                        None => {
                            assert(amb@[amb0.len() as int]@ == q);
                        },
                    }
                } else {
                    assert(names2[i] == names[i]);
                    let k0 = choose|k: int| 0 <= k < amb0.len() && #[trigger] amb0[k]@ == names[i];
                    assert(amb@[k0] == amb0[k0]);
                }
            }
        }
    } else {
        proof {
            // no registered type has the name yet
            if count_of(names, name@) > 0 {
                lemma_count_positive(names, name@);
                let i = choose|i: int| 0 <= i < names.len() && names[i] == name@;
                if count_of(names, name@) == 1 {
                    let k = choose|k: int| 0 <= k < keys0.len() && #[trigger] keys0[k]@ == names[i];
                    assert(texts(keys0)[k] == keys0[k]@);
                } else {
                    let k = choose|k: int| 0 <= k < amb0.len() && #[trigger] amb0[k]@ == names[i];
                    assert(texts(amb0)[k] == amb0[k]@);
                }
            }
            assert(count_of(names, name@) == 0);
        }
        keys.push(name);
        tbl.push(type_id);
        proof {
            assert forall|i: int| 0 <= i < keys@.len() implies name_target_of(
                names2,
                ids2,
                #[trigger] keys@[i]@,
            ) == Some(tbl@[i]) by {
                lemma_name_target_push(names, ids, name@, type_id, keys@[i]@);
                if i < keys0.len() {
                    assert(texts(keys0)[i] == keys0[i]@);
                }
            }
            assert forall|i: int, j: int| 0 <= i < j < keys@.len() implies keys@[i]@
                != keys@[j]@ by {
                if j == keys0.len() {
                    assert(texts(keys0)[i] == keys0[i]@);
                }
            }
            assert forall|i: int|
                0 <= i < names2.len() && count_of(names2, #[trigger] names2[i]) == 1 implies key_present(
                keys@,
                names2[i],
            ) by {
                if names2[i] == name@ {
                    assert(keys@[keys0.len() as int]@ == names2[i]);
                } else {
                    assert(names2[i] == names[i]);
                    let k0 = choose|k: int| 0 <= k < keys0.len() && #[trigger] keys0[k]@ == names[i];
                    assert(keys@[k0] == keys0[k0]);
                }
            }
            assert forall|i: int| 0 <= i < amb@.len() implies count_of(
                names2,
                #[trigger] amb@[i]@,
            ) >= 2 by {
                lemma_count_push(names, name@, amb@[i]@);
            }
            assert forall|i: int|
                0 <= i < names2.len() && count_of(names2, #[trigger] names2[i]) >= 2 implies key_present(
                amb@,
                names2[i],
            ) by {
                assert(names2[i] != name@);
                assert(names2[i] == names[i]);
            }
        }
    }
}

/// A registry of types: for each registered [`TypeId`], in the order of
/// registration, the path and the short name it was registered under and the
/// value kept for it; with an index of paths and one of short names, where a short
/// name that several registered types share is ambiguous and leads nowhere.
pub struct TypeRegistry<V> {
    type_ids: Vec<TypeId>,
    traits: Vec<V>,
    path_keys: Vec<&'static str>,
    path_ids: Vec<TypeId>,
    name_keys: Vec<&'static str>,
    name_ids: Vec<TypeId>,
    ambiguous_names: Vec<&'static str>,
    registered: Ghost<Seq<(Seq<char>, Seq<char>)>>,
}

impl<V> TypeRegistry<V> {
    /// The registered types, in the order of registration.
    pub closed spec fn spec_ids(&self) -> Seq<TypeId> {
        self.type_ids@
    }

    /// The values kept for the registered types, in the same order.
    pub closed spec fn spec_values(&self) -> Seq<V> {
        self.traits@
    }

    /// The paths the types were registered under, in the same order.
    pub closed spec fn spec_paths(&self) -> Seq<Seq<char>> {
        self.registered@.map_values(|r: (Seq<char>, Seq<char>)| r.0)
    }

    /// The short names the types were registered under, in the same order.
    pub closed spec fn spec_names(&self) -> Seq<Seq<char>> {
        self.registered@.map_values(|r: (Seq<char>, Seq<char>)| r.1)
    }

    /// The type that a path leads to: the last one registered under it.
    pub open spec fn path_target(&self, p: Seq<char>) -> Option<TypeId> {
        path_target_of(self.spec_paths(), self.spec_ids(), p)
    }

    /// The type that a short name leads to: the one registered under it, if exactly
    /// one was.
    pub open spec fn name_target(&self, n: Seq<char>) -> Option<TypeId> {
        name_target_of(self.spec_names(), self.spec_ids(), n)
    }

    /// The position of a registered type.
    pub open spec fn position(&self, id: TypeId) -> Option<int> {
        position_in(self.spec_ids(), id)
    }

    /// The tables agree with the registrations.
    #[verifier::type_invariant]
    spec fn tables_agree(&self) -> bool {
        &&& self.registered@.len() == self.type_ids@.len()
        &&& self.traits@.len() == self.type_ids@.len()
        &&& ids_distinct(self.spec_ids())
        &&& path_index_ok(self.path_keys@, self.path_ids@, self.spec_paths(), self.spec_ids())
        &&& name_index_ok(self.name_keys@, self.name_ids@, self.spec_names(), self.spec_ids())
        &&& ambiguous_ok(self.ambiguous_names@, self.spec_names())
    }

    /// The four lists of the registrations have one length and no type is registered
    /// twice; every registry that the public functions build or change is so.
    pub open spec fn wf(&self) -> bool {
        &&& self.spec_values().len() == self.spec_ids().len()
        &&& self.spec_paths().len() == self.spec_ids().len()
        &&& self.spec_names().len() == self.spec_ids().len()
        &&& ids_distinct(self.spec_ids())
    }

    /// An empty registry.
    pub fn empty() -> (r: Self)
        ensures
            r.wf(),
            r.spec_ids() == Seq::<TypeId>::empty(),
            r.spec_values() == Seq::<V>::empty(),
            r.spec_paths() == Seq::<Seq<char>>::empty(),
            r.spec_names() == Seq::<Seq<char>>::empty(),
    {
        let r = TypeRegistry {
            type_ids: Vec::new(),
            traits: Vec::new(),
            path_keys: Vec::new(),
            path_ids: Vec::new(),
            name_keys: Vec::new(),
            name_ids: Vec::new(),
            ambiguous_names: Vec::new(),
            registered: Ghost(Seq::empty()),
        };
        proof {
            assert(r.spec_ids() =~= Seq::<TypeId>::empty());
            assert(r.spec_values() =~= Seq::<V>::empty());
            assert(r.spec_paths() =~= Seq::<Seq<char>>::empty());
            assert(r.spec_names() =~= Seq::<Seq<char>>::empty());
        }
        r
    }

    /// The position of the type `type_id` among the registered ones.
    fn find(&self, type_id: &TypeId) -> (r: Option<usize>)
        ensures
            opt_index(r) == self.position(*type_id),
            r matches Some(i) ==> i < self.spec_ids().len() && self.spec_ids()[i as int] == *type_id,
    {
        proof {
            use_type_invariant(self);
        }
        let ghost ids = self.spec_ids();
        let mut i: usize = 0;
        while i < self.type_ids.len()
            invariant
                i <= self.type_ids@.len(),
                ids == self.spec_ids(),
                ids_distinct(ids),
                ids.len() == self.type_ids@.len(),
                forall|j: int| 0 <= j < i ==> ids[j] != *type_id,
            decreases self.type_ids@.len() - i,
        {
            if type_id_eq(&self.type_ids[i], type_id) {
                proof {
                    assert(ids[i as int] == *type_id);
                    let c = self.position(*type_id).unwrap();
                    if c != i {
                        assert(ids_distinct(ids));
                        if c < i {
                            assert(ids[c] != ids[i as int]);
                        } else {
                            assert(ids[i as int] != ids[c]);
                        }
                    }
                }
                return Some(i);
            }
            i = i + 1;
        }
        proof {
            assert forall|j: int| 0 <= j < ids.len() implies #[trigger] ids[j] != *type_id by {}
        }
        None
    }

    /// Whether the type `type_id` is registered.
    pub fn contains(&self, type_id: TypeId) -> (r: bool)
        ensures
            r == self.spec_ids().contains(type_id),
    {
        let r = self.find(&type_id).is_some();
        proof {
            if self.spec_ids().contains(type_id) {
                let i = choose|i: int| 0 <= i < self.spec_ids().len() && self.spec_ids()[i] == type_id;
                assert(self.spec_ids()[i] == type_id);
            }
        }
        r
    }

    /// The value kept for the type `type_id`.
    pub fn get(&self, type_id: TypeId) -> (r: Option<&V>)
        ensures
            match self.position(type_id) {
                Some(i) => r == Some(&self.spec_values()[i]),
                None => r is None,
            },
    {
        proof {
            use_type_invariant(self);
        }
        match self.find(&type_id) {
            Some(i) => Some(&self.traits[i]),
            None => None,
        }
    }

    /// The type that the path `type_path` leads to.
    fn path_lookup(&self, type_path: &str) -> (r: Option<TypeId>)
        ensures
            r == self.path_target(type_path@),
    {
        proof {
            use_type_invariant(self);
            lemma_last_index(self.spec_paths(), type_path@);
            lemma_last_index(texts(self.path_keys@), type_path@);
        }
        match last_index_of(self.path_keys.as_slice(), type_path) {
            Some(k) => {
                proof {
                    assert(texts(self.path_keys@)[k as int] == self.path_keys@[k as int]@);
                }
                Some(self.path_ids[k])
            },
            None => {
                proof {
                    if spec_last_index(self.spec_paths(), type_path@) is Some {
                        let i = spec_last_index(self.spec_paths(), type_path@).unwrap();
                        assert(key_present(self.path_keys@, self.spec_paths()[i]));
                        let k = choose|k: int|
                            0 <= k < self.path_keys@.len() && #[trigger] self.path_keys@[k]@
                                == self.spec_paths()[i];
                        assert(texts(self.path_keys@)[k] == self.path_keys@[k]@);
                    }
                }
                None
            },
        }
    }

    /// The type that the short name `short_name` leads to.
    fn name_lookup(&self, short_name: &str) -> (r: Option<TypeId>)
        ensures
            r == self.name_target(short_name@),
    {
        proof {
            use_type_invariant(self);
            lemma_last_index(self.spec_names(), short_name@);
            lemma_last_index(texts(self.name_keys@), short_name@);
            lemma_count_positive(self.spec_names(), short_name@);
        }
        match last_index_of(self.name_keys.as_slice(), short_name) {
            Some(k) => {
                proof {
                    assert(texts(self.name_keys@)[k as int] == self.name_keys@[k as int]@);
                }
                Some(self.name_ids[k])
            },
            None => {
                proof {
                    if count_of(self.spec_names(), short_name@) == 1 {
                        let i = spec_last_index(self.spec_names(), short_name@).unwrap();
                        assert(self.spec_names()[i] == short_name@);
                        assert(key_present(self.name_keys@, self.spec_names()[i]));
                        let k = choose|k: int|
                            0 <= k < self.name_keys@.len() && #[trigger] self.name_keys@[k]@
                                == self.spec_names()[i];
                        assert(texts(self.name_keys@)[k] == self.name_keys@[k]@);
                    }
                }
                None
            },
        }
    }

    /// The value kept for the type that the path `type_path` leads to: the last type
    /// registered under that path.
    pub fn get_with_type_path(&self, type_path: &str) -> (r: Option<&V>)
        ensures
            match spec_last_index(self.spec_paths(), type_path@) {
                Some(i) => r == Some(&self.spec_values()[i]),
                None => r is None,
            },
    {
        proof {
            use_type_invariant(self);
            lemma_last_index(self.spec_paths(), type_path@);
        }
        match self.path_lookup(type_path) {
            Some(id) => {
                proof {
                    lemma_position(self.spec_ids(), spec_last_index(self.spec_paths(), type_path@).unwrap());
                }
                self.get(id)
            },
            None => None,
        }
    }

    /// The value kept for the type that the path `type_path` leads to, to change in
    /// place.
    pub fn get_with_type_path_mut(&mut self, type_path: &str) -> (r: Option<&mut V>)
        ensures
            final(self).wf(),
            match spec_last_index(old(self).spec_paths(), type_path@) {
                Some(i) => {
                    &&& r matches Some(v)
                    &&& *v == old(self).spec_values()[i]
                    &&& final(self).spec_values() == old(self).spec_values().update(i, *final(v))
                    &&& final(self).spec_ids() == old(self).spec_ids()
                    &&& final(self).spec_paths() == old(self).spec_paths()
                    &&& final(self).spec_names() == old(self).spec_names()
                },
                None => {
                    &&& r is None
                    &&& final(self).spec_values() == old(self).spec_values()
                    &&& final(self).spec_ids() == old(self).spec_ids()
                    &&& final(self).spec_paths() == old(self).spec_paths()
                    &&& final(self).spec_names() == old(self).spec_names()
                },
            },
    {
        proof {
            use_type_invariant(&*self);
            lemma_last_index(self.spec_paths(), type_path@);
        }
        match self.path_lookup(type_path) {
            Some(id) => {
                proof {
                    lemma_position(self.spec_ids(), spec_last_index(self.spec_paths(), type_path@).unwrap());
                }
                self.get_mut(id)
            },
            None => None,
        }
    }

    /// The value kept for the type that the short name `short_name` leads to: the one
    /// type registered under it, if exactly one was.
    pub fn get_with_type_name(&self, short_name: &str) -> (r: Option<&V>)
        ensures
            if count_of(self.spec_names(), short_name@) == 1 {
                r == Some(&self.spec_values()[spec_last_index(self.spec_names(), short_name@).unwrap()])
            } else {
                r is None
            },
    {
        proof {
            use_type_invariant(self);
            lemma_last_index(self.spec_names(), short_name@);
            lemma_count_positive(self.spec_names(), short_name@);
        }
        match self.name_lookup(short_name) {
            Some(id) => {
                proof {
                    lemma_position(self.spec_ids(), spec_last_index(self.spec_names(), short_name@).unwrap());
                }
                self.get(id)
            },
            None => None,
        }
    }

    /// The value kept for the type that the short name `short_name` leads to, to
    /// change in place.
    pub fn get_with_type_name_mut(&mut self, short_name: &str) -> (r: Option<&mut V>)
        ensures
            final(self).wf(),
            if count_of(old(self).spec_names(), short_name@) == 1 {
                let i = spec_last_index(old(self).spec_names(), short_name@).unwrap();
                &&& r matches Some(v)
                &&& *v == old(self).spec_values()[i]
                &&& final(self).spec_values() == old(self).spec_values().update(i, *final(v))
                &&& final(self).spec_ids() == old(self).spec_ids()
                &&& final(self).spec_paths() == old(self).spec_paths()
                &&& final(self).spec_names() == old(self).spec_names()
            } else {
                &&& r is None
                &&& final(self).spec_values() == old(self).spec_values()
                &&& final(self).spec_ids() == old(self).spec_ids()
                &&& final(self).spec_paths() == old(self).spec_paths()
                &&& final(self).spec_names() == old(self).spec_names()
            },
    {
        proof {
            use_type_invariant(&*self);
            lemma_last_index(self.spec_names(), short_name@);
            lemma_count_positive(self.spec_names(), short_name@);
        }
        match self.name_lookup(short_name) {
            Some(id) => {
                proof {
                    lemma_position(self.spec_ids(), spec_last_index(self.spec_names(), short_name@).unwrap());
                }
                self.get_mut(id)
            },
            None => None,
        }
    }

    /// Whether the short name `short_name` is ambiguous: two or more registered types
    /// have it.
    pub fn is_ambiguous(&self, short_name: &str) -> (r: bool)
        ensures
            r == (count_of(self.spec_names(), short_name@) >= 2),
    {
        proof {
            use_type_invariant(self);
            lemma_last_index(texts(self.ambiguous_names@), short_name@);
            lemma_count_positive(self.spec_names(), short_name@);
        }
        match last_index_of(self.ambiguous_names.as_slice(), short_name) {
            Some(k) => {
                proof {
                    assert(texts(self.ambiguous_names@)[k as int] == self.ambiguous_names@[k as int]@);
                }
                true
            },
            None => {
                proof {
                    if count_of(self.spec_names(), short_name@) >= 2 {
                        let i = choose|i: int|
                            0 <= i < self.spec_names().len() && self.spec_names()[i] == short_name@;
                        assert(key_present(self.ambiguous_names@, self.spec_names()[i]));
                        let k = choose|k: int|
                            0 <= k < self.ambiguous_names@.len() && #[trigger] self.ambiguous_names@[k]@
                                == self.spec_names()[i];
                        assert(texts(self.ambiguous_names@)[k] == self.ambiguous_names@[k]@);
                    }
                }
                false
            },
        }
    }

    /// Registers the type `type_id` under the path `type_path` and the short name
    /// `short_name`, keeping `type_traits` for it; the type must not be registered.
    fn register_new(
        &mut self,
        type_id: TypeId,
        type_path: &'static str,
        short_name: &'static str,
        type_traits: V,
    )
        requires
            !old(self).spec_ids().contains(type_id),
        ensures
            final(self).spec_ids() == old(self).spec_ids().push(type_id),
            final(self).spec_values() == old(self).spec_values().push(type_traits),
            final(self).spec_paths() == old(self).spec_paths().push(type_path@),
            final(self).spec_names() == old(self).spec_names().push(short_name@),
    {
        proof {
            use_type_invariant(&*self);
        }
        let ghost ids = self.spec_ids();
        let ghost paths = self.spec_paths();
        let ghost names = self.spec_names();
        let ghost values = self.spec_values();
        let mut this = TypeRegistry::empty();
        core::mem::swap(self, &mut this);
        proof {
            use_type_invariant(&this);
        }
        let TypeRegistry {
            mut type_ids,
            mut traits,
            mut path_keys,
            mut path_ids,
            mut name_keys,
            mut name_ids,
            ambiguous_names: mut ambiguous,
            registered: Ghost(registered0),
        } = this;
        add_path_index(&mut path_keys, &mut path_ids, Ghost(paths), Ghost(ids), type_id, type_path);
        add_name_index(
            &mut name_keys,
            &mut name_ids,
            &mut ambiguous,
            Ghost(names),
            Ghost(ids),
            type_id,
            short_name,
        );
        type_ids.push(type_id);
        traits.push(type_traits);
        let ghost registered = registered0.push((type_path@, short_name@));
        proof {
            assert(registered.map_values(|r: (Seq<char>, Seq<char>)| r.0) =~= paths.push(type_path@));
            assert(registered.map_values(|r: (Seq<char>, Seq<char>)| r.1) =~= names.push(short_name@));
            assert forall|i: int, j: int| 0 <= i < j < ids.len() + 1 implies ids.push(type_id)[i]
                != ids.push(type_id)[j] by {
                if j == ids.len() {
                    assert(ids[i] != type_id);
                }
            }
        }
        *self = TypeRegistry {
            type_ids,
            traits,
            path_keys,
            path_ids,
            name_keys,
            name_ids,
            ambiguous_names: ambiguous,
            registered: Ghost(registered),
        };
    }

    /// Registers the type `type_id` under the path `type_path` and the short name
    /// `short_name`, keeping `type_traits` for it, unless it is registered already;
    /// returns whether it was registered now.
    pub fn try_add_type_traits(
        &mut self,
        type_id: TypeId,
        type_path: &'static str,
        short_name: &'static str,
        type_traits: V,
    ) -> (r: bool)
        ensures
            final(self).wf(),
            r == !old(self).spec_ids().contains(type_id),
            ids_distinct(final(self).spec_ids()),
            r ==> {
                &&& final(self).spec_ids() == old(self).spec_ids().push(type_id)
                &&& final(self).spec_values() == old(self).spec_values().push(type_traits)
                &&& final(self).spec_paths() == old(self).spec_paths().push(type_path@)
                &&& final(self).spec_names() == old(self).spec_names().push(short_name@)
            },
            !r ==> {
                &&& final(self).spec_ids() == old(self).spec_ids()
                &&& final(self).spec_values() == old(self).spec_values()
                &&& final(self).spec_paths() == old(self).spec_paths()
                &&& final(self).spec_names() == old(self).spec_names()
            },
    {
        let r = if self.contains(type_id) {
            false
        } else {
            self.register_new(type_id, type_path, short_name, type_traits);
            true
        };
        proof {
            use_type_invariant(&*self);
        }
        r
    }

    /// Keeps `type_traits` for the type `type_id`: in place of the value kept for it
    /// if it is registered (its path and short name are left as they were), else by
    /// registering it under the path `type_path` and the short name `short_name`.
    pub fn insert_type_traits(
        &mut self,
        type_id: TypeId,
        type_path: &'static str,
        short_name: &'static str,
        type_traits: V,
    )
        ensures
            final(self).wf(),
            ids_distinct(final(self).spec_ids()),
            match old(self).position(type_id) {
                Some(i) => {
                    &&& final(self).spec_ids() == old(self).spec_ids()
                    &&& final(self).spec_values() == old(self).spec_values().update(i, type_traits)
                    &&& final(self).spec_paths() == old(self).spec_paths()
                    &&& final(self).spec_names() == old(self).spec_names()
                },
                None => {
                    &&& final(self).spec_ids() == old(self).spec_ids().push(type_id)
                    &&& final(self).spec_values() == old(self).spec_values().push(type_traits)
                    &&& final(self).spec_paths() == old(self).spec_paths().push(type_path@)
                    &&& final(self).spec_names() == old(self).spec_names().push(short_name@)
                },
            },
    {
        match self.find(&type_id) {
            Some(i) => {
                let ghost ids = self.spec_ids();
                let ghost values = self.spec_values();
                let ghost paths = self.spec_paths();
                let ghost names = self.spec_names();
                let mut this = TypeRegistry::empty();
                core::mem::swap(self, &mut this);
                proof {
                    use_type_invariant(&this);
                }
                let TypeRegistry {
                    type_ids,
                    mut traits,
                    path_keys,
                    path_ids,
                    name_keys,
                    name_ids,
                    ambiguous_names,
                    registered,
                } = this;
                traits.set(i, type_traits);
                *self = TypeRegistry {
                    type_ids,
                    traits,
                    path_keys,
                    path_ids,
                    name_keys,
                    name_ids,
                    ambiguous_names,
                    registered,
                };
            },
            None => {
                proof {
                    if self.spec_ids().contains(type_id) {
                        let j = choose|j: int|
                            0 <= j < self.spec_ids().len() && self.spec_ids()[j] == type_id;
                        assert(self.spec_ids()[j] == type_id);
                    }
                }
                self.register_new(type_id, type_path, short_name, type_traits);
            },
        }
        proof {
            use_type_invariant(&*self);
        }
    }

    /// The value kept for the type `type_id`, to change in place.
    pub fn get_mut(&mut self, type_id: TypeId) -> (r: Option<&mut V>)
        ensures
            final(self).wf(),
            match old(self).position(type_id) {
                Some(i) => {
                    &&& r matches Some(v)
                    &&& *v == old(self).spec_values()[i]
                    &&& final(self).spec_values() == old(self).spec_values().update(i, *final(v))
                    &&& final(self).spec_ids() == old(self).spec_ids()
                    &&& final(self).spec_paths() == old(self).spec_paths()
                    &&& final(self).spec_names() == old(self).spec_names()
                },
                None => {
                    &&& r is None
                    &&& final(self).spec_values() == old(self).spec_values()
                    &&& final(self).spec_ids() == old(self).spec_ids()
                    &&& final(self).spec_paths() == old(self).spec_paths()
                    &&& final(self).spec_names() == old(self).spec_names()
                },
            },
    {
        proof {
            use_type_invariant(&*self);
        }
        match self.find(&type_id) {
            Some(i) => Some(&mut self.traits[i]),
            None => None,
        }
    }

    /// An iterator over the values kept for the registered types, in the order of
    /// registration.
    pub fn iter(&self) -> (r: core::slice::Iter<'_, V>)
        ensures
            r.remaining() == self.spec_values().map_values(|v: V| &v),
    {
        let r = self.traits.as_slice().iter();
        proof {
            assert(r.remaining() =~= self.spec_values().map_values(|v: V| &v));
        }
        r
    }
}

/// Two registered types that share a short name make it ambiguous, and it then leads
/// to neither of them.
pub proof fn law_shared_name_is_ambiguous<V>(reg: &TypeRegistry<V>, i: int, j: int)
    requires
        0 <= i < j < reg.spec_names().len(),
        reg.spec_names()[i] == reg.spec_names()[j],
    ensures
        count_of(reg.spec_names(), reg.spec_names()[i]) >= 2,
        reg.name_target(reg.spec_names()[i]) is None,
{
    lemma_two_entries(reg.spec_names(), reg.spec_names()[i], i, j);
}

/// A short name that exactly one registered type has leads to that type.
pub proof fn law_unique_name_leads_to_its_type<V>(reg: &TypeRegistry<V>, i: int)
    requires
        0 <= i < reg.spec_names().len(),
        count_of(reg.spec_names(), reg.spec_names()[i]) == 1,
    ensures
        spec_last_index(reg.spec_names(), reg.spec_names()[i]) == Some(i),
        reg.name_target(reg.spec_names()[i]) == Some(reg.spec_ids()[i]),
{
    lemma_single_entry(reg.spec_names(), reg.spec_names()[i], i);
}

/// In a registry built by the public functions, every registered type is found: under
/// its path, when no other type was registered under that path, and under its short
/// name, when no other type has that name; its short name is then not ambiguous,
/// and a short name that another registered type shares is.
pub proof fn law_registered_type_is_found<V>(reg: &TypeRegistry<V>, i: int)
    requires
        reg.wf(),
        0 <= i < reg.spec_ids().len(),
    ensures
        (forall|j: int| 0 <= j < reg.spec_paths().len() && j != i ==> reg.spec_paths()[j] != reg.spec_paths()[i])
            ==> spec_last_index(reg.spec_paths(), reg.spec_paths()[i]) == Some(i),
        count_of(reg.spec_names(), reg.spec_names()[i]) >= 1,
        count_of(reg.spec_names(), reg.spec_names()[i]) == 1 ==> spec_last_index(
            reg.spec_names(),
            reg.spec_names()[i],
        ) == Some(i),
        (exists|j: int| 0 <= j < reg.spec_names().len() && j != i && reg.spec_names()[j] == reg.spec_names()[i])
            ==> count_of(reg.spec_names(), reg.spec_names()[i]) >= 2,
{
    let paths = reg.spec_paths();
    let names = reg.spec_names();
    lemma_last_index(paths, paths[i]);
    lemma_count_positive(names, names[i]);
    if count_of(names, names[i]) == 1 {
        lemma_single_entry(names, names[i], i);
    }
    if exists|j: int| 0 <= j < names.len() && j != i && names[j] == names[i] {
        let j = choose|j: int| 0 <= j < names.len() && j != i && names[j] == names[i];
        if j < i {
            lemma_two_entries(names, names[i], j, i);
        } else {
            lemma_two_entries(names, names[i], i, j);
        }
    }
}

/// The type registered last under a path is the one that the path leads to.
pub proof fn law_newest_path_wins(paths: Seq<Seq<char>>, ids: Seq<TypeId>, p: Seq<char>, id: TypeId)
    requires
        paths.len() == ids.len(),
    ensures
        spec_last_index(paths.push(p), p) == Some(paths.len() as int),
        path_target_of(paths.push(p), ids.push(id), p) == Some(id),
{
    lemma_last_index_push(paths, p, p);
}

} // verus!
