use vstd::prelude::*;

use crate::info::{TypeInfo, opt_index, spec_last_index};
use crate::ops::apply_error::ApplyError;
use crate::ops::dynamic_enum::{ApplyValue, apply_fold, copy_values, lemma_fold_stops, value_views};
use crate::ops::dynamic_map::{entries_map, lemma_entries_dom};
use crate::ops::dynamic_set::ValueEq;
use crate::ops::enum_ops::{string_texts, struct_pairs};
use crate::registry::lemma_last_index;
use crate::text::str_eq;

verus! {

/// No two names are the same.
pub open spec fn names_distinct(names: Seq<Seq<char>>) -> bool {
    forall|a: int, b: int| 0 <= a < b < names.len() ==> names[a] != names[b]
}

/// Whether a struct with field names `xn` and field values viewed as `xv` equals one
/// with names `yn` and values `yv`: the same number of fields, and each field of the
/// second has a field of the same name in the first with the same value.
pub open spec fn spec_struct_eq<A>(xn: Seq<Seq<char>>, xv: Seq<A>, yn: Seq<Seq<char>>, yv: Seq<A>) -> bool {
    &&& xn.len() == yn.len()
    &&& forall|j: int| 0 <= j < yn.len() ==> match #[trigger] spec_last_index(xn, yn[j]) {
        Some(i) => xv[i] == yv[j],
        None => false,
    }
}

/// In names without repeats, the last position of a name that occurs is its only one.
pub(crate) proof fn lemma_distinct_last_index(names: Seq<Seq<char>>, k: Seq<char>)
    requires
        names_distinct(names),
        names.contains(k),
    ensures
        spec_last_index(names, k) == Some(names.index_of(k)),
        0 <= names.index_of(k) < names.len(),
        names[names.index_of(k)] == k,
{
    lemma_last_index(names, k);
    let j = names.index_of(k);
    assert(0 <= j < names.len() && names[j] == k);
    let i = spec_last_index(names, k).unwrap();
    if i < j {
        assert(names[i] != names[j]);
    }
    if j < i {
        assert(names[j] != names[i]);
    }
}

/// Two struct values, each naming every field once, compare equal exactly when they
/// map the same names to the same values.
pub proof fn law_struct_eq_is_map_eq<A>(xn: Seq<Seq<char>>, xv: Seq<A>, yn: Seq<Seq<char>>, yv: Seq<A>)
    requires
        names_distinct(xn),
        names_distinct(yn),
        xn.len() == xv.len(),
        yn.len() == yv.len(),
    ensures
        spec_struct_eq(xn, xv, yn, yv) <==> entries_map(xn, xv) == entries_map(yn, yv),
{
    let x = entries_map(xn, xv);
    let y = entries_map(yn, yv);
    lemma_entries_dom(xn, xv);
    lemma_entries_dom(yn, yv);
    assert(xn.no_duplicates());
    assert(yn.no_duplicates());
    xn.unique_seq_to_set();
    yn.unique_seq_to_set();
    if spec_struct_eq(xn, xv, yn, yv) {
        assert forall|k: Seq<char>| #[trigger] y.dom().contains(k) implies x.dom().contains(k) && x[k] == y[k] by {
            lemma_distinct_last_index(yn, k);
            let j = yn.index_of(k);
            assert(spec_last_index(xn, yn[j]) is Some);
            let i = spec_last_index(xn, yn[j]).unwrap();
            lemma_last_index(xn, yn[j]);
            assert(xn[i] == k);
            assert(xn.contains(k));
            lemma_distinct_last_index(xn, k);
            assert(xn.index_of(k) == i);
            assert(yn.index_of(k) == j);
            assert(x[k] == xv[i]);
            assert(y[k] == yv[j]);
        }
        assert forall|k: Seq<char>| #[trigger] y.dom().contains(k) implies x.dom().contains(k) by {}
        assert(y.dom().subset_of(x.dom()));
        vstd::set_lib::lemma_subset_equality(y.dom(), x.dom());
        assert(x =~= y);
    }
    if x == y {
        assert forall|j: int| 0 <= j < yn.len() implies match #[trigger] spec_last_index(xn, yn[j]) {
            Some(i) => xv[i] == yv[j],
            None => false,
        } by {
            let k = yn[j];
            assert(yn.contains(k));
            assert(y.dom().contains(k));
            lemma_distinct_last_index(yn, k);
            lemma_distinct_last_index(xn, k);
            assert(yn.index_of(k) == j) by {
                let q = yn.index_of(k);
                if q != j {
                    if q < j {
                        assert(yn[q] != yn[j]);
                    } else {
                        assert(yn[j] != yn[q]);
                    }
                }
            }
            assert(x.dom().contains(k));
            assert(x[k] == y[k]);
            assert(x[k] == xv[xn.index_of(k)]);
            assert(y[k] == yv[j]);
        }
    }
}

/// The values of fields named `sn`, viewed as `views`, after the fields of the first
/// `k` names of `on` have been put in by name: a field whose name is among them holds
/// the value under that name in `source`, any other field keeps its value.
pub open spec fn by_name_applied<A>(sn: Seq<Seq<char>>, views: Seq<A>, on: Seq<Seq<char>>, source: Seq<A>, k: int) -> Seq<A> {
    Seq::new(
        views.len(),
        |i: int| if on.take(k).contains(sn[i]) { source[on.index_of(sn[i])] } else { views[i] },
    )
}

/// Where applying a value makes the target equal to it, applying a struct value never
/// fails: each field whose name the applied value has takes that value's field, and
/// every other field keeps its value.
pub proof fn law_struct_apply_replaces<V: ApplyValue>(
    sn: Seq<Seq<char>>,
    views: Seq<V::V>,
    on: Seq<Seq<char>>,
    source: Seq<V::V>,
)
    requires
        forall|t: V::V, v: V::V| #[trigger] V::spec_apply(t, v) == (Ok::<(), ApplyError>(()), v),
        names_distinct(sn),
        names_distinct(on),
        sn.len() == views.len(),
        on.len() == source.len(),
        sn.len() <= usize::MAX,
        on.len() <= usize::MAX,
    ensures
        apply_fold::<V>(views, source, struct_pairs(sn, on, on.len())) == (
            Ok::<(), ApplyError>(()),
            by_name_applied(sn, views, on, source, on.len() as int),
        ),
{
    lemma_struct_apply_replaces::<V>(sn, views, on, source, on.len());
}

proof fn lemma_struct_apply_replaces<V: ApplyValue>(
    sn: Seq<Seq<char>>,
    views: Seq<V::V>,
    on: Seq<Seq<char>>,
    source: Seq<V::V>,
    k: nat,
)
    requires
        forall|t: V::V, v: V::V| #[trigger] V::spec_apply(t, v) == (Ok::<(), ApplyError>(()), v),
        names_distinct(sn),
        names_distinct(on),
        sn.len() == views.len(),
        on.len() == source.len(),
        sn.len() <= usize::MAX,
        on.len() <= usize::MAX,
        k <= on.len(),
    ensures
        apply_fold::<V>(views, source, struct_pairs(sn, on, k)) == (
            Ok::<(), ApplyError>(()),
            by_name_applied(sn, views, on, source, k as int),
        ),
    decreases k,
{
    if k == 0 {
        assert(by_name_applied(sn, views, on, source, 0) =~= views);
    } else {
        let w = (k - 1) as nat;
        lemma_struct_apply_replaces::<V>(sn, views, on, source, w);
        let prev = by_name_applied(sn, views, on, source, w as int);
        let next = by_name_applied(sn, views, on, source, k as int);
        let name = on[w as int];
        let t0 = on.take(w as int);
        let t1 = on.take(k as int);
        assert(t1 =~= t0.push(name));
        assert forall|q: Seq<char>| t1.contains(q) <==> t0.contains(q) || q == name by {
            if t1.contains(q) {
                let a = choose|a: int| 0 <= a < t1.len() && t1[a] == q;
                if a < w {
                    assert(t0[a] == q);
                }
            }
            if t0.contains(q) {
                let a = choose|a: int| 0 <= a < t0.len() && t0[a] == q;
                assert(t1[a] == q);
            }
            if q == name {
                assert(t1[w as int] == q);
            }
        }
        assert(!t0.contains(name)) by {
            if t0.contains(name) {
                let a = choose|a: int| 0 <= a < t0.len() && t0[a] == name;
                assert(on[a] != on[w as int]);
            }
        }
        assert(on.contains(name));
        lemma_distinct_last_index(on, name);
        assert(on.index_of(name) == w) by {
            let q = on.index_of(name);
            if q < w {
                assert(on[q] != on[w as int]);
            } else if w < q {
                assert(on[w as int] != on[q]);
            }
        }
        lemma_last_index(sn, name);
        match spec_last_index(sn, name) {
            Some(i0) => {
                assert(struct_pairs(sn, on, k).drop_last() =~= struct_pairs(sn, on, w));
                assert(struct_pairs(sn, on, k).last() == (w as usize, i0 as usize));
                assert(V::spec_apply(prev[i0], source[w as int]) == (Ok::<(), ApplyError>(()), source[w as int]));
                assert forall|i: int| 0 <= i < views.len() implies #[trigger] next[i] == prev.update(i0, source[w as int])[i] by {
                    if i != i0 && sn[i] == name {
                        if i < i0 {
                            assert(sn[i] != sn[i0]);
                        } else {
                            assert(sn[i0] != sn[i]);
                        }
                    }
                }
                assert(next =~= prev.update(i0, source[w as int]));
            },
            None => {
                assert(struct_pairs(sn, on, k) == struct_pairs(sn, on, w));
                assert forall|i: int| 0 <= i < views.len() implies #[trigger] next[i] == prev[i] by {
                    assert(sn[i] != name);
                }
                assert(next =~= prev);
            },
        }
    }
}

/// The pairs of a struct applied to a struct, as a prefix of those of more fields.
proof fn lemma_struct_pairs_prefix(sn: Seq<Seq<char>>, on: Seq<Seq<char>>, k: nat, k2: nat)
    requires
        k <= k2,
    ensures
        struct_pairs(sn, on, k).len() <= struct_pairs(sn, on, k2).len(),
        struct_pairs(sn, on, k2).take(struct_pairs(sn, on, k).len() as int) == struct_pairs(sn, on, k),
    decreases k2 - k,
{
    if k < k2 {
        lemma_struct_pairs_prefix(sn, on, k, (k2 - 1) as nat);
        let p = struct_pairs(sn, on, (k2 - 1) as nat);
        let q = struct_pairs(sn, on, k2);
        let m = struct_pairs(sn, on, k).len() as int;
        assert(q.take(m) =~= p.take(m));
    } else {
        assert(struct_pairs(sn, on, k2).take(struct_pairs(sn, on, k).len() as int) =~= struct_pairs(sn, on, k));
    }
}

/// The last position in `names` that holds `name`.
fn position(names: &Vec<String>, name: &str) -> (r: Option<usize>)
    ensures
        opt_index(r) == spec_last_index(string_texts(names@), name@),
        r matches Some(i) ==> i < names@.len(),
{
    let ghost t = string_texts(names@);
    proof {
        lemma_last_index(t, name@);
    }
    let mut i: usize = names.len();
    while i > 0
        invariant
            i <= names@.len(),
            t == string_texts(names@),
            forall|j: int| i <= j < names@.len() ==> t[j] != name@,
        decreases i,
    {
        i = i - 1;
        if str_eq(names[i].as_str(), name) {
            proof {
                lemma_last_index(t, name@);
                assert(t[i as int] == name@);
                let c = spec_last_index(t, name@).unwrap();
                if c < i {
                    assert(t[i as int] != name@);
                }
                if (i as int) < c {
                    assert(t[c] != name@);
                }
            }
            return Some(i);
        }
    }
    proof {
        lemma_last_index(t, name@);
        if spec_last_index(t, name@) is Some {
            let c = spec_last_index(t, name@).unwrap();
            assert(t[c] == name@);
        }
    }
    None
}

/// A struct value held by value: its fields by name, in order, each name once.
#[derive(Debug)]
pub struct DynamicStruct<V> {
    type_info: Option<&'static TypeInfo>,
    names: Vec<String>,
    values: Vec<V>,
}

impl<V> DynamicStruct<V> {
    /// Each field has a name and no name is given twice.
    #[verifier::type_invariant]
    spec fn fields_agree(&self) -> bool {
        &&& self.names@.len() == self.values@.len()
        &&& names_distinct(string_texts(self.names@))
    }

    pub closed spec fn spec_names(&self) -> Seq<Seq<char>> {
        string_texts(self.names@)
    }

    pub closed spec fn spec_values(&self) -> Seq<V> {
        self.values@
    }

    /// The type information of the struct type this value stands for.
    pub closed spec fn spec_type_info(&self) -> Option<&'static TypeInfo> {
        self.type_info
    }

    /// Sets the type information of the struct type this value stands for: that of a
    /// struct, or none.
    pub fn set_type_info(&mut self, struct_info: Option<&'static TypeInfo>)
        requires
            struct_info matches Some(info) ==> *info is Struct,
        ensures
            final(self).spec_type_info() == struct_info,
            final(self).spec_names() == old(self).spec_names(),
            final(self).spec_values() == old(self).spec_values(),
    {
        proof {
            use_type_invariant(&*self);
        }
        self.type_info = struct_info;
    }

    /// The type information of the struct type this value stands for.
    pub fn represented_type_info(&self) -> (r: Option<&'static TypeInfo>)
        ensures
            r == self.spec_type_info(),
    {
        self.type_info
    }

    /// An empty struct value.
    pub fn new() -> (r: Self)
        ensures
            r.spec_names() == Seq::<Seq<char>>::empty(),
            r.spec_values() == Seq::<V>::empty(),
            r.spec_type_info() is None,
    {
        let r = DynamicStruct { type_info: None, names: Vec::new(), values: Vec::new() };
        proof {
            assert(r.spec_names() =~= Seq::<Seq<char>>::empty());
        }
        r
    }

    /// The names are all different and as many as the values.
    pub fn wf(&self)
        ensures
            names_distinct(self.spec_names()),
            self.spec_names().len() == self.spec_values().len(),
    {
        proof {
            use_type_invariant(self);
        }
    }

    /// The position of the field named `name`.
    pub fn index_of(&self, name: &str) -> (r: Option<usize>)
        ensures
            opt_index(r) == spec_last_index(self.spec_names(), name@),
            r matches Some(i) ==> i < self.spec_values().len(),
    {
        proof {
            use_type_invariant(self);
        }
        position(&self.names, name)
    }

    /// Puts `value` as the field named `name`: in place of the field of that name, or
    /// as a new last field.
    pub fn insert(&mut self, name: &str, value: V)
        ensures
            match spec_last_index(old(self).spec_names(), name@) {
                Some(i) => final(self).spec_names() == old(self).spec_names()
                    && final(self).spec_values() == old(self).spec_values().update(i, value),
                None => final(self).spec_names() == old(self).spec_names().push(name@)
                    && final(self).spec_values() == old(self).spec_values().push(value),
            },
            spec_last_index(final(self).spec_names(), name@) matches Some(i)
                && final(self).spec_values()[i] == value,
            final(self).spec_type_info() == old(self).spec_type_info(),
    {
        proof {
            use_type_invariant(&*self);
        }
        match self.index_of(name) {
            Some(i) => {
                let mut this = DynamicStruct::new();
                core::mem::swap(self, &mut this);
                proof {
                    use_type_invariant(&this);
                }
                let DynamicStruct { type_info, names, mut values } = this;
                values.set(i, value);
                *self = DynamicStruct { type_info, names, values };
                proof {
                    lemma_last_index(self.spec_names(), name@);
                }
            },
            None => {
                proof {
                    lemma_last_index(self.spec_names(), name@);
                }
                let ghost old_names = self.spec_names();
                let mut this = DynamicStruct::new();
                core::mem::swap(self, &mut this);
                proof {
                    use_type_invariant(&this);
                }
                let DynamicStruct { type_info, mut names, mut values } = this;
                names.push(String::from_str(name));
                values.push(value);
                proof {
                    assert(string_texts(names@) =~= old_names.push(name@));
                    assert forall|a: int, b: int| 0 <= a < b < old_names.len() + 1 implies old_names.push(name@)[a]
                        != old_names.push(name@)[b] by {
                        if b == old_names.len() {
                            assert(old_names[a] != name@);
                        }
                    }
                }
                *self = DynamicStruct { type_info, names, values };
                proof {
                    let t = self.spec_names();
                    lemma_last_index(t, name@);
                    let c = spec_last_index(t, name@).unwrap();
                    if c < t.len() - 1 {
                        assert(t[t.len() - 1] == name@);
                    }
                }
            },
        }
    }

    /// The field named `name`.
    pub fn field(&self, name: &str) -> (r: Option<&V>)
        ensures
            match spec_last_index(self.spec_names(), name@) {
                Some(i) => r == Some(&self.spec_values()[i]),
                None => r is None,
            },
    {
        match self.index_of(name) {
            Some(i) => Some(&self.values[i]),
            None => None,
        }
    }

    /// The field at position `index`.
    pub fn field_at(&self, index: usize) -> (r: Option<&V>)
        ensures
            if index < self.spec_values().len() {
                r == Some(&self.spec_values()[index as int])
            } else {
                r is None
            },
    {
        if index < self.values.len() {
            Some(&self.values[index])
        } else {
            None
        }
    }

    /// The name of the field at position `index`.
    pub fn name_at(&self, index: usize) -> (r: Option<&str>)
        ensures
            if index < self.spec_names().len() {
                r matches Some(n) && n@ == self.spec_names()[index as int]
            } else {
                r is None
            },
    {
        if index < self.names.len() {
            Some(self.names[index].as_str())
        } else {
            None
        }
    }

    /// The number of fields.
    pub fn field_len(&self) -> (r: usize)
        ensures
            r == self.spec_values().len(),
    {
        self.values.len()
    }
}

impl<V: ValueEq> DynamicStruct<V> {
    /// A copy of this struct value: the same names in the same order, copies of the
    /// values (the same values), and the same type information.
    pub fn to_dynamic_struct(&self) -> (r: Self)
        ensures
            r.spec_names() == self.spec_names(),
            value_views(r.spec_values()) == value_views(self.spec_values()),
            r.spec_type_info() == self.spec_type_info(),
    {
        proof {
            use_type_invariant(self);
        }
        let mut names: Vec<String> = Vec::new();
        let mut i: usize = 0;
        while i < self.names.len()
            invariant
                i <= self.names@.len(),
                names@.len() == i,
                forall|j: int| 0 <= j < i ==> names@[j]@ == self.names@[j]@,
            decreases self.names@.len() - i,
        {
            names.push(self.names[i].clone());
            i = i + 1;
        }
        let values = copy_values(&self.values);
        proof {
            assert(string_texts(names@) =~= string_texts(self.names@));
        }
        DynamicStruct { type_info: self.type_info, names, values }
    }
}

impl<V: ApplyValue> DynamicStruct<V> {
    /// Applies `value` to the field at position `index`; the other fields and the
    /// names stay.
    pub fn apply_field_at(&mut self, index: usize, value: &V) -> (r: Result<(), ApplyError>)
        requires
            index < old(self).spec_values().len(),
        ensures
            final(self).spec_names() == old(self).spec_names(),
            final(self).spec_type_info() == old(self).spec_type_info(),
            final(self).spec_values().len() == old(self).spec_values().len(),
            forall|k: int| 0 <= k < old(self).spec_values().len() && k != index ==> final(self).spec_values()[k] == old(self).spec_values()[k],
            (r, final(self).spec_values()[index as int]@) == V::spec_apply(old(self).spec_values()[index as int]@, value@),
    {
        let mut this = DynamicStruct::new();
        core::mem::swap(self, &mut this);
        proof {
            use_type_invariant(&this);
        }
        let DynamicStruct { type_info, names, mut values } = this;
        let r = values[index].try_apply(value);
        *self = DynamicStruct { type_info, names, values };
        r
    }

    /// Applies the struct value `other` to this one: each field of `other`, in order,
    /// to the field of this value with the same name, if there is one, stopping at the
    /// first error; fields that only one side has are left alone.
    pub fn try_apply(&mut self, other: &DynamicStruct<V>) -> (r: Result<(), ApplyError>)
        ensures
            final(self).spec_names() == old(self).spec_names(),
            final(self).spec_type_info() == old(self).spec_type_info(),
            (r, value_views(final(self).spec_values())) == apply_fold::<V>(
                value_views(old(self).spec_values()),
                value_views(other.spec_values()),
                struct_pairs(old(self).spec_names(), other.spec_names(), other.spec_names().len()),
            ),
    {
        proof {
            use_type_invariant(other);
        }
        let ghost sn = self.spec_names();
        let ghost on = other.spec_names();
        let mut this = DynamicStruct::new();
        core::mem::swap(self, &mut this);
        proof {
            use_type_invariant(&this);
        }
        let DynamicStruct { type_info, names, mut values } = this;
        let ghost before = value_views(values@);
        let ghost src = value_views(other.values@);
        let mut j: usize = 0;
        while j < other.names.len()
            invariant
                j <= other.names@.len(),
                other.names@.len() == other.values@.len(),
                on == other.spec_names(),
                sn == string_texts(names@),
                sn == old(self).spec_names(),
                type_info == old(self).spec_type_info(),
                before == value_views(old(self).spec_values()),
                names_distinct(sn),
                src == value_views(other.values@),
                values@.len() == before.len(),
                names@.len() == before.len(),
                apply_fold::<V>(before, src, struct_pairs(sn, on, j as nat)) == (
                    Ok::<(), ApplyError>(()),
                    value_views(values@),
                ),
            decreases other.names@.len() - j,
        {
            let found = position(&names, other.names[j].as_str());
            proof {
                assert(on[j as int] == other.names@[j as int]@);
            }
            match found {
                Some(i) => {
                    let ghost cur = value_views(values@);
                    let r = values[i].try_apply(&other.values[j]);
                    proof {
                        let (r1, nv) = V::spec_apply(cur[i as int], src[j as int]);
                        assert(r1 == r);
                        assert(value_views(values@) =~= cur.update(i as int, nv));
                        assert(struct_pairs(sn, on, (j + 1) as nat) == struct_pairs(sn, on, j as nat).push((j, i)));
                        assert(struct_pairs(sn, on, (j + 1) as nat).drop_last() =~= struct_pairs(sn, on, j as nat));
                        assert(apply_fold::<V>(before, src, struct_pairs(sn, on, (j + 1) as nat)) == (r1, cur.update(i as int, nv)));
                    }
                    match r {
                        Err(e) => {
                            proof {
                                let full = struct_pairs(sn, on, on.len());
                                let part = struct_pairs(sn, on, (j + 1) as nat);
                                lemma_struct_pairs_prefix(sn, on, (j + 1) as nat, on.len());
                                lemma_fold_stops::<V>(before, src, full, part.len() as int);
                            }
                            *self = DynamicStruct { type_info, names, values };
                            return Err(e);
                        },
                        Ok(u) => {
                            proof {
                                assert(u == ());
                            }
                        },
                    }
                },
                None => {
                    proof {
                        assert(struct_pairs(sn, on, (j + 1) as nat) == struct_pairs(sn, on, j as nat));
                    }
                },
            }
            j = j + 1;
        }
        *self = DynamicStruct { type_info, names, values };
        Ok(())
    }
}

impl<V: ValueEq> DynamicStruct<V> {
    /// Compares this struct value with `other`: equal exactly when both have as many
    /// fields and each field of `other` has a field of the same name here with the same
    /// value.
    pub fn reflect_partial_eq(&self, other: &DynamicStruct<V>) -> (r: Option<bool>)
        ensures
            r == Some(spec_struct_eq(
                self.spec_names(),
                value_views(self.spec_values()),
                other.spec_names(),
                value_views(other.spec_values()),
            )),
    {
        proof {
            use_type_invariant(self);
            use_type_invariant(other);
        }
        let ghost xn = self.spec_names();
        let ghost xv = value_views(self.spec_values());
        let ghost yn = other.spec_names();
        let ghost yv = value_views(other.spec_values());
        if self.names.len() != other.names.len() {
            return Some(false);
        }
        let mut j: usize = 0;
        while j < other.names.len()
            invariant
                j <= other.names@.len(),
                other.names@.len() == other.values@.len(),
                self.names@.len() == self.values@.len(),
                xn == self.spec_names(),
                xv == value_views(self.spec_values()),
                yn == other.spec_names(),
                yv == value_views(other.spec_values()),
                xn.len() == yn.len(),
                forall|q: int| 0 <= q < j ==> match #[trigger] spec_last_index(xn, yn[q]) {
                    Some(i) => xv[i] == yv[q],
                    None => false,
                },
            decreases other.names@.len() - j,
        {
            proof {
                assert(yn[j as int] == other.names@[j as int]@);
            }
            match self.index_of(other.names[j].as_str()) {
                Some(i) => {
                    if !self.values[i].value_eq(&other.values[j]) {
                        proof {
                            assert(spec_last_index(xn, yn[j as int]) == Some(i as int));
                        }
                        return Some(false);
                    }
                },
                None => {
                    proof {
                        assert(spec_last_index(xn, yn[j as int]) is None);
                    }
                    return Some(false);
                },
            }
            j = j + 1;
        }
        Some(true)
    }
}

} // verus!
