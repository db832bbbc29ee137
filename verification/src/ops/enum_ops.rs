use vstd::prelude::*;

use crate::info::{ReflectKind, VariantKind, opt_index, spec_last_index};
use crate::registry::lemma_last_index;
use crate::ops::apply_error::ApplyError;
use crate::ops::dynamic_list::same_positions;
use crate::text::str_eq;

verus! {

/// The texts of a sequence of strings.
pub open spec fn string_texts(v: Seq<String>) -> Seq<Seq<char>> {
    v.map_values(|s: String| s@)
}

/// The fields of an enum variant: none, a number of unnamed ones, or named ones in
/// order.
#[derive(Debug)]
pub enum VariantShape {
    Unit,
    Tuple(usize),
    Struct(Vec<String>),
}

/// What a [`VariantShape`] holds.
pub ghost enum ShapeView {
    Unit,
    Tuple(nat),
    Struct(Seq<Seq<char>>),
}

impl View for VariantShape {
    type V = ShapeView;

    open spec fn view(&self) -> ShapeView {
        match self {
            VariantShape::Unit => ShapeView::Unit,
            VariantShape::Tuple(n) => ShapeView::Tuple(*n as nat),
            VariantShape::Struct(names) => ShapeView::Struct(string_texts(names@)),
        }
    }
}

/// The form of a variant of the given shape.
pub open spec fn shape_kind(s: ShapeView) -> VariantKind {
    match s {
        ShapeView::Unit => VariantKind::Unit,
        ShapeView::Tuple(_) => VariantKind::Tuple,
        ShapeView::Struct(_) => VariantKind::Struct,
    }
}

/// The number of fields of a variant of the given shape.
pub open spec fn shape_len(s: ShapeView) -> nat {
    match s {
        ShapeView::Unit => 0,
        ShapeView::Tuple(n) => n,
        ShapeView::Struct(names) => names.len(),
    }
}

/// Whether the field at position `i` of a variant shaped `x` has a counterpart in a
/// variant of the same form shaped `y`: the field at the same position for unnamed
/// fields, a field of the same name for named ones.
pub open spec fn has_counterpart(x: ShapeView, y: ShapeView, i: int) -> bool {
    match (x, y) {
        (ShapeView::Tuple(_), ShapeView::Tuple(m)) => i < m,
        (ShapeView::Struct(xn), ShapeView::Struct(yn)) => yn.contains(xn[i]),
        _ => false,
    }
}

/// Whether the enum value with variant `x_name` shaped `x` equals the value `y`, an
/// enum value's variant name and shape or `None` for a value that is not an enum,
/// given the comparison of each field of `x` with its counterpart in `y`: the
/// answer is a definite `Some`, true exactly when `y` is an enum value with the same
/// variant name and form, every field of `x` has a counterpart and compares equal.
pub open spec fn spec_enum_partial_eq(
    x_name: Seq<char>,
    x: ShapeView,
    y: Option<(Seq<char>, ShapeView)>,
    field_results: Seq<Option<bool>>,
) -> Option<bool> {
    match y {
        None => Some(false),
        Some((y_name, ys)) => Some(
            x_name == y_name && shape_kind(x) == shape_kind(ys) && forall|i: int|
                0 <= i < shape_len(x) ==> has_counterpart(x, ys, i) && field_results[i] == Some(
                    true,
                ),
        ),
    }
}

/// The named field at position `j` has a counterpart and compares equal to it.
pub open spec fn named_field_ok(
    xn: Seq<Seq<char>>,
    yn: Seq<Seq<char>>,
    field_results: Seq<Option<bool>>,
    j: int,
) -> bool {
    yn.contains(xn[j]) && field_results[j] == Some(true)
}

/// The other value of a comparison, as a name and a shape.
pub open spec fn opt_shape(y: Option<(&str, &VariantShape)>) -> Option<(Seq<char>, ShapeView)> {
    match y {
        Some((n, s)) => Some((n@, s@)),
        None => None,
    }
}

/// Whether `name` is one of `names`.
fn contains_name(names: &Vec<String>, name: &String) -> (r: bool)
    ensures
        r == string_texts(names@).contains(name@),
{
    let mut i: usize = 0;
    while i < names.len()
        invariant
            i <= names@.len(),
            forall|j: int| 0 <= j < i ==> names@[j]@ != name@,
        decreases names@.len() - i,
    {
        if str_eq(names[i].as_str(), name.as_str()) {
            proof {
                assert(string_texts(names@)[i as int] == name@);
            }
            return true;
        }
        i = i + 1;
    }
    proof {
        if string_texts(names@).contains(name@) {
            let j = choose|j: int| 0 <= j < string_texts(names@).len() && string_texts(names@)[j] == name@;
            assert(names@[j]@ == name@);
        }
    }
    false
}

/// Compares the enum value with variant `x_name` shaped `x` with the value `y` (an
/// enum value's variant name and shape, or `None` for a value that is not an enum),
/// where `field_results[i]` is the comparison of the field at position `i` of `x`
/// with its counterpart in `y`.
pub fn enum_partial_eq_outcome(
    x_name: &str,
    x: &VariantShape,
    y: Option<(&str, &VariantShape)>,
    field_results: &Vec<Option<bool>>,
) -> (r: Option<bool>)
    requires
        field_results@.len() == shape_len(x@),
    ensures
        r == spec_enum_partial_eq(x_name@, x@, opt_shape(y), field_results@),
{
    let (y_name, ys) = match y {
        None => {
            return Some(false);
        },
        Some(p) => p,
    };
    if !str_eq(x_name, y_name) {
        return Some(false);
    }
    match (x, ys) {
        (VariantShape::Unit, VariantShape::Unit) => Some(true),
        (VariantShape::Tuple(n), VariantShape::Tuple(m)) => {
            let mut i: usize = 0;
            while i < *n
                invariant
                    i <= *n,
                    field_results@.len() == *n,
                    x@ == ShapeView::Tuple(*n as nat),
                    opt_shape(y) == Some((y_name@, ys@)),
                    x_name@ == y_name@,
                    ys@ == ShapeView::Tuple(*m as nat),
                    forall|j: int| 0 <= j < i ==> j < *m && field_results@[j] == Some(true),
                decreases *n - i,
            {
                if i >= *m {
                    proof {
                        assert(!has_counterpart(x@, ys@, i as int));
                        assert(!(has_counterpart(x@, ys@, i as int) && field_results@[i as int] == Some(true)));
                    }
                    return Some(false);
                }
                match field_results[i] {
                    Some(true) => {},
                    _ => {
                        proof {
                            assert(field_results@[i as int] != Some(true));
                        }
                        return Some(false);
                    },
                }
                i = i + 1;
            }
            Some(true)
        },
        (VariantShape::Struct(xn), VariantShape::Struct(yn)) => {
            let mut i: usize = 0;
            while i < xn.len()
                invariant
                    i <= xn@.len(),
                    field_results@.len() == xn@.len(),
                    x@ == ShapeView::Struct(string_texts(xn@)),
                    opt_shape(y) == Some((y_name@, ys@)),
                    x_name@ == y_name@,
                    ys@ == ShapeView::Struct(string_texts(yn@)),
                    forall|j: int|
                        0 <= j < i ==> #[trigger] named_field_ok(
                            string_texts(xn@),
                            string_texts(yn@),
                            field_results@,
                            j,
                        ),
                decreases xn@.len() - i,
            {
                proof {
                    assert(string_texts(xn@)[i as int] == xn@[i as int]@);
                }
                let found = contains_name(yn, &xn[i]);
                proof {
                    assert(found == string_texts(yn@).contains(string_texts(xn@)[i as int]));
                }
                if !found {
                    proof {
                        assert(!has_counterpart(x@, ys@, i as int));
                        assert(!(has_counterpart(x@, ys@, i as int) && field_results@[i as int] == Some(true)));
                    }
                    return Some(false);
                }
                match field_results[i] {
                    Some(true) => {},
                    _ => {
                        proof {
                            assert(field_results@[i as int] != Some(true));
                        }
                        return Some(false);
                    },
                }
                proof {
                    assert(named_field_ok(string_texts(xn@), string_texts(yn@), field_results@, i as int));
                }
                i = i + 1;
            }
            proof {
                assert forall|j: int| 0 <= j < shape_len(x@) implies has_counterpart(x@, ys@, j)
                    && field_results@[j] == Some(true) by {
                    assert(named_field_ok(string_texts(xn@), string_texts(yn@), field_results@, j));
                }
            }
            Some(true)
        },
        _ => Some(false),
    }
}

/// What to do to apply an enum value to another one: apply the fields of the value to
/// those of the target, as pairs of a position in the value and the position of the
/// target's field it goes to, in the order of the value's fields; or switch the
/// target to the value's variant, with copies of its fields in this shape.
#[derive(Debug)]
pub enum EnumApplyPlan {
    ApplyFields(Vec<(usize, usize)>),
    ReplaceVariant(VariantShape),
}

/// What an [`EnumApplyPlan`] holds.
pub ghost enum PlanView {
    ApplyFields(Seq<(usize, usize)>),
    ReplaceVariant(ShapeView),
}

impl View for EnumApplyPlan {
    type V = PlanView;

    open spec fn view(&self) -> PlanView {
        match self {
            EnumApplyPlan::ApplyFields(pairs) => PlanView::ApplyFields(pairs@),
            EnumApplyPlan::ReplaceVariant(shape) => PlanView::ReplaceVariant(shape@),
        }
    }
}

/// The pairs for the first `k` named fields `on` of the value: each goes to the
/// target's field of the same name (the last one, if several are), if any.
pub open spec fn struct_pairs(sn: Seq<Seq<char>>, on: Seq<Seq<char>>, k: nat) -> Seq<(usize, usize)>
    decreases k,
{
    if k == 0 {
        Seq::empty()
    } else {
        let prev = struct_pairs(sn, on, (k - 1) as nat);
        match spec_last_index(sn, on[k - 1]) {
            Some(i) => prev.push((((k - 1) as int) as usize, i as usize)),
            None => prev,
        }
    }
}

/// The smaller of two numbers.
pub open spec fn min_nat(a: nat, b: nat) -> nat {
    if a <= b { a } else { b }
}

/// The fields of a value shaped `other` applied to a target shaped `target` with the
/// same variant name: named fields by name, onto a target with named fields only;
/// unnamed fields by position, onto any field at that position; none for a unit
/// variant.
pub open spec fn spec_apply_pairs(target: ShapeView, other: ShapeView) -> Seq<(usize, usize)> {
    match other {
        ShapeView::Unit => Seq::empty(),
        ShapeView::Tuple(m) => Seq::new(
            min_nat(m, shape_len(target)),
            |j: int| (j as usize, j as usize),
        ),
        ShapeView::Struct(on) => match target {
            ShapeView::Struct(sn) => struct_pairs(sn, on, on.len()),
            _ => Seq::empty(),
        },
    }
}

/// Applying the value `other` (an enum value's variant name and shape, or the kind of
/// a value that is not an enum) to an enum value with variant `name` shaped
/// `target`: an error for a value that is not an enum; the field pairs when the
/// variant names agree; else a switch to the value's variant.
pub open spec fn spec_enum_apply_plan(
    name: Seq<char>,
    target: ShapeView,
    other: Result<(Seq<char>, ShapeView), ReflectKind>,
) -> Result<PlanView, ApplyError> {
    match other {
        Err(kind) => Err(ApplyError::MismatchedKinds { from_kind: kind, to_kind: ReflectKind::Enum }),
        Ok((other_name, other_shape)) => if name == other_name {
            Ok(PlanView::ApplyFields(spec_apply_pairs(target, other_shape)))
        } else {
            Ok(PlanView::ReplaceVariant(other_shape))
        },
    }
}

/// The plan, seen through the views.
pub open spec fn plan_view(r: Result<EnumApplyPlan, ApplyError>) -> Result<PlanView, ApplyError> {
    match r {
        Ok(p) => Ok(p@),
        Err(e) => Err(e),
    }
}

/// The other value of an application, seen through the views.
pub open spec fn other_view(other: Result<(&str, &VariantShape), ReflectKind>) -> Result<
    (Seq<char>, ShapeView),
    ReflectKind,
> {
    match other {
        Ok((n, s)) => Ok((n@, s@)),
        Err(k) => Err(k),
    }
}

/// The last position in `names` that holds `name`.
fn last_name_index(names: &Vec<String>, name: &String) -> (r: Option<usize>)
    ensures
        opt_index(r) == spec_last_index(string_texts(names@), name@),
        r matches Some(i) ==> i < names@.len(),
{
    let ghost t = string_texts(names@);
    proof {
        lemma_last_index(t, name@);
    }
    let mut i: usize = names.len();
    while i > 0
        invariant
            i <= names@.len(),
            t == string_texts(names@),
            forall|j: int| i <= j < names@.len() ==> t[j] != name@,
        decreases i,
    {
        i = i - 1;
        if str_eq(names[i].as_str(), name.as_str()) {
            proof {
                lemma_last_index(t, name@);
                assert(t[i as int] == name@);
                let c = spec_last_index(t, name@).unwrap();
                if c < i {
                    assert(t[i as int] != name@);
                }
                if (i as int) < c {
                    assert(t[c] != name@);
                }
            }
            return Some(i);
        }
    }
    proof {
        lemma_last_index(t, name@);
        if spec_last_index(t, name@) is Some {
            let c = spec_last_index(t, name@).unwrap();
            assert(t[c] == name@);
        }
    }
    None
}

/// A copy of a shape.
fn copy_shape(s: &VariantShape) -> (r: VariantShape)
    ensures
        r@ == s@,
{
    match s {
        VariantShape::Unit => VariantShape::Unit,
        VariantShape::Tuple(n) => VariantShape::Tuple(*n),
        VariantShape::Struct(names) => {
            let mut out: Vec<String> = Vec::new();
            let mut i: usize = 0;
            while i < names.len()
                invariant
                    i <= names@.len(),
                    out@.len() == i,
                    forall|j: int| 0 <= j < i ==> out@[j]@ == names@[j]@,
                decreases names@.len() - i,
            {
                out.push(names[i].clone());
                i = i + 1;
            }
            proof {
                assert(string_texts(out@) =~= string_texts(names@));
            }
            VariantShape::Struct(out)
        },
    }
}

/// How to apply the value `other` (an enum value's variant name and shape, or the
/// kind of a value that is not an enum) to an enum value with variant `name` shaped
/// `target`.
pub fn enum_apply_plan(
    name: &str,
    target: &VariantShape,
    other: Result<(&str, &VariantShape), ReflectKind>,
) -> (r: Result<EnumApplyPlan, ApplyError>)
    ensures
        plan_view(r) == spec_enum_apply_plan(name@, target@, other_view(other)),
{
    let (other_name, other_shape) = match other {
        Err(kind) => {
            return Err(ApplyError::MismatchedKinds { from_kind: kind, to_kind: ReflectKind::Enum });
        },
        Ok(p) => p,
    };
    if !str_eq(name, other_name) {
        return Ok(EnumApplyPlan::ReplaceVariant(copy_shape(other_shape)));
    }
    let mut pairs: Vec<(usize, usize)> = Vec::new();
    match other_shape {
        VariantShape::Unit => {
            proof {
                assert(pairs@ =~= spec_apply_pairs(target@, other_shape@));
            }
        },
        VariantShape::Tuple(m) => {
            let n: usize = match target {
                VariantShape::Unit => 0,
                VariantShape::Tuple(n) => *n,
                VariantShape::Struct(names) => names.len(),
            };
            let bound: usize = if *m <= n { *m } else { n };
            let mut j: usize = 0;
            while j < bound
                invariant
                    j <= bound,
                    pairs@.len() == j,
                    forall|k: int| 0 <= k < j ==> pairs@[k] == (k as usize, k as usize),
                decreases bound - j,
            {
                pairs.push((j, j));
                j = j + 1;
            }
            proof {
                assert(shape_len(target@) == n as nat);
                assert(pairs@ =~= spec_apply_pairs(target@, other_shape@));
            }
        },
        VariantShape::Struct(on) => {
            match target {
                VariantShape::Struct(sn) => {
                    let mut j: usize = 0;
                    while j < on.len()
                        invariant
                            j <= on@.len(),
                            pairs@ == struct_pairs(string_texts(sn@), string_texts(on@), j as nat),
                        decreases on@.len() - j,
                    {
                        let found = last_name_index(sn, &on[j]);
                        proof {
                            assert(string_texts(on@)[j as int] == on@[j as int]@);
                        }
                        match found {
                            Some(i) => {
                                pairs.push((j, i));
                            },
                            None => {},
                        }
                        j = j + 1;
                    }
                },
                _ => {
                    proof {
                        assert(pairs@ =~= spec_apply_pairs(target@, other_shape@));
                    }
                },
            }
        },
    }
    Ok(EnumApplyPlan::ApplyFields(pairs))
}

/// Applying a value whose variant has the same name and unnamed fields pairs each
/// position that both the value and the target have with itself, and nothing else.
pub proof fn law_tuple_apply_positions(name: Seq<char>, target: ShapeView, m: nat)
    requires
        m <= usize::MAX,
    ensures
        spec_enum_apply_plan(name, target, Ok((name, ShapeView::Tuple(m)))) matches Ok(PlanView::ApplyFields(p))
            && (forall|j: usize| j < m && j < shape_len(target) ==> #[trigger] p.contains((j, j)))
            && (forall|t: (usize, usize)| p.contains(t) ==> t.0 == t.1 && t.0 < m && t.0 < shape_len(target)),
        spec_apply_pairs(target, ShapeView::Tuple(m)) == same_positions(min_nat(m, shape_len(target))),
{
    let p = spec_apply_pairs(target, ShapeView::Tuple(m));
    assert forall|j: usize| j < m && j < shape_len(target) implies #[trigger] p.contains((j, j)) by {
        assert(p[j as int] == (j, j));
    }
    assert forall|t: (usize, usize)| p.contains(t) implies t.0 == t.1 && t.0 < m && t.0 < shape_len(target) by {
        let k = choose|k: int| 0 <= k < p.len() && p[k] == t;
        assert(p[k] == (k as usize, k as usize));
    }
    assert(p =~= same_positions(min_nat(m, shape_len(target))));
}

} // verus!
