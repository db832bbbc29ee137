use vstd::prelude::*;
use vstd::string::*;

use crate::access::accessor::{AccessError, AccessorView, OffsetAccessor, spec_accessor_text};
use crate::access::path::{ParseError, spec_parse_error_text};
use crate::access::string_parser::{
    PathParser, SpecParseFault, lemma_step_advances, spec_fault_message, spec_parse_from,
    spec_parse_path, spec_step,
};

verus! {

/// An error returned from a failed path access.
#[derive(Debug, PartialEq, Eq)]
pub enum PathAccessError<'a> {
    /// The path text could not be read; see [`ParseError`].
    ParseError(ParseError<'a>),
    /// An accessor of the path could not be applied; see [`AccessError`].
    AccessError(AccessError),
    /// The value reached by the path is not of the requested type.
    InvalidDowncast,
}

impl<'a> PathAccessError<'a> {
    /// The displayed form of this error.
    pub fn to_string(&self) -> (r: String)
        ensures
            match self {
                PathAccessError::ParseError(e) => r@ == spec_parse_error_text(
                    e.offset,
                    e.path@,
                    e.error@,
                ),
                PathAccessError::AccessError(e) => r@ == e.spec_text(),
                PathAccessError::InvalidDowncast => r@
                    == "Can't downcast result of access to the given type"@,
            },
    {
        match self {
            PathAccessError::ParseError(e) => e.to_string(),
            PathAccessError::AccessError(e) => e.to_string(),
            PathAccessError::InvalidDowncast => String::from_str(
                "Can't downcast result of access to the given type",
            ),
        }
    }
}

impl<'a> From<ParseError<'a>> for PathAccessError<'a> {
    fn from(value: ParseError<'a>) -> (r: Self) {
        PathAccessError::ParseError(value)
    }
}

impl<'a> vstd::std_specs::convert::FromSpecImpl<ParseError<'a>> for PathAccessError<'a> {
    open spec fn obeys_from_spec() -> bool {
        true
    }

    open spec fn from_spec(v: ParseError<'a>) -> Self {
        PathAccessError::ParseError(v)
    }
}

impl<'a> From<AccessError> for PathAccessError<'a> {
    fn from(value: AccessError) -> (r: Self) {
        PathAccessError::AccessError(value)
    }
}

impl<'a> vstd::std_specs::convert::FromSpecImpl<AccessError> for PathAccessError<'a> {
    open spec fn obeys_from_spec() -> bool {
        true
    }

    open spec fn from_spec(v: AccessError) -> Self {
        PathAccessError::AccessError(v)
    }
}

/// A reusable path: the accessors of a path text, read once.
#[derive(Debug, Clone, PartialEq, Eq, PartialOrd, Ord, Hash)]
pub struct PathAccessor(Vec<OffsetAccessor>);

/// The views of a sequence of accessors.
pub open spec fn accessor_views(v: Seq<OffsetAccessor>) -> Seq<(AccessorView, Option<usize>)> {
    v.map_values(|x: OffsetAccessor| x@)
}

impl View for PathAccessor {
    type V = Seq<(AccessorView, Option<usize>)>;

    closed spec fn view(&self) -> Seq<(AccessorView, Option<usize>)> {
        accessor_views(self.0@)
    }
}

impl From<Vec<OffsetAccessor>> for PathAccessor {
    fn from(value: Vec<OffsetAccessor>) -> (r: Self) {
        PathAccessor(value)
    }
}

impl vstd::std_specs::convert::FromSpecImpl<Vec<OffsetAccessor>> for PathAccessor {
    open spec fn obeys_from_spec() -> bool {
        true
    }

    closed spec fn from_spec(v: Vec<OffsetAccessor>) -> Self {
        PathAccessor(v)
    }
}


/// Extends the accessors `prefix` by the outcome `r` of reading the rest of a path.
pub open spec fn prepend<E>(prefix: Seq<(AccessorView, Option<usize>)>, r: Result<Seq<(AccessorView, Option<usize>)>, E>) -> Result<Seq<(AccessorView, Option<usize>)>, E> {
    match r {
        Ok(rest) => Ok(prefix + rest),
        Err(e) => Err(e),
    }
}

/// The outcome of reading the path text `path` as a [`PathAccessor`]: its accessors,
/// or the error at the first accessor that could not be read.
pub open spec fn parse_result_matches<'a>(path: &'a str, r: Result<PathAccessor, ParseError<'a>>) -> bool {
    match spec_parse_path(path.spec_bytes()) {
        Ok(accs) => r matches Ok(pa) && pa@ == accs,
        Err((off, f)) => r matches Err(e) && e.offset == off && e.path == path && e.error@
            == spec_fault_message(path.spec_bytes(), f),
    }
}

impl PathAccessor {
    /// Reads a path text into a [`PathAccessor`].
    /// If the path is incorrect, returns the [`ParseError`] of its first faulty accessor.
    pub fn parse<'a>(path: &'a str) -> (r: Result<Self, ParseError<'a>>)
        ensures
            parse_result_matches(path, r),
    {
        let mut parser = PathParser::new(path);
        let ghost b = path.spec_bytes();
        let mut vc: Vec<OffsetAccessor> = Vec::new();
        proof {
            assert(accessor_views(vc@) =~= Seq::empty());
            assert(prepend(accessor_views(vc@), spec_parse_from(b, 0)) =~= spec_parse_from(b, 0));
        }
        loop
            invariant
                parser.wf(),
                parser.path() == path,
                b == path.spec_bytes(),
                spec_parse_path(b) == prepend(accessor_views(vc@), spec_parse_from(b, parser.pos())),
            decreases b.len() - parser.pos(),
        {
            let ghost pos = parser.pos();
            proof {
                parser.lemma_wf();
                lemma_step_advances(b, pos);
            }
            match parser.next() {
                None => {
                    proof {
                        assert(spec_parse_from(b, pos) == Ok::<Seq<(AccessorView, Option<usize>)>, (int, SpecParseFault)>(Seq::empty()));
                        assert(accessor_views(vc@) + Seq::empty() =~= accessor_views(vc@));
                    }
                    return Ok(PathAccessor(vc));
                },
                Some(Err(e)) => {
                    return Err(e);
                },
                Some(Ok(oa)) => {
                    let ghost old_vc = vc@;
                    vc.push(oa);
                    proof {
                        assert(accessor_views(vc@) =~= accessor_views(old_vc).push(oa@));
                        let rest = spec_parse_from(b, parser.pos());
                        match rest {
                            Ok(r) => {
                                assert(accessor_views(old_vc) + (seq![oa@] + r) =~= accessor_views(vc@) + r);
                            },
                            Err(_) => {},
                        }
                    }
                },
            }
        }
    }

    /// Reads a path text with `'static` lifetime into a [`PathAccessor`].
    /// If the path is incorrect, returns the [`ParseError`] of its first faulty accessor.
    pub fn parse_static(path: &'static str) -> (r: Result<Self, ParseError<'static>>)
        ensures
            parse_result_matches(path, r),
    {
        Self::parse(path)
    }

    /// The number of accessors.
    pub fn len(&self) -> (r: usize)
        ensures
            r == self@.len(),
    {
        self.0.len()
    }

    /// The accessors, in order.
    pub fn accessors(&self) -> (r: &Vec<OffsetAccessor>)
        ensures
            accessor_views(r@) == self@,
    {
        &self.0
    }

    /// The displayed form of this path: the path texts of its accessors, in order.
    pub fn to_string(&self) -> (r: String)
        ensures
            r@ == spec_path_text(self@),
    {
        let mut s = String::new();
        let mut i: usize = 0;
        while i < self.0.len()
            invariant
                0 <= i <= self.0@.len(),
                s@ == spec_path_text(self@.take(i as int)),
            decreases self.0@.len() - i,
        {
            let ghost before = s@;
            self.0[i].accessor.write_text(&mut s);
            proof {
                assert(self@.take(i + 1) =~= self@.take(i as int).push(self@[i as int]));
                lemma_path_text_push(self@.take(i as int), self@[i as int]);
                assert(self@[i as int] == self.0@[i as int]@);
            }
            i = i + 1;
        }
        proof {
            assert(self@.take(self.0@.len() as int) =~= self@);
        }
        s
    }
}

/// Reading a path has one outcome: two results that both match the reading of `path`
/// agree, so [`PathAccessor::parse_static`] gives what [`PathAccessor::parse`] gives.
pub proof fn law_parse_outcome_unique<'a>(
    path: &'a str,
    r1: Result<PathAccessor, ParseError<'a>>,
    r2: Result<PathAccessor, ParseError<'a>>,
)
    requires
        parse_result_matches(path, r1),
        parse_result_matches(path, r2),
    ensures
        r1 is Ok <==> r2 is Ok,
        r1 is Ok ==> r1->Ok_0@ == r2->Ok_0@,
        r1 is Err ==> (r1->Err_0.offset == r2->Err_0.offset && r1->Err_0.path == r2->Err_0.path
            && r1->Err_0.error@ == r2->Err_0.error@),
{
}

/// The path text of a sequence of accessors.
pub open spec fn spec_path_text(accs: Seq<(AccessorView, Option<usize>)>) -> Seq<char>
    decreases accs.len(),
{
    if accs.len() == 0 {
        Seq::empty()
    } else {
        spec_accessor_text(accs[0].0) + spec_path_text(accs.drop_first())
    }
}

/// The path text of accessors with one more at the end is the text of those accessors
/// followed by the text of the last one.
pub proof fn lemma_path_text_push(accs: Seq<(AccessorView, Option<usize>)>, a: (AccessorView, Option<usize>))
    ensures
        spec_path_text(accs.push(a)) == spec_path_text(accs) + spec_accessor_text(a.0),
    decreases accs.len(),
{
    if accs.len() == 0 {
        assert(accs.push(a).drop_first() =~= Seq::empty());
        assert(accs.push(a)[0] == a);
        assert(spec_path_text(accs.push(a).drop_first()) =~= Seq::empty());
        assert(spec_path_text(accs) =~= Seq::empty());
        assert(spec_path_text(accs.push(a)) =~= spec_accessor_text(a.0));
    } else {
        lemma_path_text_push(accs.drop_first(), a);
        assert(accs.push(a).drop_first() =~= accs.drop_first().push(a));
        assert(spec_path_text(accs.push(a)) =~= spec_path_text(accs) + spec_accessor_text(a.0));
    }
}

} // verus!
