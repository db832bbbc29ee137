use vstd::prelude::*;
use vstd::string::*;
use vstd::utf8::*;

use crate::access::accessor::{Accessor, AccessorView, OffsetAccessor};
use crate::access::path::ParseError;

verus! {

broadcast use vstd::utf8::group_utf8_lib;

// ---------------------------------------------------------------------------
// The path grammar over the UTF-8 bytes of a path text
// ---------------------------------------------------------------------------

/// The ASCII whitespace bytes that are skipped between tokens:
/// space, tab, line feed, form feed and carriage return.
pub open spec fn is_ascii_ws(b: u8) -> bool {
    b == 0x20 || b == 0x09 || b == 0x0A || b == 0x0C || b == 0x0D
}

/// The bytes of the four symbols of the path grammar: `.`, `#`, `[` and `]`.
pub open spec fn is_symbol(b: u8) -> bool {
    b == 0x2E || b == 0x23 || b == 0x5B || b == 0x5D
}

/// The first index at or after `i` that does not hold whitespace (or the end).
pub open spec fn skip_ws(b: Seq<u8>, i: int) -> int
    decreases b.len() - i,
{
    if i < 0 || i >= b.len() {
        i
    } else if is_ascii_ws(b[i]) {
        skip_ws(b, i + 1)
    } else {
        i
    }
}

/// The first index at or after `i` that holds a symbol (or the end).
pub open spec fn symbol_from(b: Seq<u8>, i: int) -> int
    decreases b.len() - i,
{
    if i < 0 || i >= b.len() {
        i
    } else if is_symbol(b[i]) {
        i
    } else {
        symbol_from(b, i + 1)
    }
}

/// The end of the range `[s, e)` once trailing whitespace is removed.
pub open spec fn trim_end(b: Seq<u8>, s: int, e: int) -> int
    decreases e - s,
{
    if e > s && is_ascii_ws(b[e - 1]) {
        trim_end(b, s, e - 1)
    } else {
        e
    }
}

/// A token of the path grammar; an identifier is given by its byte range.
pub enum SpecToken {
    Dot,
    Pound,
    OpenBracket,
    CloseBracket,
    Ident(int, int),
}

/// The token that starts at or after byte `pos`, with the byte index just after it,
/// or `None` when only whitespace remains.
///
/// An identifier runs up to the next symbol or the end, without its trailing whitespace.
pub open spec fn spec_next_token(b: Seq<u8>, pos: int) -> Option<(SpecToken, int)> {
    let s = skip_ws(b, pos);
    if s < 0 || s >= b.len() {
        None
    } else if b[s] == 0x2E {
        Some((SpecToken::Dot, s + 1))
    } else if b[s] == 0x23 {
        Some((SpecToken::Pound, s + 1))
    } else if b[s] == 0x5B {
        Some((SpecToken::OpenBracket, s + 1))
    } else if b[s] == 0x5D {
        Some((SpecToken::CloseBracket, s + 1))
    } else {
        let e = symbol_from(b, s);
        Some((SpecToken::Ident(s, trim_end(b, s, e)), e))
    }
}

pub open spec fn is_digit(c: u8) -> bool {
    0x30 <= c <= 0x39
}

/// The value of a sequence of decimal digits.
pub open spec fn digits_value(d: Seq<u8>) -> nat
    decreases d.len(),
{
    if d.len() == 0 {
        0
    } else {
        digits_value(d.drop_last()) * 10 + (d.last() - 0x30) as nat
    }
}

/// The digits of an unsigned integer text: the text without an optional leading `+`.
pub open spec fn unsigned_digits(d: Seq<u8>) -> Seq<u8> {
    if d.len() > 0 && d[0] == 0x2B {
        d.drop_first()
    } else {
        d
    }
}

/// How `usize` is read from text: an optional `+`, then one or more decimal digits,
/// whose value fits in `usize`.
pub open spec fn spec_parse_usize(d: Seq<u8>) -> Option<usize> {
    spec_parse_usize_digits(unsigned_digits(d))
}

/// The text of the byte range `[s, e)`.
pub open spec fn range_text(b: Seq<u8>, s: int, e: int) -> Seq<char> {
    decode_utf8(b.subrange(s, e))
}

/// The accessor after a dot, for an identifier with UTF-8 bytes `d`: a tuple index
/// when the identifier reads as an unsigned integer, a field name otherwise.
pub open spec fn spec_field(d: Seq<u8>) -> AccessorView {
    match spec_parse_usize(d) {
        Some(i) => AccessorView::TupleIndex(i),
        None => AccessorView::FieldName(decode_utf8(d)),
    }
}

/// What went wrong while reading a path.
pub enum SpecParseFault {
    NoIdent,
    IsNotIdent(SpecToken),
    UnexpectedIdent(int, int),
    InvalidIndex(int, int),
    Unclosed,
    BadClose(SpecToken),
    CloseBeforeOpen,
}

/// The identifier at or after `pos`, with the byte index after it.
pub open spec fn spec_next_ident(b: Seq<u8>, pos: int) -> (Result<(int, int), SpecParseFault>, int) {
    match spec_next_token(b, pos) {
        Some((SpecToken::Ident(s, e), p)) => (Ok((s, e)), p),
        Some((t, p)) => (Err(SpecParseFault::IsNotIdent(t)), p),
        None => (Err(SpecParseFault::NoIdent), pos),
    }
}

/// The accessor that `tok` starts, when the bytes after it begin at `pos`,
/// with the byte index after the accessor.
pub open spec fn spec_following(b: Seq<u8>, tok: SpecToken, pos: int) -> (
    Result<AccessorView, SpecParseFault>,
    int,
) {
    match tok {
        SpecToken::Dot => match spec_next_ident(b, pos) {
            (Ok((s, e)), p) => (Ok(spec_field(b.subrange(s, e))), p),
            (Err(f), p) => (Err(f), p),
        },
        SpecToken::Pound => match spec_next_ident(b, pos) {
            (Ok((s, e)), p) => match spec_parse_usize(b.subrange(s, e)) {
                Some(i) => (Ok(AccessorView::FieldIndex(i)), p),
                None => (Err(SpecParseFault::InvalidIndex(s, e)), p),
            },
            (Err(f), p) => (Err(f), p),
        },
        SpecToken::OpenBracket => match spec_next_ident(b, pos) {
            (Ok((s, e)), p) => match spec_parse_usize(b.subrange(s, e)) {
                Some(i) => match spec_next_token(b, p) {
                    Some((SpecToken::CloseBracket, p2)) => (Ok(AccessorView::ListIndex(i)), p2),
                    Some((t, p2)) => (Err(SpecParseFault::BadClose(t)), p2),
                    None => (Err(SpecParseFault::Unclosed), p),
                },
                None => (Err(SpecParseFault::InvalidIndex(s, e)), p),
            },
            (Err(f), p) => (Err(f), p),
        },
        SpecToken::CloseBracket => (Err(SpecParseFault::CloseBeforeOpen), pos),
        SpecToken::Ident(s, e) => (Err(SpecParseFault::UnexpectedIdent(s, e)), pos),
    }
}

/// The path text of a token.
pub open spec fn spec_token_text(b: Seq<u8>, t: SpecToken) -> Seq<char> {
    match t {
        SpecToken::Dot => "."@,
        SpecToken::Pound => "#"@,
        SpecToken::OpenBracket => "["@,
        SpecToken::CloseBracket => "]"@,
        SpecToken::Ident(s, e) => range_text(b, s, e),
    }
}

/// The message that describes a fault.
pub open spec fn spec_fault_message(b: Seq<u8>, f: SpecParseFault) -> Seq<char> {
    match f {
        SpecParseFault::NoIdent => "expected an identifier, but reached end of path string"@,
        SpecParseFault::IsNotIdent(t) => "expected an identifier, got '"@ + spec_token_text(b, t)
            + "' instead"@,
        SpecParseFault::UnexpectedIdent(s, e) => "expected a keyword ('#.[]'), got '"@ + range_text(
            b,
            s,
            e,
        ) + "' instead"@,
        SpecParseFault::InvalidIndex(s, e) => "failed to parse index as integer: "@ + range_text(
            b,
            s,
            e,
        ),
        SpecParseFault::Unclosed => "a '[' wasn't closed, reached end of path string before finding a ']'"@,
        SpecParseFault::BadClose(t) => "a '[' wasn't closed properly, got '"@ + spec_token_text(b, t)
            + "' instead"@,
        SpecParseFault::CloseBeforeOpen => "a ']' was found before an opening '['"@,
    }
}

/// One step of reading a path from byte `pos`: `None` when only whitespace remains;
/// otherwise the next accessor with its offset (the byte index just after its first
/// token), or the offset and fault of an error, together with the position to go on from.
pub open spec fn spec_step(b: Seq<u8>, pos: int) -> Option<(Result<(AccessorView, int), (int, SpecParseFault)>, int)> {
    match spec_next_token(b, pos) {
        None => None,
        Some((t, p)) => match spec_following(b, t, p) {
            (Ok(a), p2) => Some((Ok((a, p)), p2)),
            (Err(f), _) => Some((Err((p, f)), b.len() as int)),
        },
    }
}

/// All accessors of a path read from byte `pos`, or the first error.
pub open spec fn spec_parse_from(b: Seq<u8>, pos: int) -> Result<Seq<(AccessorView, Option<usize>)>, (int, SpecParseFault)>
    decreases b.len() - pos,
{
    if pos < 0 || pos > b.len() {
        Ok(Seq::empty())
    } else {
        match spec_step(b, pos) {
            None => Ok(Seq::empty()),
            Some((Err(x), _)) => Err(x),
            Some((Ok((a, off)), p2)) => {
                if pos < p2 <= b.len() {
                    match spec_parse_from(b, p2) {
                        Ok(rest) => Ok(seq![(a, Some(off as usize))] + rest),
                        Err(x) => Err(x),
                    }
                } else {
                    Ok(Seq::empty())
                }
            },
        }
    }
}

/// All accessors of the path whose UTF-8 bytes are `b`, or the first error.
pub open spec fn spec_parse_path(b: Seq<u8>) -> Result<Seq<(AccessorView, Option<usize>)>, (int, SpecParseFault)> {
    spec_parse_from(b, 0)
}


// ---------------------------------------------------------------------------
// Facts about the grammar
// ---------------------------------------------------------------------------

proof fn lemma_skip_ws(b: Seq<u8>, i: int)
    requires
        0 <= i <= b.len(),
    ensures
        i <= skip_ws(b, i) <= b.len(),
        skip_ws(b, i) < b.len() ==> !is_ascii_ws(b[skip_ws(b, i)]),
        forall|j: int| i <= j < skip_ws(b, i) ==> is_ascii_ws(#[trigger] b[j]),
    decreases b.len() - i,
{
    if i < b.len() && is_ascii_ws(b[i]) {
        lemma_skip_ws(b, i + 1);
    }
}

proof fn lemma_symbol_from(b: Seq<u8>, i: int)
    requires
        0 <= i <= b.len(),
    ensures
        i <= symbol_from(b, i) <= b.len(),
        symbol_from(b, i) < b.len() ==> is_symbol(b[symbol_from(b, i)]),
        forall|j: int| i <= j < symbol_from(b, i) ==> !is_symbol(#[trigger] b[j]),
    decreases b.len() - i,
{
    if i < b.len() && !is_symbol(b[i]) {
        lemma_symbol_from(b, i + 1);
    }
}

proof fn lemma_trim_end(b: Seq<u8>, s: int, e: int)
    requires
        0 <= s <= e <= b.len(),
    ensures
        s <= trim_end(b, s, e) <= e,
        trim_end(b, s, e) < e ==> is_ascii_ws(b[trim_end(b, s, e)]),
        trim_end(b, s, e) > s ==> !is_ascii_ws(b[trim_end(b, s, e) - 1]),
    decreases e - s,
{
    if e > s && is_ascii_ws(b[e - 1]) {
        lemma_trim_end(b, s, e - 1);
    }
}

/// In valid UTF-8, the byte after an ASCII byte starts a character.
proof fn lemma_no_continuation_after_ascii(b: Seq<u8>, i: int)
    requires
        valid_utf8(b),
        0 < i < b.len(),
        b[i - 1] < 0x80,
    ensures
        !is_continuation_byte(b[i]),
{
    assert(is_char_boundary(b, i - 1)) by {
        assert(!is_continuation_byte(b[i - 1]));
    }
    let rest = b.subrange(i - 1, b.len() as int);
    assert(valid_utf8(rest));
    assert(rest[0] == b[i - 1]);
    assert(valid_first_scalar(rest));
    assert(length_of_first_scalar(rest) == 1);
    let tail = pop_first_scalar(rest);
    assert(valid_utf8(tail));
    assert(tail =~= b.subrange(i, b.len() as int));
    assert(tail.len() > 0);
    assert(valid_first_scalar(tail));
    assert(tail[0] == b[i]);
}

/// A position that is the end, or holds a byte that starts a character.
pub open spec fn starts_char(b: Seq<u8>, i: int) -> bool {
    0 <= i <= b.len() && (i == b.len() || !is_continuation_byte(b[i]))
}

proof fn lemma_starts_char_boundary(b: Seq<u8>, i: int)
    requires
        valid_utf8(b),
        starts_char(b, i),
    ensures
        is_char_boundary(b, i),
{
    if i == b.len() {
        is_char_boundary_start_end_of_seq(b);
    } else {
        is_char_boundary_iff_not_is_continuation_byte(b, i);
    }
}

/// Every step that yields an accessor moves forward.
pub proof fn lemma_step_advances(b: Seq<u8>, pos: int)
    requires
        0 <= pos <= b.len(),
    ensures
        spec_step(b, pos) matches Some((r, p2)) ==> pos < p2 <= b.len(),
{
    lemma_skip_ws(b, pos);
    let s = skip_ws(b, pos);
    if s < b.len() {
        lemma_symbol_from(b, s);
        lemma_skip_ws(b, s + 1);
        match spec_next_token(b, pos) {
            Some((t, p)) => {
                assert(pos < p <= b.len());
                lemma_skip_ws(b, p);
                let s2 = skip_ws(b, p);
                if s2 < b.len() {
                    lemma_symbol_from(b, s2);
                    match spec_next_token(b, p) {
                        Some((t2, p3)) => {
                            lemma_skip_ws(b, p3);
                            let s3 = skip_ws(b, p3);
                            if s3 < b.len() {
                                lemma_symbol_from(b, s3);
                            }
                        },
                        None => {},
                    }
                }
            },
            None => {},
        }
    }
}


// ---------------------------------------------------------------------------
// Reading unsigned integers
// ---------------------------------------------------------------------------

proof fn lemma_digits_value_grows(d: Seq<u8>, i: int, j: int)
    requires
        0 <= i <= j <= d.len(),
        forall|k: int| 0 <= k < d.len() ==> is_digit(#[trigger] d[k]),
    ensures
        digits_value(d.subrange(0, i)) <= digits_value(d.subrange(0, j)),
    decreases j - i,
{
    if i < j {
        lemma_digits_value_grows(d, i, j - 1);
        assert(d.subrange(0, j).drop_last() =~= d.subrange(0, j - 1));
    }
}

/// Reads an unsigned integer: an optional `+`, then one or more decimal digits
/// whose value fits in `usize`.
pub fn parse_usize(d: &[u8]) -> (r: Option<usize>)
    ensures
        r == spec_parse_usize(d@),
{
    let n = d.len();
    let start: usize = if n > 0 && d[0] == 0x2B { 1 } else { 0 };
    let ghost digits = unsigned_digits(d@);
    proof {
        assert(digits =~= d@.subrange(start as int, n as int));
    }
    if start >= n {
        return None;
    }
    let mut acc: usize = 0;
    let mut i: usize = start;
    while i < n
        invariant
            start <= i <= n,
            n == d@.len(),
            digits =~= d@.subrange(start as int, n as int),
            digits.len() > 0,
            digits == unsigned_digits(d@),
            forall|k: int| 0 <= k < i - start ==> is_digit(#[trigger] digits[k]),
            acc as nat == digits_value(digits.subrange(0, i - start)),
        decreases n - i,
    {
        let c = d[i];
        proof {
            assert(c == digits[i - start]);
        }
        if c < 0x30 || c > 0x39 {
            proof {
                assert(!is_digit(digits[i - start]));
            }
            return None;
        }
        let dv: usize = (c - 0x30) as usize;
        let ghost prefix = digits.subrange(0, i + 1 - start);
        proof {
            assert(prefix.drop_last() =~= digits.subrange(0, i - start));
            assert(prefix.last() == c);
            assert(digits_value(prefix) == acc * 10 + dv);
        }
        match acc.checked_mul(10) {
            Some(m) => match m.checked_add(dv) {
                Some(v) => {
                    acc = v;
                },
                None => {
                    proof {
                        lemma_overflow_is_final(digits, i + 1 - start);
                    }
                    return None;
                },
            },
            None => {
                proof {
                    lemma_overflow_is_final(digits, i + 1 - start);
                }
                return None;
            },
        }
        i = i + 1;
    }
    proof {
        assert(digits.subrange(0, n - start) =~= digits);
    }
    Some(acc)
}

/// Once a prefix of the digits exceeds `usize::MAX`, the text does not read as a `usize`.
proof fn lemma_overflow_is_final(digits: Seq<u8>, j: int)
    requires
        0 < j <= digits.len(),
        digits_value(digits.subrange(0, j)) > usize::MAX,
    ensures
        spec_parse_usize_digits(digits) is None,
{
    if forall|k: int| 0 <= k < digits.len() ==> is_digit(#[trigger] digits[k]) {
        lemma_digits_value_grows(digits, j, digits.len() as int);
        assert(digits.subrange(0, digits.len() as int) =~= digits);
    }
}

/// The value of a sequence of one or more digits, when it fits in `usize`.
pub open spec fn spec_parse_usize_digits(digits: Seq<u8>) -> Option<usize> {
    if digits.len() > 0 && (forall|i: int| 0 <= i < digits.len() ==> is_digit(#[trigger] digits[i]))
        && digits_value(digits) <= usize::MAX {
        Some(digits_value(digits) as usize)
    } else {
        None
    }
}


// ---------------------------------------------------------------------------
// Identifiers and tokens
// ---------------------------------------------------------------------------

/// An identifier of a path text: a run of bytes up to the next symbol,
/// without surrounding whitespace.
pub struct Ident<'a>(pub &'a str);

impl<'a> Ident<'a> {
    /// The accessor that a dot followed by this identifier denotes: a text that reads
    /// as an unsigned integer becomes [`Accessor::TupleIndex`]; any other text, such as
    /// `1a2`, becomes [`Accessor::FieldName`].
    pub fn field(self) -> (r: Accessor)
        ensures
            r@ == spec_field(self.0.spec_bytes()),
    {
        match parse_usize(self.0.as_bytes()) {
            Some(index) => Accessor::TupleIndex(index),
            None => Accessor::FieldName(String::from_str(self.0)),
        }
    }

    /// The field index that a `#` followed by this identifier denotes.
    pub fn field_index(self) -> (r: Result<Accessor, InnerError<'a>>)
        ensures
            match spec_parse_usize(self.0.spec_bytes()) {
                Some(i) => r matches Ok(a) && a@ == AccessorView::FieldIndex(i),
                None => r matches Err(InnerError::InvalidIndex(id)) && id.0 == self.0,
            },
    {
        match parse_usize(self.0.as_bytes()) {
            Some(index) => Ok(Accessor::FieldIndex(index)),
            None => Err(InnerError::InvalidIndex(self)),
        }
    }

    /// The list index that a `[` followed by this identifier denotes.
    pub fn list_index(self) -> (r: Result<Accessor, InnerError<'a>>)
        ensures
            match spec_parse_usize(self.0.spec_bytes()) {
                Some(i) => r matches Ok(a) && a@ == AccessorView::ListIndex(i),
                None => r matches Err(InnerError::InvalidIndex(id)) && id.0 == self.0,
            },
    {
        match parse_usize(self.0.as_bytes()) {
            Some(index) => Ok(Accessor::ListIndex(index)),
            None => Err(InnerError::InvalidIndex(self)),
        }
    }
}

/// A token of a path text.
pub enum Token<'a> {
    Dot,
    Pound,
    OpenBracket,
    CloseBracket,
    Ident(Ident<'a>),
}

/// The symbol that a byte stands for.
pub open spec fn spec_symbol_token(byte: u8) -> Option<SpecToken> {
    if byte == 0x2E {
        Some(SpecToken::Dot)
    } else if byte == 0x23 {
        Some(SpecToken::Pound)
    } else if byte == 0x5B {
        Some(SpecToken::OpenBracket)
    } else if byte == 0x5D {
        Some(SpecToken::CloseBracket)
    } else {
        None
    }
}

/// `t` is the token `st` of the path text with UTF-8 bytes `b`.
pub open spec fn token_is(b: Seq<u8>, t: Token, st: SpecToken) -> bool {
    match (t, st) {
        (Token::Dot, SpecToken::Dot) => true,
        (Token::Pound, SpecToken::Pound) => true,
        (Token::OpenBracket, SpecToken::OpenBracket) => true,
        (Token::CloseBracket, SpecToken::CloseBracket) => true,
        (Token::Ident(id), SpecToken::Ident(s, e)) => 0 <= s <= e <= b.len() && id.0.spec_bytes()
            == b.subrange(s, e),
        _ => false,
    }
}

/// The grammar symbol that a symbol token stands for; `None` for an identifier.
pub open spec fn symbol_kind(t: Token) -> Option<SpecToken> {
    match t {
        Token::Dot => Some(SpecToken::Dot),
        Token::Pound => Some(SpecToken::Pound),
        Token::OpenBracket => Some(SpecToken::OpenBracket),
        Token::CloseBracket => Some(SpecToken::CloseBracket),
        Token::Ident(_) => None,
    }
}

/// The path text of a token.
pub open spec fn spec_token_str(t: Token) -> Seq<char> {
    match t {
        Token::Dot => "."@,
        Token::Pound => "#"@,
        Token::OpenBracket => "["@,
        Token::CloseBracket => "]"@,
        Token::Ident(id) => id.0@,
    }
}

impl<'a> Token<'a> {
    /// The symbol token that a byte stands for, if any.
    pub fn symbol_from_byte(byte: u8) -> (r: Option<Token<'a>>)
        ensures
            match r {
                Some(t) => t !is Ident && spec_symbol_token(byte) == symbol_kind(t),
                None => spec_symbol_token(byte) is None,
            },
    {
        if byte == 0x2E {
            Some(Token::Dot)
        } else if byte == 0x23 {
            Some(Token::Pound)
        } else if byte == 0x5B {
            Some(Token::OpenBracket)
        } else if byte == 0x5D {
            Some(Token::CloseBracket)
        } else {
            None
        }
    }

    /// The path text of this token.
    pub fn text(&self) -> (r: &'a str)
        ensures
            r@ == spec_token_str(*self),
    {
        match self {
            Token::Dot => ".",
            Token::Pound => "#",
            Token::OpenBracket => "[",
            Token::CloseBracket => "]",
            Token::Ident(id) => id.0,
        }
    }
}

/// What went wrong while reading a path text.
pub enum InnerError<'a> {
    NoIdent,
    IsNotIdent(Token<'a>),
    UnexpectedIdent(Ident<'a>),
    InvalidIndex(Ident<'a>),
    Unclosed,
    BadClose(Token<'a>),
    CloseBeforeOpen,
}

/// `x` is the fault `f` of the path text with UTF-8 bytes `b`.
pub open spec fn fault_is(b: Seq<u8>, x: InnerError, f: SpecParseFault) -> bool {
    match (x, f) {
        (InnerError::NoIdent, SpecParseFault::NoIdent) => true,
        (InnerError::IsNotIdent(t), SpecParseFault::IsNotIdent(st)) => token_is(b, t, st),
        (InnerError::UnexpectedIdent(id), SpecParseFault::UnexpectedIdent(s, e)) => token_is(
            b,
            Token::Ident(id),
            SpecToken::Ident(s, e),
        ),
        (InnerError::InvalidIndex(id), SpecParseFault::InvalidIndex(s, e)) => token_is(
            b,
            Token::Ident(id),
            SpecToken::Ident(s, e),
        ),
        (InnerError::Unclosed, SpecParseFault::Unclosed) => true,
        (InnerError::BadClose(t), SpecParseFault::BadClose(st)) => token_is(b, t, st),
        (InnerError::CloseBeforeOpen, SpecParseFault::CloseBeforeOpen) => true,
        _ => false,
    }
}

/// The message that describes an error, over the texts of its tokens.
pub open spec fn spec_error_message(x: InnerError) -> Seq<char> {
    match x {
        InnerError::NoIdent => "expected an identifier, but reached end of path string"@,
        InnerError::IsNotIdent(t) => "expected an identifier, got '"@ + spec_token_str(t) + "' instead"@,
        InnerError::UnexpectedIdent(id) => "expected a keyword ('#.[]'), got '"@ + id.0@ + "' instead"@,
        InnerError::InvalidIndex(id) => "failed to parse index as integer: "@ + id.0@,
        InnerError::Unclosed => "a '[' wasn't closed, reached end of path string before finding a ']'"@,
        InnerError::BadClose(t) => "a '[' wasn't closed properly, got '"@ + spec_token_str(t) + "' instead"@,
        InnerError::CloseBeforeOpen => "a ']' was found before an opening '['"@,
    }
}

impl<'a> InnerError<'a> {
    /// The message that describes this error.
    pub fn as_cow(&self) -> (r: String)
        ensures
            r@ == spec_error_message(*self),
    {
        match self {
            InnerError::NoIdent => String::from_str(
                "expected an identifier, but reached end of path string",
            ),
            InnerError::IsNotIdent(token) => {
                let mut s = String::from_str("expected an identifier, got '");
                s.append(token.text());
                s.append("' instead");
                s
            },
            InnerError::UnexpectedIdent(ident) => {
                let mut s = String::from_str("expected a keyword ('#.[]'), got '");
                s.append(ident.0);
                s.append("' instead");
                s
            },
            InnerError::InvalidIndex(ident) => {
                let mut s = String::from_str("failed to parse index as integer: ");
                s.append(ident.0);
                s
            },
            InnerError::Unclosed => String::from_str(
                "a '[' wasn't closed, reached end of path string before finding a ']'",
            ),
            InnerError::BadClose(token) => {
                let mut s = String::from_str("a '[' wasn't closed properly, got '");
                s.append(token.text());
                s.append("' instead");
                s
            },
            InnerError::CloseBeforeOpen => String::from_str("a ']' was found before an opening '['"),
        }
    }
}


// ---------------------------------------------------------------------------
// The parser
// ---------------------------------------------------------------------------

fn is_ws_byte(c: u8) -> (r: bool)
    ensures
        r == is_ascii_ws(c),
{
    c == 0x20 || c == 0x09 || c == 0x0A || c == 0x0C || c == 0x0D
}

fn is_symbol_byte(c: u8) -> (r: bool)
    ensures
        r == is_symbol(c),
{
    c == 0x2E || c == 0x23 || c == 0x5B || c == 0x5D
}

/// A one-pass reader of the accessors of a path text.
pub struct PathParser<'a> {
    path: &'a str,
    bytes: &'a [u8],
    pos: usize,
}

impl<'a> PathParser<'a> {
    /// The path text being read.
    pub closed spec fn path(&self) -> &'a str {
        self.path
    }

    /// The UTF-8 bytes of the path text.
    pub open spec fn bytes(&self) -> Seq<u8> {
        self.path().spec_bytes()
    }

    /// The byte position from which reading goes on.
    pub closed spec fn pos(&self) -> int {
        self.pos as int
    }

    pub closed spec fn wf(&self) -> bool {
        &&& self.bytes@ == self.path.spec_bytes()
        &&& starts_char(self.bytes@, self.pos as int)
    }

    /// A well-formed reader is within its text, which is valid UTF-8.
    pub proof fn lemma_wf(&self)
        requires
            self.wf(),
        ensures
            0 <= self.pos() <= self.bytes().len(),
            valid_utf8(self.bytes()),
    {
    }

    /// A reader positioned at the start of `path`.
    pub fn new(path: &'a str) -> (r: Self)
        ensures
            r.wf(),
            r.path() == path,
            r.pos() == 0,
    {
        let bytes = path.as_bytes();
        proof {
            if bytes@.len() > 0 {
                is_char_boundary_start_end_of_seq(bytes@);
                is_char_boundary_iff_not_is_continuation_byte(bytes@, 0);
            }
        }
        PathParser { path, bytes, pos: 0 }
    }

    /// The next token, skipping whitespace before it; an identifier is returned without
    /// its trailing whitespace. When only whitespace remains, the position does not move.
    pub fn next_token(&mut self) -> (r: Option<Token<'a>>)
        requires
            old(self).wf(),
        ensures
            final(self).wf(),
            final(self).path() == old(self).path(),
            match spec_next_token(old(self).bytes(), old(self).pos()) {
                None => r is None && final(self).pos() == old(self).pos(),
                Some((st, p)) => r matches Some(t) && token_is(old(self).bytes(), t, st)
                    && final(self).pos() == p,
            },
    {
        let b = self.bytes;
        let n = b.len();
        let ghost bs = b@;
        let ghost p0 = self.pos as int;
        proof {
            lemma_skip_ws(bs, p0);
        }
        let mut i = self.pos;
        while i < n && is_ws_byte(b[i])
            invariant
                n == bs.len(),
                bs == b@,
                p0 <= i <= n,
                skip_ws(bs, i as int) == skip_ws(bs, p0),
                forall|j: int| p0 <= j < i ==> is_ascii_ws(#[trigger] bs[j]),
            decreases n - i,
        {
            i = i + 1;
        }
        proof {
            assert(skip_ws(bs, i as int) == i);
        }
        if i >= n {
            return None;
        }
        let c = b[i];
        let sym = Token::symbol_from_byte(c);
        match sym {
            Some(t) => {
                proof {
                    if i + 1 < n {
                        lemma_no_continuation_after_ascii(bs, i + 1);
                    }
                }
                self.pos = i + 1;
                return Some(t);
            },
            None => {},
        }
        let mut e = i;
        proof {
            lemma_symbol_from(bs, i as int);
        }
        while e < n && !is_symbol_byte(b[e])
            invariant
                n == bs.len(),
                bs == b@,
                i <= e <= n,
                symbol_from(bs, e as int) == symbol_from(bs, i as int),
            decreases n - e,
        {
            e = e + 1;
        }
        proof {
            assert(symbol_from(bs, e as int) == e);
        }
        let mut t = e;
        while t > i && is_ws_byte(b[t - 1])
            invariant
                n == bs.len(),
                bs == b@,
                i <= t <= e <= n,
                trim_end(bs, i as int, t as int) == trim_end(bs, i as int, e as int),
                t < e ==> is_ascii_ws(bs[t as int]),
            decreases t - i,
        {
            t = t - 1;
        }
        proof {
            assert(trim_end(bs, i as int, t as int) == t);
            // the identifier starts a character
            assert(starts_char(bs, i as int)) by {
                if i as int != p0 {
                    assert(is_ascii_ws(bs[i - 1]));
                    lemma_no_continuation_after_ascii(bs, i as int);
                }
            }
            lemma_starts_char_boundary(bs, i as int);
        }
        let (_, rest) = self.path.split_at(i);
        let ghost rb = rest.spec_bytes();
        proof {
            assert(rb =~= bs.subrange(i as int, n as int));
            assert(valid_utf8(rb));
            assert(starts_char(rb, t - i)) by {
                if t < n {
                    assert(rb[t - i] == bs[t as int]);
                }
            }
            lemma_starts_char_boundary(rb, t - i);
        }
        let (ident, _) = rest.split_at(t - i);
        proof {
            assert(ident.spec_bytes() =~= bs.subrange(i as int, t as int));
            if e < n {
                assert(is_symbol(bs[e as int]));
            }
        }
        self.pos = e;
        Some(Token::Ident(Ident(ident)))
    }

    /// The next identifier.
    pub fn next_ident(&mut self) -> (r: Result<Ident<'a>, InnerError<'a>>)
        requires
            old(self).wf(),
        ensures
            final(self).wf(),
            final(self).path() == old(self).path(),
            ({
                let (sr, p) = spec_next_ident(old(self).bytes(), old(self).pos());
                &&& final(self).pos() == p
                &&& match sr {
                    Ok((s, e)) => r matches Ok(id) && token_is(
                        old(self).bytes(),
                        Token::Ident(id),
                        SpecToken::Ident(s, e),
                    ),
                    Err(f) => r matches Err(x) && fault_is(old(self).bytes(), x, f),
                }
            }),
    {
        match self.next_token() {
            Some(Token::Ident(ident)) => Ok(ident),
            Some(other) => Err(InnerError::IsNotIdent(other)),
            None => Err(InnerError::NoIdent),
        }
    }

    /// The accessor that `token` starts, reading what follows it.
    pub fn following_accessor(&mut self, token: Token<'a>) -> (r: Result<Accessor, InnerError<'a>>)
        requires
            old(self).wf(),
        ensures
            final(self).wf(),
            final(self).path() == old(self).path(),
            match symbol_kind(token) {
                None => final(self).pos() == old(self).pos() && (r matches Err(
                    InnerError::UnexpectedIdent(x),
                ) && token matches Token::Ident(id) && x.0 == id.0),
                Some(st) => {
                    let (sr, p) = spec_following(old(self).bytes(), st, old(self).pos());
                    &&& final(self).pos() == p
                    &&& match sr {
                        Ok(a) => r matches Ok(acc) && acc@ == a,
                        Err(f) => r matches Err(x) && fault_is(old(self).bytes(), x, f),
                    }
                },
            },
    {
        let ghost b = self.bytes();
        match token {
            Token::Dot => match self.next_ident() {
                Ok(ident) => Ok(ident.field()),
                Err(x) => Err(x),
            },
            Token::Pound => match self.next_ident() {
                Ok(ident) => ident.field_index(),
                Err(x) => Err(x),
            },
            Token::OpenBracket => {
                let index_ident = match self.next_ident() {
                    Ok(ident) => match ident.list_index() {
                        Ok(a) => a,
                        Err(x) => {
                            return Err(x);
                        },
                    },
                    Err(x) => {
                        return Err(x);
                    },
                };
                match self.next_token() {
                    Some(Token::CloseBracket) => Ok(index_ident),
                    Some(other) => Err(InnerError::BadClose(other)),
                    None => Err(InnerError::Unclosed),
                }
            },
            Token::CloseBracket => Err(InnerError::CloseBeforeOpen),
            Token::Ident(ident) => Err(InnerError::UnexpectedIdent(ident)),
        }
    }

    /// Reads the next accessor. Returns `None` when only whitespace remains; after an
    /// error, the reader is at the end, so that every later call returns `None`.
    pub fn next(&mut self) -> (r: Option<Result<OffsetAccessor, ParseError<'a>>>)
        requires
            old(self).wf(),
        ensures
            final(self).wf(),
            final(self).path() == old(self).path(),
            match spec_step(old(self).bytes(), old(self).pos()) {
                None => r is None && final(self).pos() == old(self).pos(),
                Some((Ok((a, off)), p2)) => r matches Some(Ok(oa)) && oa@ == (a, Some(off as usize))
                    && final(self).pos() == p2,
                Some((Err((off, f)), p2)) => r matches Some(Err(e)) && e.offset == off && e.path
                    == old(self).path() && e.error@ == spec_fault_message(old(self).bytes(), f)
                    && final(self).pos() == p2,
            },
    {
        let ghost b = self.bytes();
        let ghost p0 = self.pos();
        let token = match self.next_token() {
            Some(t) => t,
            None => {
                return None;
            },
        };
        let offset = self.pos;
        proof {
            assert(spec_next_token(b, p0) is Some);
            let st = spec_next_token(b, p0).unwrap().0;
            assert(token_is(b, token, st));
            lemma_token_kind(b, token, st, self.pos());
            assert(b == self.bytes());
        }
        let res = self.following_accessor(token);
        match res {
            Ok(accessor) => Some(Ok(OffsetAccessor { accessor, offset: Some(offset) })),
            Err(err) => {
                self.pos = self.bytes.len();
                proof {
                    lemma_fault_message(b, err);
                }
                Some(Err(ParseError { offset, path: self.path, error: err.as_cow() }))
            },
        }
    }
}

/// A token of the text stands for its grammar symbol; an identifier token, read
/// further, gives the fault of an unexpected identifier.
proof fn lemma_token_kind(b: Seq<u8>, t: Token, st: SpecToken, pos: int)
    requires
        token_is(b, t, st),
    ensures
        symbol_kind(t) is Some ==> symbol_kind(t) == Some(st),
        t is Ident ==> (st is Ident && (spec_following(b, st, pos).0 matches Err(
            SpecParseFault::UnexpectedIdent(s, e),
        ) && token_is(b, t, SpecToken::Ident(s, e)))),
{
}

/// The message of an error is the message of the fault it stands for.
proof fn lemma_fault_message(b: Seq<u8>, x: InnerError)
    requires
        valid_utf8(b),
    ensures
        forall|f: SpecParseFault| #[trigger] fault_is(b, x, f) ==> spec_error_message(x) == spec_fault_message(b, f),
{
    assert forall|f: SpecParseFault| #[trigger] fault_is(b, x, f) implies spec_error_message(x) == spec_fault_message(b, f) by {
        match (x, f) {
            (InnerError::IsNotIdent(t), SpecParseFault::IsNotIdent(st)) => {
                lemma_token_text(b, t, st);
            },
            (InnerError::BadClose(t), SpecParseFault::BadClose(st)) => {
                lemma_token_text(b, t, st);
            },
            (InnerError::UnexpectedIdent(id), SpecParseFault::UnexpectedIdent(s, e)) => {
                lemma_token_text(b, Token::Ident(id), SpecToken::Ident(s, e));
            },
            (InnerError::InvalidIndex(id), SpecParseFault::InvalidIndex(s, e)) => {
                lemma_token_text(b, Token::Ident(id), SpecToken::Ident(s, e));
            },
            _ => {},
        }
    }
}

/// The text of a token is the text of the byte range it stands for.
proof fn lemma_token_text(b: Seq<u8>, t: Token, st: SpecToken)
    requires
        token_is(b, t, st),
    ensures
        spec_token_str(t) == spec_token_text(b, st),
{
    match (t, st) {
        (Token::Ident(id), SpecToken::Ident(s, e)) => {
            assert(decode_utf8(encode_utf8(id.0@)) == id.0@);
        },
        _ => {},
    }
}


// ---------------------------------------------------------------------------
// Laws of the grammar
// ---------------------------------------------------------------------------

/// Once the reader is at the end of the text, no step yields anything more; a reader
/// that met an error is at the end, so an error is always the last item read.
pub proof fn law_no_step_at_end(b: Seq<u8>)
    ensures
        spec_step(b, b.len() as int) is None,
{
}

/// An identifier token is not empty, neither begins nor ends with whitespace, holds no
/// symbol, and reaches up to the next symbol or the end of the text.
pub proof fn law_ident_token_shape(b: Seq<u8>, pos: int)
    requires
        0 <= pos <= b.len(),
    ensures
        spec_next_token(b, pos) matches Some((SpecToken::Ident(s, e), p)) ==> {
            &&& pos <= s < e <= p <= b.len()
            &&& !is_ascii_ws(b[s])
            &&& !is_ascii_ws(b[e - 1])
            &&& forall|j: int| s <= j < p ==> !is_symbol(#[trigger] b[j])
            &&& p < b.len() ==> is_symbol(b[p])
        },
{
    lemma_skip_ws(b, pos);
    let s = skip_ws(b, pos);
    if s < b.len() {
        lemma_symbol_from(b, s);
        let e = symbol_from(b, s);
        lemma_trim_end(b, s, e);
        if !is_symbol(b[s]) {
            assert(e > s);
            if trim_end(b, s, e) == s {
                assert(is_ascii_ws(b[s]));
            }
        }
    }
}

/// The offsets of the accessors read from `pos` lie after `pos` and within the text,
/// and strictly increase.
pub proof fn law_offsets_increase(b: Seq<u8>, pos: int)
    requires
        0 <= pos <= b.len(),
        b.len() <= usize::MAX,
    ensures
        spec_parse_from(b, pos) matches Ok(accs) ==> {
            &&& forall|i: int| 0 <= i < accs.len() ==> ((#[trigger] accs[i]).1 is Some && pos < accs[i].1->0 <= b.len())
            &&& forall|i: int, j: int| 0 <= i < j < accs.len() ==> (#[trigger] accs[i]).1->0 < (#[trigger] accs[j]).1->0
        },
    decreases b.len() - pos,
{
    lemma_step_advances(b, pos);
    match spec_step(b, pos) {
        Some((Ok((a, off)), p2)) => {
            lemma_offset_before_next(b, pos);
            if pos < p2 <= b.len() {
                law_offsets_increase(b, p2);
                match spec_parse_from(b, p2) {
                    Ok(rest) => {
                        let accs = seq![(a, Some(off as usize))] + rest;
                        assert(spec_parse_from(b, pos) == Ok::<Seq<(AccessorView, Option<usize>)>, (int, SpecParseFault)>(accs));
                        assert forall|i: int| 0 <= i < accs.len() implies ((#[trigger] accs[i]).1 is Some && pos < accs[i].1->0 <= b.len()) by {
                            if i > 0 {
                                assert(accs[i] == rest[i - 1]);
                            }
                        }
                        assert forall|i: int, j: int| 0 <= i < j < accs.len() implies (#[trigger] accs[i]).1->0 < (#[trigger] accs[j]).1->0 by {
                            assert(accs[j] == rest[j - 1]);
                            if i > 0 {
                                assert(accs[i] == rest[i - 1]);
                            }
                        }
                    },
                    Err(_) => {},
                }
            }
        },
        _ => {},
    }
}

/// The offset of an accessor lies after `pos`, and at or before the position reading
/// goes on from.
proof fn lemma_offset_before_next(b: Seq<u8>, pos: int)
    requires
        0 <= pos <= b.len(),
    ensures
        spec_step(b, pos) matches Some((Ok((a, off)), p2)) ==> pos < off <= p2,
{
    lemma_skip_ws(b, pos);
    let s = skip_ws(b, pos);
    if s < b.len() {
        lemma_symbol_from(b, s);
        match spec_next_token(b, pos) {
            Some((t, p)) => {
                lemma_skip_ws(b, p);
                let s2 = skip_ws(b, p);
                if s2 < b.len() {
                    lemma_symbol_from(b, s2);
                    match spec_next_token(b, p) {
                        Some((t2, p3)) => {
                            lemma_skip_ws(b, p3);
                            let s3 = skip_ws(b, p3);
                            if s3 < b.len() {
                                lemma_symbol_from(b, s3);
                            }
                        },
                        None => {},
                    }
                }
            },
            None => {},
        }
    }
}

/// The byte just before the offset of each accessor read is the symbol that starts
/// it: `.` for a field name or a tuple index, `#` for a field index, `[` for a list
/// index.
pub proof fn law_offset_follows_symbol(b: Seq<u8>, pos: int)
    requires
        0 <= pos <= b.len(),
    ensures
        spec_step(b, pos) matches Some((Ok((a, off)), _)) ==> {
            &&& 1 <= off <= b.len()
            &&& match a {
                AccessorView::FieldName(_) => b[off - 1] == 0x2E,
                AccessorView::TupleIndex(_) => b[off - 1] == 0x2E,
                AccessorView::FieldIndex(_) => b[off - 1] == 0x23,
                AccessorView::ListIndex(_) => b[off - 1] == 0x5B,
            }
        },
{
    lemma_skip_ws(b, pos);
}

/// Reading yields nothing more exactly when the rest of the text is empty or only
/// whitespace.
pub proof fn law_step_none_iff_blank(b: Seq<u8>, pos: int)
    requires
        0 <= pos <= b.len(),
    ensures
        (spec_step(b, pos) is None) == (forall|j: int| pos <= j < b.len() ==> is_ascii_ws(#[trigger] b[j])),
{
    lemma_skip_ws(b, pos);
    let s = skip_ws(b, pos);
    if s < b.len() {
        lemma_symbol_from(b, s);
        assert(!is_ascii_ws(b[s]));
    }
}

/// The items that repeated reading from byte `pos` yields, until it yields nothing.
pub open spec fn spec_reader_items(b: Seq<u8>, pos: int) -> Seq<Result<(AccessorView, int), (int, SpecParseFault)>>
    decreases b.len() - pos,
{
    if pos < 0 || pos > b.len() {
        Seq::empty()
    } else {
        match spec_step(b, pos) {
            None => Seq::empty(),
            Some((item, p2)) => if pos < p2 <= b.len() {
                seq![item] + spec_reader_items(b, p2)
            } else {
                seq![item]
            },
        }
    }
}

/// The accessors of a sequence of read items, with their offsets, or the first error.
pub open spec fn spec_collect(items: Seq<Result<(AccessorView, int), (int, SpecParseFault)>>) -> Result<Seq<(AccessorView, Option<usize>)>, (int, SpecParseFault)>
    decreases items.len(),
{
    if items.len() == 0 {
        Ok(Seq::empty())
    } else {
        match items[0] {
            Err(x) => Err(x),
            Ok((a, off)) => match spec_collect(items.drop_first()) {
                Ok(rest) => Ok(seq![(a, Some(off as usize))] + rest),
                Err(x) => Err(x),
            },
        }
    }
}

/// Parsing a path gives exactly the accessors that reading it item by item yields,
/// in order, or the first error that reading meets; an error is the last item read.
pub proof fn law_parse_collects_reader_items(b: Seq<u8>, pos: int)
    requires
        0 <= pos <= b.len(),
    ensures
        spec_parse_from(b, pos) == spec_collect(spec_reader_items(b, pos)),
        forall|i: int| 0 <= i < spec_reader_items(b, pos).len() - 1 ==> #[trigger] spec_reader_items(b, pos)[i] is Ok,
    decreases b.len() - pos,
{
    lemma_step_advances(b, pos);
    let items = spec_reader_items(b, pos);
    match spec_step(b, pos) {
        None => {},
        Some((item, p2)) => {
            law_parse_collects_reader_items(b, p2);
            let rest = spec_reader_items(b, p2);
            assert(items == seq![item] + rest);
            assert(items.drop_first() =~= rest);
            match item {
                Err(_) => {
                    assert(p2 == b.len());
                    law_no_step_at_end(b);
                    assert(rest =~= Seq::empty());
                },
                Ok(_) => {
                    assert forall|i: int| 0 <= i < items.len() - 1 implies #[trigger] items[i] is Ok by {
                        if i > 0 {
                            assert(items[i] == rest[i - 1]);
                        }
                    }
                },
            }
        },
    }
}

/// An error is reported at an offset within the text, after where reading started,
/// and leaves the reader at the end of the text.
pub proof fn law_error_offset_within(b: Seq<u8>, pos: int)
    requires
        0 <= pos <= b.len(),
    ensures
        spec_step(b, pos) matches Some((Err((off, f)), p2)) ==> pos < off <= b.len() && 1 <= off
            && p2 == b.len(),
{
    lemma_skip_ws(b, pos);
    let s = skip_ws(b, pos);
    if s < b.len() {
        lemma_symbol_from(b, s);
    }
}

/// The offset of a read item, accessor or error.
pub open spec fn item_offset(item: Result<(AccessorView, int), (int, SpecParseFault)>) -> int {
    match item {
        Ok((_, off)) => off,
        Err((off, _)) => off,
    }
}

/// The offsets of the items that successive reads from `pos` yield, accessors and
/// errors alike, lie after `pos` and within the text, and strictly increase.
pub proof fn law_reader_offsets_increase(b: Seq<u8>, pos: int)
    requires
        0 <= pos <= b.len(),
    ensures
        forall|i: int| 0 <= i < spec_reader_items(b, pos).len() ==> pos < item_offset(
            #[trigger] spec_reader_items(b, pos)[i],
        ) <= b.len(),
        forall|i: int, j: int| 0 <= i < j < spec_reader_items(b, pos).len() ==> item_offset(
            #[trigger] spec_reader_items(b, pos)[i],
        ) < item_offset(#[trigger] spec_reader_items(b, pos)[j]),
    decreases b.len() - pos,
{
    lemma_step_advances(b, pos);
    lemma_offset_before_next(b, pos);
    law_error_offset_within(b, pos);
    let items = spec_reader_items(b, pos);
    match spec_step(b, pos) {
        None => {},
        Some((item, p2)) => {
            law_reader_offsets_increase(b, p2);
            let rest = spec_reader_items(b, p2);
            assert(items == seq![item] + rest);
            assert(pos < item_offset(item) <= p2);
            assert forall|i: int| 0 <= i < items.len() implies pos < item_offset(#[trigger] items[i]) <= b.len() by {
                if i > 0 {
                    assert(items[i] == rest[i - 1]);
                }
            }
            assert forall|i: int, j: int| 0 <= i < j < items.len() implies item_offset(#[trigger] items[i]) < item_offset(#[trigger] items[j]) by {
                assert(items[j] == rest[j - 1]);
                if i > 0 {
                    assert(items[i] == rest[i - 1]);
                }
            }
        },
    }
}

} // verus!
