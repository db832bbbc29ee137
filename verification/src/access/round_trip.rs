use vstd::prelude::*;
use vstd::utf8::*;

use crate::access::accessor::{AccessorView, spec_accessor_text};
use crate::access::path_access::spec_path_text;
use crate::access::string_parser::{
    SpecParseFault, SpecToken,
    digits_value, is_ascii_ws, is_digit, is_symbol, skip_ws, spec_field, spec_next_token,
    spec_parse_from, spec_parse_path, spec_parse_usize, spec_step, symbol_from, trim_end,
    unsigned_digits, spec_parse_usize_digits,
};
use crate::text::{spec_decimal, spec_digit_char};

verus! {

broadcast use vstd::utf8::group_utf8_lib;

// ---------------------------------------------------------------------------
// UTF-8 encoding facts
// ---------------------------------------------------------------------------

/// The encoding of a concatenation is the concatenation of the encodings.
proof fn lemma_encode_concat(a: Seq<char>, b: Seq<char>)
    ensures
        encode_utf8(a + b) == encode_utf8(a) + encode_utf8(b),
    decreases a.len(),
{
    if a.len() == 0 {
        assert(a + b =~= b);
        assert(encode_utf8(a) =~= Seq::<u8>::empty());
        assert(encode_utf8(a) + encode_utf8(b) =~= encode_utf8(b));
    } else {
        lemma_encode_concat(a.drop_first(), b);
        assert((a + b).drop_first() =~= a.drop_first() + b);
        assert((a + b)[0] == a[0]);
        assert(encode_utf8(a + b) =~= encode_scalar(a[0] as u32) + (encode_utf8(a.drop_first())
            + encode_utf8(b)));
    }
}

proof fn lemma_encode_single(c: char)
    ensures
        encode_utf8(seq![c]) == encode_scalar(c as u32),
{
    assert(seq![c].drop_first() =~= Seq::<char>::empty());
    assert(encode_utf8(Seq::<char>::empty()) =~= Seq::<u8>::empty());
    assert(encode_scalar(c as u32) + Seq::<u8>::empty() =~= encode_scalar(c as u32));
}

/// An ASCII character is encoded as the single byte of its value; every byte of the
/// encoding of any other character is at least `0x80`.
proof fn lemma_encode_scalar_bytes(c: char)
    ensures
        encode_scalar(c as u32).len() >= 1,
        (c as u32) < 0x80 ==> encode_scalar(c as u32) == seq![(c as u32) as u8],
        (c as u32) >= 0x80 ==> forall|j: int|
            0 <= j < encode_scalar(c as u32).len() ==> #[trigger] encode_scalar(c as u32)[j] >= 0x80,
{
    let s = c as u32;
    if s < 0x80 {
        assert((s & 0x7F) as u8 == s as u8) by (bit_vector)
            requires
                s < 0x80,
        ;
    } else {
        assert(forall|x: u8| #![trigger (0x80u8 | x)] (0x80u8 | x) >= 0x80) by (bit_vector);
        assert(forall|x: u8| #![trigger (0xC0u8 | x)] (0xC0u8 | x) >= 0x80) by (bit_vector);
        assert(forall|x: u8| #![trigger (0xE0u8 | x)] (0xE0u8 | x) >= 0x80) by (bit_vector);
        assert(forall|x: u8| #![trigger (0xF0u8 | x)] (0xF0u8 | x) >= 0x80) by (bit_vector);
    }
}


/// The characters that stand for the symbols of the path grammar.
pub open spec fn is_symbol_char(c: char) -> bool {
    c == '.' || c == '#' || c == '[' || c == ']'
}

/// The whitespace characters that are skipped around tokens.
pub open spec fn is_ws_char(c: char) -> bool {
    c == ' ' || c == '\t' || c == '\n' || c == '\x0C' || c == '\r'
}

/// An ASCII character and its byte agree on being a symbol or whitespace.
proof fn lemma_ascii_char_byte(c: char)
    requires
        (c as u32) < 0x80,
    ensures
        is_symbol(((c as u32) as u8)) ==> is_symbol_char(c),
        is_ascii_ws(((c as u32) as u8)) ==> is_ws_char(c),
{
    let u = c as u32;
    let b = u as u8;
    assert(b as u32 == u);
    char_u32_cast(c, u);
    assert(('.' as u32) == 0x2E);
    assert(('#' as u32) == 0x23);
    assert(('[' as u32) == 0x5B);
    assert((']' as u32) == 0x5D);
    assert((' ' as u32) == 0x20);
    assert(('\t' as u32) == 0x09);
    assert(('\n' as u32) == 0x0A);
    assert(('\x0C' as u32) == 0x0C);
    assert(('\r' as u32) == 0x0D);
    if b == 0x2E {
        char_u32_cast('.', u);
    }
    if b == 0x23 {
        char_u32_cast('#', u);
    }
    if b == 0x5B {
        char_u32_cast('[', u);
    }
    if b == 0x5D {
        char_u32_cast(']', u);
    }
    if b == 0x20 {
        char_u32_cast(' ', u);
    }
    if b == 0x09 {
        char_u32_cast('\t', u);
    }
    if b == 0x0A {
        char_u32_cast('\n', u);
    }
    if b == 0x0C {
        char_u32_cast('\x0C', u);
    }
    if b == 0x0D {
        char_u32_cast('\r', u);
    }
}

/// The encoding of a text without symbol characters holds no symbol byte.
proof fn lemma_encode_no_symbol(n: Seq<char>)
    requires
        forall|k: int| 0 <= k < n.len() ==> !is_symbol_char(#[trigger] n[k]),
    ensures
        forall|j: int| 0 <= j < encode_utf8(n).len() ==> !is_symbol(#[trigger] encode_utf8(n)[j]),
    decreases n.len(),
{
    if n.len() > 0 {
        let c = n[0];
        assert(!is_symbol_char(c));
        lemma_encode_scalar_bytes(c);
        lemma_encode_no_symbol(n.drop_first());
        let e = encode_scalar(c as u32);
        let rest = encode_utf8(n.drop_first());
        if (c as u32) < 0x80 {
            lemma_ascii_char_byte(c);
        }
        assert(encode_utf8(n) == e + rest);
        assert forall|j: int| 0 <= j < encode_utf8(n).len() implies !is_symbol(
            #[trigger] encode_utf8(n)[j],
        ) by {
            if j < e.len() {
                assert(encode_utf8(n)[j] == e[j]);
            } else {
                assert(encode_utf8(n)[j] == rest[j - e.len()]);
            }
        }
    }
}

/// The first byte of the encoding of a non-empty text is not whitespace when its
/// first character is not.
proof fn lemma_encode_first_not_ws(n: Seq<char>)
    requires
        n.len() > 0,
        !is_ws_char(n[0]),
    ensures
        encode_utf8(n).len() > 0,
        !is_ascii_ws(encode_utf8(n)[0]),
{
    lemma_encode_scalar_bytes(n[0]);
    if (n[0] as u32) < 0x80 {
        lemma_ascii_char_byte(n[0]);
    }
    assert(encode_utf8(n) == encode_scalar(n[0] as u32) + encode_utf8(n.drop_first()));
    assert(encode_utf8(n)[0] == encode_scalar(n[0] as u32)[0]);
}

/// The last byte of the encoding of a non-empty text is not whitespace when its
/// last character is not.
proof fn lemma_encode_last_not_ws(n: Seq<char>)
    requires
        n.len() > 0,
        !is_ws_char(n.last()),
    ensures
        encode_utf8(n).len() > 0,
        !is_ascii_ws(encode_utf8(n).last()),
{
    let c = n.last();
    assert(n =~= n.drop_last() + seq![c]);
    lemma_encode_concat(n.drop_last(), seq![c]);
    lemma_encode_single(c);
    lemma_encode_scalar_bytes(c);
    if (c as u32) < 0x80 {
        lemma_ascii_char_byte(c);
    }
    let e = encode_scalar(c as u32);
    assert(encode_utf8(n) == encode_utf8(n.drop_last()) + e);
    assert(encode_utf8(n).last() == e.last());
}

proof fn lemma_digit_char(d: nat)
    requires
        d < 10,
    ensures
        (spec_digit_char(d) as u32) == 0x30 + d,
{
}

/// The encoding of the decimal text of `i` is a non-empty run of digits of value `i`.
proof fn lemma_decimal_bytes(i: nat)
    ensures
        encode_utf8(spec_decimal(i)).len() > 0,
        forall|j: int| 0 <= j < encode_utf8(spec_decimal(i)).len() ==> is_digit(
            #[trigger] encode_utf8(spec_decimal(i))[j],
        ),
        digits_value(encode_utf8(spec_decimal(i))) == i,
    decreases i,
{
    let c = spec_digit_char(i % 10);
    lemma_digit_char(i % 10);
    lemma_encode_scalar_bytes(c);
    lemma_encode_single(c);
    let byte = ((c as u32) as u8);
    assert(encode_utf8(seq![c]) == seq![byte]);
    if i < 10 {
        assert(spec_decimal(i) == seq![c]);
        let d = seq![byte];
        assert(d.drop_last() =~= Seq::<u8>::empty());
        assert(digits_value(d) == digits_value(d.drop_last()) * 10 + (byte - 0x30) as nat);
    } else {
        lemma_decimal_bytes(i / 10);
        let prev = encode_utf8(spec_decimal(i / 10));
        assert(spec_decimal(i) =~= spec_decimal(i / 10) + seq![c]);
        lemma_encode_concat(spec_decimal(i / 10), seq![c]);
        let d = encode_utf8(spec_decimal(i));
        assert(d == prev + seq![byte]);
        assert(d.drop_last() =~= prev);
        assert(d.last() == byte);
        assert(forall|j: int| 0 <= j < d.len() ==> is_digit(#[trigger] d[j])) by {
            assert forall|j: int| 0 <= j < d.len() implies is_digit(#[trigger] d[j]) by {
                if j < prev.len() {
                    assert(d[j] == prev[j]);
                } else {
                    assert(d[j] == byte);
                }
            }
        }
        assert(i == (i / 10) * 10 + i % 10);
    }
}

/// The decimal text of `i` reads back as `i`.
proof fn lemma_decimal_reads_back(i: usize)
    ensures
        spec_parse_usize(encode_utf8(spec_decimal(i as nat))) == Some(i),
{
    lemma_decimal_bytes(i as nat);
    let d = encode_utf8(spec_decimal(i as nat));
    assert(is_digit(d[0]));
    assert(unsigned_digits(d) == d);
}


// ---------------------------------------------------------------------------
// Reading the text of accessors
// ---------------------------------------------------------------------------

/// A field name that reads back as itself: not empty, without symbol characters,
/// neither beginning nor ending with whitespace, and not the text of an unsigned integer
/// (which reads as a tuple index).
pub open spec fn plain_field_name(n: Seq<char>) -> bool {
    &&& n.len() > 0
    &&& forall|k: int| 0 <= k < n.len() ==> !is_symbol_char(#[trigger] n[k])
    &&& !is_ws_char(n[0])
    &&& !is_ws_char(n.last())
    &&& spec_parse_usize(encode_utf8(n)) is None
}

/// An accessor whose text reads back as itself.
pub open spec fn plain_accessor(a: AccessorView) -> bool {
    match a {
        AccessorView::FieldName(n) => plain_field_name(n),
        _ => true,
    }
}

proof fn lemma_symbol_char_byte(c: char, v: u8)
    requires
        (c as u32) == v as u32,
        v < 0x80,
    ensures
        encode_utf8(seq![c]) == seq![v],
{
    lemma_encode_single(c);
    lemma_encode_scalar_bytes(c);
}

/// The UTF-8 bytes of the text of an accessor.
proof fn lemma_accessor_text_bytes(a: AccessorView)
    ensures
        match a {
            AccessorView::FieldName(n) => encode_utf8(spec_accessor_text(a)) == seq![0x2Eu8]
                + encode_utf8(n),
            AccessorView::TupleIndex(i) => encode_utf8(spec_accessor_text(a)) == seq![0x2Eu8]
                + encode_utf8(spec_decimal(i as nat)),
            AccessorView::FieldIndex(i) => encode_utf8(spec_accessor_text(a)) == seq![0x23u8]
                + encode_utf8(spec_decimal(i as nat)),
            AccessorView::ListIndex(i) => encode_utf8(spec_accessor_text(a)) == seq![0x5Bu8]
                + encode_utf8(spec_decimal(i as nat)) + seq![0x5Du8],
        },
{
    lemma_symbol_char_byte('.', 0x2E);
    lemma_symbol_char_byte('#', 0x23);
    lemma_symbol_char_byte('[', 0x5B);
    lemma_symbol_char_byte(']', 0x5D);
    match a {
        AccessorView::FieldName(n) => {
            lemma_encode_concat(seq!['.'], n);
        },
        AccessorView::TupleIndex(i) => {
            lemma_encode_concat(seq!['.'], spec_decimal(i as nat));
        },
        AccessorView::FieldIndex(i) => {
            lemma_encode_concat(seq!['#'], spec_decimal(i as nat));
        },
        AccessorView::ListIndex(i) => {
            lemma_encode_concat(seq!['['], spec_decimal(i as nat));
            lemma_encode_concat(seq!['['] + spec_decimal(i as nat), seq![']']);
        },
    }
}

proof fn lemma_skip_ws_at(b: Seq<u8>, j: int)
    requires
        0 <= j < b.len(),
        !is_ascii_ws(b[j]),
    ensures
        skip_ws(b, j) == j,
{
}

proof fn lemma_symbol_from_at(b: Seq<u8>, j: int, k: int)
    requires
        0 <= j <= k <= b.len(),
        forall|x: int| j <= x < k ==> !is_symbol(#[trigger] b[x]),
        k == b.len() || is_symbol(b[k]),
    ensures
        symbol_from(b, j) == k,
    decreases k - j,
{
    if j < k {
        lemma_symbol_from_at(b, j + 1, k);
    }
}

/// An identifier whose bytes are `d`, followed by a symbol or the end, is read whole
/// by the token reader.
proof fn lemma_ident_at(b: Seq<u8>, q: int, d: Seq<u8>)
    requires
        0 <= q,
        q + d.len() <= b.len(),
        d.len() > 0,
        b.subrange(q, q + d.len()) == d,
        forall|j: int| 0 <= j < d.len() ==> !is_symbol(#[trigger] d[j]),
        !is_ascii_ws(d[0]),
        !is_ascii_ws(d.last()),
        q + d.len() == b.len() || is_symbol(b[q + d.len()]),
    ensures
        spec_next_token(b, q) == Some((SpecToken::Ident(q, q + d.len()), q + d.len())),
{
    let e = q + d.len();
    assert(b[q] == d[0]);
    lemma_skip_ws_at(b, q);
    assert forall|x: int| q <= x < e implies !is_symbol(#[trigger] b[x]) by {
        assert(b[x] == d[x - q]);
    }
    lemma_symbol_from_at(b, q, e);
    assert(b[e - 1] == d.last());
    assert(!is_symbol(b[q]));
}

/// Reading at the start of the text of a plain accessor, followed by a symbol or the
/// end, yields that accessor, with the offset just after its first symbol, and goes on
/// after its text.
proof fn lemma_step_over_accessor(b: Seq<u8>, q: int, a: AccessorView)
    requires
        plain_accessor(a),
        0 <= q,
        q + encode_utf8(spec_accessor_text(a)).len() <= b.len(),
        b.subrange(q, q + encode_utf8(spec_accessor_text(a)).len()) == encode_utf8(
            spec_accessor_text(a),
        ),
        q + encode_utf8(spec_accessor_text(a)).len() == b.len() || is_symbol(
            b[q + encode_utf8(spec_accessor_text(a)).len()],
        ),
    ensures
        spec_step(b, q) == Some(
            (
                Ok::<(AccessorView, int), (int, SpecParseFault)>((a, q + 1)),
                q + encode_utf8(spec_accessor_text(a)).len(),
            ),
        ),
{
    let t = encode_utf8(spec_accessor_text(a));
    lemma_accessor_text_bytes(a);
    assert(b[q] == t[0]);
    lemma_skip_ws_at(b, q);
    match a {
        AccessorView::FieldName(n) => {
            let d = encode_utf8(n);
            lemma_encode_no_symbol(n);
            lemma_encode_first_not_ws(n);
            lemma_encode_last_not_ws(n);
            assert(b.subrange(q + 1, q + 1 + d.len()) =~= d) by {
                assert forall|x: int| 0 <= x < d.len() implies b.subrange(q + 1, q + 1 + d.len())[x]
                    == d[x] by {
                    assert(b[q + 1 + x] == t[1 + x]);
                }
            }
            lemma_ident_at(b, q + 1, d);
            assert(decode_utf8(d) == n);
        },
        AccessorView::TupleIndex(i) => {
            let d = encode_utf8(spec_decimal(i as nat));
            lemma_decimal_bytes(i as nat);
            lemma_decimal_reads_back(i);
            assert(b.subrange(q + 1, q + 1 + d.len()) =~= d) by {
                assert forall|x: int| 0 <= x < d.len() implies b.subrange(q + 1, q + 1 + d.len())[x]
                    == d[x] by {
                    assert(b[q + 1 + x] == t[1 + x]);
                }
            }
            assert(is_digit(d[0]));
            assert(is_digit(d.last()));
            lemma_ident_at(b, q + 1, d);
        },
        AccessorView::FieldIndex(i) => {
            let d = encode_utf8(spec_decimal(i as nat));
            lemma_decimal_bytes(i as nat);
            lemma_decimal_reads_back(i);
            assert(b.subrange(q + 1, q + 1 + d.len()) =~= d) by {
                assert forall|x: int| 0 <= x < d.len() implies b.subrange(q + 1, q + 1 + d.len())[x]
                    == d[x] by {
                    assert(b[q + 1 + x] == t[1 + x]);
                }
            }
            assert(is_digit(d[0]));
            assert(is_digit(d.last()));
            lemma_ident_at(b, q + 1, d);
        },
        AccessorView::ListIndex(i) => {
            let d = encode_utf8(spec_decimal(i as nat));
            lemma_decimal_bytes(i as nat);
            lemma_decimal_reads_back(i);
            assert(b.subrange(q + 1, q + 1 + d.len()) =~= d) by {
                assert forall|x: int| 0 <= x < d.len() implies b.subrange(q + 1, q + 1 + d.len())[x]
                    == d[x] by {
                    assert(b[q + 1 + x] == t[1 + x]);
                }
            }
            assert(is_digit(d[0]));
            assert(is_digit(d.last()));
            assert(b[q + 1 + d.len()] == t[1 + d.len() as int]);
            lemma_ident_at(b, q + 1, d);
            lemma_skip_ws_at(b, q + 1 + d.len());
        },
    }
}


/// The text of an accessor begins with a symbol.
proof fn lemma_accessor_text_starts_with_symbol(a: AccessorView)
    ensures
        encode_utf8(spec_accessor_text(a)).len() > 0,
        is_symbol(encode_utf8(spec_accessor_text(a))[0]),
{
    lemma_accessor_text_bytes(a);
}

/// Reading from `q`, where the rest of the text is the path text of plain accessors,
/// yields those accessors.
proof fn lemma_reads_back_from(b: Seq<u8>, q: int, accs: Seq<(AccessorView, Option<usize>)>)
    requires
        0 <= q <= b.len(),
        b.subrange(q, b.len() as int) == encode_utf8(spec_path_text(accs)),
        forall|k: int| 0 <= k < accs.len() ==> plain_accessor(#[trigger] accs[k].0),
    ensures
        spec_parse_from(b, q) matches Ok(r) && r.len() == accs.len() && forall|k: int|
            0 <= k < accs.len() ==> (#[trigger] r[k]).0 == accs[k].0,
    decreases accs.len(),
{
    if accs.len() == 0 {
        assert(encode_utf8(spec_path_text(accs)) =~= Seq::<u8>::empty());
        assert(b.subrange(q, b.len() as int).len() == 0);
        assert(q == b.len());
        assert(skip_ws(b, q) == q);
    } else {
        let a = accs[0].0;
        let rest = accs.drop_first();
        let t = encode_utf8(spec_accessor_text(a));
        let tail = encode_utf8(spec_path_text(rest));
        lemma_encode_concat(spec_accessor_text(a), spec_path_text(rest));
        let whole = b.subrange(q, b.len() as int);
        assert(whole == t + tail);
        let e = q + t.len();
        assert(b.subrange(q, e) =~= t) by {
            assert forall|x: int| 0 <= x < t.len() implies b.subrange(q, e)[x] == t[x] by {
                assert(b[q + x] == whole[x]);
                assert(whole[x] == t[x]);
            }
        }
        assert(b.subrange(e, b.len() as int) =~= tail) by {
            assert forall|x: int| 0 <= x < tail.len() implies b.subrange(e, b.len() as int)[x]
                == tail[x] by {
                assert(b[e + x] == whole[t.len() + x]);
                assert(whole[t.len() + x] == tail[x]);
            }
        }
        if e < b.len() {
            assert(rest.len() > 0) by {
                if rest.len() == 0 {
                    assert(spec_path_text(rest) =~= Seq::<char>::empty());
                    assert(tail =~= Seq::<u8>::empty());
                }
            }
            let a1 = rest[0].0;
            lemma_accessor_text_starts_with_symbol(a1);
            lemma_encode_concat(spec_accessor_text(a1), spec_path_text(rest.drop_first()));
            assert(tail[0] == encode_utf8(spec_accessor_text(a1))[0]);
            assert(b[e] == tail[0]);
        }
        assert(plain_accessor(accs[0].0));
        lemma_step_over_accessor(b, q, a);
        assert forall|k: int| 0 <= k < rest.len() implies plain_accessor(#[trigger] rest[k].0) by {
            assert(rest[k] == accs[k + 1]);
        }
        lemma_reads_back_from(b, e, rest);
        let r_rest = spec_parse_from(b, e)->Ok_0;
        assert(t.len() > 0) by {
            lemma_accessor_text_starts_with_symbol(a);
        }
        let r = seq![(a, Some((q + 1) as usize))] + r_rest;
        assert(spec_parse_from(b, q) == Ok::<Seq<(AccessorView, Option<usize>)>, (int, SpecParseFault)>(r));
        assert forall|k: int| 0 <= k < accs.len() implies (#[trigger] r[k]).0 == accs[k].0 by {
            if k > 0 {
                assert(r[k] == r_rest[k - 1]);
                assert(accs[k] == rest[k - 1]);
            }
        }
    }
}

/// The text of a path reads back as the same accessors, when every field name in it
/// is plain: not empty, without symbol characters (`.#[]`), not beginning or ending
/// with whitespace, and not the text of an unsigned integer.
pub proof fn law_path_text_reads_back(accs: Seq<(AccessorView, Option<usize>)>)
    requires
        forall|k: int| 0 <= k < accs.len() ==> plain_accessor(#[trigger] accs[k].0),
    ensures
        spec_parse_path(encode_utf8(spec_path_text(accs))) matches Ok(r) && r.len() == accs.len()
            && forall|k: int| 0 <= k < accs.len() ==> (#[trigger] r[k]).0 == accs[k].0,
{
    let b = encode_utf8(spec_path_text(accs));
    assert(b.subrange(0, b.len() as int) =~= b);
    lemma_reads_back_from(b, 0, accs);
}

} // verus!
