use vct_reflect::access::{
    AccessPath, Accessor, InnerError, Ident, OffsetAccessor, ParseError, PathAccessError, PathAccessor, PathParser,
    Token, parse_usize,
};

fn accessors(path: &str) -> Vec<(Accessor, Option<usize>)> {
    let pa = PathAccessor::parse(path).expect("path should parse");
    pa.accessors().iter().map(|oa| (oa.accessor.clone(), oa.offset)).collect()
}

fn error_of(path: &str) -> (usize, String) {
    let e = PathAccessor::parse(path).expect_err("path should not parse");
    assert_eq!(e.path, path);
    (e.offset, e.error)
}

#[test]
fn parse_field_name() {
    assert_eq!(accessors(".foo"), vec![(Accessor::FieldName("foo".to_string()), Some(1))]);
}

#[test]
fn parse_mixed_path() {
    assert_eq!(
        accessors(".foo.0#1[2]"),
        vec![
            (Accessor::FieldName("foo".to_string()), Some(1)),
            (Accessor::TupleIndex(0), Some(5)),
            (Accessor::FieldIndex(1), Some(7)),
            (Accessor::ListIndex(2), Some(9)),
        ]
    );
}

#[test]
fn parse_skips_whitespace_and_trims_idents() {
    assert_eq!(
        accessors(" . foo bar \t[ 3 ] "),
        vec![
            (Accessor::FieldName("foo bar".to_string()), Some(2)),
            (Accessor::ListIndex(3), Some(13)),
        ]
    );
}

#[test]
fn parse_empty_and_blank_paths() {
    assert_eq!(PathAccessor::parse("").unwrap().len(), 0);
    assert_eq!(PathAccessor::parse("  \n ").unwrap().len(), 0);
}

#[test]
fn dot_number_is_tuple_index_otherwise_field() {
    assert_eq!(accessors(".+5"), vec![(Accessor::TupleIndex(5), Some(1))]);
    assert_eq!(accessors(".1a2"), vec![(Accessor::FieldName("1a2".to_string()), Some(1))]);
    assert_eq!(
        accessors(".18446744073709551616"),
        vec![(Accessor::FieldName("18446744073709551616".to_string()), Some(1))]
    );
    assert_eq!(accessors(".-1"), vec![(Accessor::FieldName("-1".to_string()), Some(1))]);
}

#[test]
fn parse_unicode_field_uses_byte_offsets() {
    assert_eq!(
        accessors(".é.ü"),
        vec![
            (Accessor::FieldName("é".to_string()), Some(1)),
            (Accessor::FieldName("ü".to_string()), Some(4)),
        ]
    );
    assert_eq!(
        error_of("é"),
        (2, "expected a keyword ('#.[]'), got 'é' instead".to_string())
    );
}

#[test]
fn error_unexpected_ident() {
    assert_eq!(
        error_of("foo.bar"),
        (3, "expected a keyword ('#.[]'), got 'foo' instead".to_string())
    );
}

#[test]
fn error_invalid_index() {
    assert_eq!(error_of("#x"), (1, "failed to parse index as integer: x".to_string()));
    assert_eq!(error_of("[x]"), (1, "failed to parse index as integer: x".to_string()));
    assert_eq!(error_of(".a[+]"), (3, "failed to parse index as integer: +".to_string()));
}

#[test]
fn error_no_ident() {
    assert_eq!(
        error_of(".a."),
        (3, "expected an identifier, but reached end of path string".to_string())
    );
}

#[test]
fn error_is_not_ident() {
    assert_eq!(error_of(".["), (1, "expected an identifier, got '[' instead".to_string()));
}

#[test]
fn error_unclosed() {
    assert_eq!(
        error_of("[1"),
        (1, "a '[' wasn't closed, reached end of path string before finding a ']'".to_string())
    );
}

#[test]
fn error_bad_close() {
    assert_eq!(
        error_of("[1.a"),
        (1, "a '[' wasn't closed properly, got '.' instead".to_string())
    );
    assert_eq!(
        error_of("[1 2]"),
        (1, "failed to parse index as integer: 1 2".to_string())
    );
}

#[test]
fn error_close_before_open() {
    assert_eq!(error_of(".a]"), (3, "a ']' was found before an opening '['".to_string()));
}

#[test]
fn parse_static_agrees_with_parse() {
    let a = PathAccessor::parse(".x[4]#0").unwrap();
    let b = PathAccessor::parse_static(".x[4]#0").unwrap();
    assert_eq!(a, b);
    let e1 = PathAccessor::parse("[").unwrap_err();
    let e2 = PathAccessor::parse_static("[").unwrap_err();
    assert_eq!(e1, e2);
}

#[test]
fn parser_ends_after_error() {
    let mut p = PathParser::new("#x.a.b");
    match p.next() {
        Some(Err(e)) => assert_eq!(e.offset, 1),
        _ => panic!("expected an error"),
    }
    assert!(p.next().is_none());
    assert!(p.next().is_none());
}

#[test]
fn parser_yields_then_ends() {
    let mut p = PathParser::new(".a[0]");
    match p.next() {
        Some(Ok(OffsetAccessor { accessor, offset })) => {
            assert_eq!(accessor, Accessor::FieldName("a".to_string()));
            assert_eq!(offset, Some(1));
        }
        _ => panic!("expected an accessor"),
    }
    match p.next() {
        Some(Ok(oa)) => assert_eq!(oa.accessor, Accessor::ListIndex(0)),
        _ => panic!("expected an accessor"),
    }
    assert!(p.next().is_none());
}

#[test]
fn next_token_trims_identifier() {
    let mut p = PathParser::new("  ab c  .");
    match p.next_token() {
        Some(Token::Ident(Ident(s))) => assert_eq!(s, "ab c"),
        _ => panic!("expected an identifier"),
    }
    assert!(matches!(p.next_token(), Some(Token::Dot)));
    assert!(p.next_token().is_none());
}

#[test]
fn symbol_from_byte_maps_symbols() {
    assert!(matches!(Token::symbol_from_byte(b'.'), Some(Token::Dot)));
    assert!(matches!(Token::symbol_from_byte(b'#'), Some(Token::Pound)));
    assert!(matches!(Token::symbol_from_byte(b'['), Some(Token::OpenBracket)));
    assert!(matches!(Token::symbol_from_byte(b']'), Some(Token::CloseBracket)));
    assert!(Token::symbol_from_byte(b'a').is_none());
}

#[test]
fn ident_conversions() {
    assert_eq!(Ident("12").field(), Accessor::TupleIndex(12));
    assert_eq!(Ident("x1").field(), Accessor::FieldName("x1".to_string()));
    assert!(matches!(Ident("7").field_index(), Ok(Accessor::FieldIndex(7))));
    assert!(matches!(Ident("7").list_index(), Ok(Accessor::ListIndex(7))));
    assert!(matches!(Ident("q").list_index(), Err(InnerError::InvalidIndex(Ident("q")))));
    assert_eq!(
        InnerError::CloseBeforeOpen.as_cow(),
        "a ']' was found before an opening '['".to_string()
    );
    assert_eq!(
        InnerError::BadClose(Token::Ident(Ident("z"))).as_cow(),
        "a '[' wasn't closed properly, got 'z' instead".to_string()
    );
}

#[test]
fn parse_usize_reads_unsigned_integers() {
    assert_eq!(parse_usize(b"0"), Some(0));
    assert_eq!(parse_usize(b"007"), Some(7));
    assert_eq!(parse_usize(b"+42"), Some(42));
    assert_eq!(parse_usize(b"18446744073709551615"), Some(usize::MAX));
    assert_eq!(parse_usize(b"18446744073709551616"), None);
    assert_eq!(parse_usize(b""), None);
    assert_eq!(parse_usize(b"+"), None);
    assert_eq!(parse_usize(b"-1"), None);
    assert_eq!(parse_usize(b"1 "), None);
    assert_eq!(parse_usize(b"++1"), None);
}

#[test]
fn path_accessor_display() {
    let pa = PathAccessor::parse(" .foo . 0 # 1 [ 2 ]").unwrap();
    assert_eq!(pa.to_string(), ".foo.0#1[2]");
    let again = PathAccessor::parse(&pa.to_string()).unwrap();
    assert_eq!(again.len(), 4);
    assert_eq!(pa.len(), 4);
    assert_eq!(Accessor::ListIndex(10).to_string(), "[10]");
    assert_eq!(Accessor::FieldIndex(0).to_string(), "#0");
}

#[test]
fn parse_error_display() {
    let e = PathAccessor::parse("#x").unwrap_err();
    assert_eq!(
        e.to_string(),
        "Encountered an error at offset 1 while parsing `#x`: failed to parse index as integer: x"
    );
    let pe: PathAccessError = e.clone().into();
    assert_eq!(pe, PathAccessError::ParseError(e.clone()));
    assert_eq!(pe.to_string(), e.to_string());
    assert_eq!(
        PathAccessError::InvalidDowncast.to_string(),
        "Can't downcast result of access to the given type"
    );
}

#[test]
fn path_accessor_from_vec() {
    let v = vec![OffsetAccessor { accessor: Accessor::TupleIndex(3), offset: None }];
    let pa = PathAccessor::from(v.clone());
    assert_eq!(pa.len(), 1);
    assert_eq!(pa.accessors(), &v);
    let _unused: Option<ParseError> = None;
}

#[test]
fn reader_offsets_follow_symbols() {
    let text = "  .foo #1 [2] .3 ";
    let mut reader = text.parse_to_accessor();
    let mut offsets = Vec::new();
    while let Some(item) = reader.next() {
        let oa = item.expect("valid accessor");
        let off = oa.offset.expect("offset");
        offsets.push((off, text.as_bytes()[off - 1]));
    }
    assert_eq!(offsets, vec![(3, b'.'), (8, b'#'), (11, b'['), (15, b'.')]);
    let mut blank = "   ".parse_to_accessor();
    assert!(blank.next().is_none());
}

#[test]
fn reader_error_offset_within_path() {
    let text = "foo";
    let mut reader = text.parse_to_accessor();
    let err = reader.next().expect("an item").expect_err("an error");
    assert!(1 <= err.offset && err.offset <= text.len());
    assert!(reader.next().is_none());
}
