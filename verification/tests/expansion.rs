use concat_idents::builder::{build_identifier, BuiltIdent};
use concat_idents::error::Error;
use concat_idents::expand;
use concat_idents::fragment::Fragment;
use concat_idents::token::{Delim, Token};

fn ident(text: &str, pos: u32) -> Token {
    Token::Ident { text: text.as_bytes().to_vec(), escaped: false, pos }
}

fn raw_ident(text: &str, pos: u32) -> Token {
    Token::Ident { text: text.as_bytes().to_vec(), escaped: true, pos }
}

fn keyword(text: &str, pos: u32) -> Token {
    Token::Keyword { text: text.as_bytes().to_vec(), pos }
}

fn eq_punct(pos: u32) -> Token {
    Token::Punct { ch: '=', joint: false, pos }
}

fn comma(pos: u32) -> Token {
    Token::Punct { ch: ',', joint: false, pos }
}

fn int_lit(digits: &str, pos: u32) -> Token {
    Token::IntLit { digits: digits.as_bytes().to_vec(), pos }
}

fn str_lit(text: &str, pos: u32) -> Token {
    Token::StrLit { text: text.as_bytes().to_vec(), pos }
}

fn brace(tokens: Vec<Token>, pos: u32) -> Token {
    Token::Group { delim: Delim::Brace, tokens, pos }
}

fn paren(tokens: Vec<Token>, pos: u32) -> Token {
    Token::Group { delim: Delim::Parenthesis, tokens, pos }
}

/// `NAME = <fragments> { <block> }` in linear token form.
fn invocation(name: &str, fragments: Vec<Token>, block: Vec<Token>) -> Vec<Token> {
    let mut toks = vec![ident(name, 0), eq_punct(1)];
    toks.extend(fragments);
    toks.push(brace(block, 99));
    toks
}

fn built_text(frags: Vec<Fragment>) -> String {
    let BuiltIdent { text, .. } = build_identifier(&frags, 0).unwrap();
    String::from_utf8(text).unwrap()
}

// Acceptance: each legal fragment sequence yields exactly the named identifier.

#[test]
fn accepts_two_names() {
    let toks = invocation(
        "struct_name",
        vec![ident("Foo", 2), comma(3), ident("Bar", 4)],
        vec![ident("struct_name", 100)],
    );
    let out = expand(toks).unwrap();
    assert_eq!(out, vec![Token::Ident { text: b"FooBar".to_vec(), escaped: false, pos: 2 }]);
}

#[test]
fn accepts_underscores() {
    let toks = invocation(
        "fn_name",
        vec![
            Token::Underscore { pos: 2 },
            comma(3),
            ident("foo", 4),
            comma(5),
            Token::Underscore { pos: 6 },
            comma(7),
            ident("bar", 8),
        ],
        vec![ident("fn_name", 100)],
    );
    let out = expand(toks).unwrap();
    assert_eq!(out, vec![Token::Ident { text: b"_foo_bar".to_vec(), escaped: false, pos: 2 }]);
}

#[test]
fn accepts_integers_after_name() {
    let toks = invocation(
        "fn_name",
        vec![
            ident("foo", 2),
            comma(3),
            int_lit("1", 4),
            comma(5),
            ident("bar", 6),
            comma(7),
            int_lit("2", 8),
        ],
        vec![ident("fn_name", 100)],
    );
    let out = expand(toks).unwrap();
    assert_eq!(out, vec![Token::Ident { text: b"foo1bar2".to_vec(), escaped: false, pos: 2 }]);
}

#[test]
fn accepts_two_booleans() {
    let toks = invocation(
        "fn_name",
        vec![
            Token::BoolLit { value: false, pos: 2 },
            comma(3),
            Token::BoolLit { value: true, pos: 4 },
        ],
        vec![ident("fn_name", 100)],
    );
    let out = expand(toks).unwrap();
    assert_eq!(out, vec![Token::Ident { text: b"falsetrue".to_vec(), escaped: false, pos: 2 }]);
}

#[test]
fn accepts_string_literal_fragment() {
    let toks = invocation(
        "fn_name",
        vec![
            str_lit("works_with_", 2),
            comma(3),
            ident("string", 4),
            comma(5),
            Token::Underscore { pos: 6 },
            comma(7),
            ident("literals", 8),
        ],
        vec![ident("fn_name", 100)],
    );
    let out = expand(toks).unwrap();
    assert_eq!(
        out,
        vec![Token::Ident {
            text: b"works_with_string_literals".to_vec(),
            escaped: false,
            pos: 2
        }]
    );
}

#[test]
fn accepts_character_literal_fragment() {
    let toks = invocation(
        "fn_name",
        vec![
            Token::CharLit { value: 'w', pos: 2 },
            comma(3),
            ident("orks_with", 4),
            comma(5),
            Token::CharLit { value: '_', pos: 6 },
            comma(7),
            ident("chars", 8),
        ],
        vec![ident("fn_name", 100)],
    );
    let out = expand(toks).unwrap();
    assert_eq!(
        out,
        vec![Token::Ident { text: b"works_with_chars".to_vec(), escaped: false, pos: 2 }]
    );
}

#[test]
fn accepts_escaped_reserved_word() {
    // The escape marker is stripped before the text is used.
    let toks = invocation(
        "fn_name",
        vec![raw_ident("struct", 2), comma(3), Token::Underscore { pos: 4 }, comma(5), ident("x", 6)],
        vec![ident("fn_name", 100)],
    );
    let out = expand(toks).unwrap();
    assert_eq!(out, vec![Token::Ident { text: b"struct_x".to_vec(), escaped: false, pos: 2 }]);
}

#[test]
fn accepts_trailing_comma() {
    let toks = invocation(
        "fn_name",
        vec![ident("foo", 2), comma(3), ident("bar", 4), comma(5)],
        vec![ident("fn_name", 100)],
    );
    let out = expand(toks).unwrap();
    assert_eq!(out, vec![Token::Ident { text: b"foobar".to_vec(), escaped: false, pos: 2 }]);
}

#[test]
fn accepts_only_underscore_name() {
    let toks = invocation("fn_name", vec![ident("__", 2)], vec![ident("fn_name", 100)]);
    let out = expand(toks).unwrap();
    assert_eq!(out, vec![Token::Ident { text: b"__".to_vec(), escaped: false, pos: 2 }]);
}

// Rejection: each illegal input fails with the named error and produces nothing.

#[test]
fn rejects_leading_integer() {
    let toks = invocation(
        "fn_name",
        vec![int_lit("1", 2), comma(3), ident("foo", 4), comma(5), ident("bar", 6)],
        vec![],
    );
    assert_eq!(expand(toks), Err(Error::IdentifierStartsWithInteger { pos: 2 }));
}

#[test]
fn rejects_single_boolean() {
    let toks = invocation("fn_name", vec![Token::BoolLit { value: true, pos: 2 }], vec![]);
    assert_eq!(expand(toks), Err(Error::IdentifierIsSingleBoolean { pos: 2 }));
}

#[test]
fn rejects_single_integer() {
    let toks = invocation("fn_name", vec![int_lit("1", 2)], vec![]);
    assert_eq!(expand(toks), Err(Error::IdentifierIsOnlyInteger { pos: 2 }));
}

#[test]
fn rejects_float_fragment() {
    let toks = invocation(
        "fn_name",
        vec![ident("foo", 2), comma(3), Token::FloatLit { pos: 4 }],
        vec![],
    );
    assert_eq!(expand(toks), Err(Error::UnsupportedFragmentKind { pos: 4 }));
}

#[test]
fn rejects_byte_string_fragment() {
    let toks = invocation("fn_name", vec![Token::ByteStrLit { pos: 2 }], vec![]);
    assert_eq!(expand(toks), Err(Error::UnsupportedFragmentKind { pos: 2 }));
}

#[test]
fn rejects_byte_fragment() {
    let toks = invocation("fn_name", vec![Token::ByteLit { pos: 2 }], vec![]);
    assert_eq!(expand(toks), Err(Error::UnsupportedFragmentKind { pos: 2 }));
}

#[test]
fn rejects_string_with_bad_characters() {
    let toks = invocation("fn_name", vec![ident("foo", 2), comma(3), str_lit("bar!", 4)], vec![]);
    assert_eq!(expand(toks), Err(Error::InvalidFragmentCharacters { pos: 4 }));
}

#[test]
fn rejects_character_outside_charset() {
    let toks = invocation("fn_name", vec![Token::CharLit { value: '!', pos: 2 }], vec![]);
    assert_eq!(expand(toks), Err(Error::InvalidFragmentCharacters { pos: 2 }));
}

#[test]
fn rejects_empty_fragment_list() {
    let toks = invocation("fn_name", vec![], vec![ident("x", 100)]);
    assert_eq!(expand(toks), Err(Error::EmptyIdentifier { pos: 99 }));
}

#[test]
fn rejects_reserved_word_fragment() {
    let toks = invocation("fn_name", vec![keyword("struct", 2)], vec![]);
    assert_eq!(expand(toks), Err(Error::ExpectedFragment { pos: 2 }));
}

#[test]
fn rejects_missing_equals() {
    let toks = vec![ident("fn_name", 0), ident("foo", 1), brace(vec![], 2)];
    assert_eq!(expand(toks), Err(Error::MalformedInput { pos: 1 }));
}

#[test]
fn rejects_missing_block() {
    let toks = vec![ident("fn_name", 0), eq_punct(1), ident("foo", 2)];
    assert_eq!(expand(toks), Err(Error::MalformedInput { pos: 2 }));
}

#[test]
fn rejects_tokens_after_block() {
    let toks = vec![
        ident("fn_name", 0),
        eq_punct(1),
        ident("foo", 2),
        comma(3),
        brace(vec![], 4),
        ident("extra", 5),
    ];
    assert_eq!(expand(toks), Err(Error::MalformedInput { pos: 5 }));
}

#[test]
fn rejects_missing_comma_between_fragments() {
    let toks = invocation("fn_name", vec![ident("foo", 2), ident("bar", 3)], vec![]);
    assert_eq!(expand(toks), Err(Error::MalformedInput { pos: 3 }));
}

#[test]
fn rejects_empty_input() {
    assert_eq!(expand(vec![]), Err(Error::MalformedInput { pos: 0 }));
}

// Substitution is exact-match and total, at any depth.

#[test]
fn replaces_at_every_depth() {
    let block = vec![
        keyword("fn", 100),
        ident("fn_name", 101),
        paren(vec![ident("fn_name", 102), ident("other", 103)], 104),
        brace(
            vec![
                ident("fn_name", 105),
                brace(vec![ident("fn_name", 106)], 107),
            ],
            108,
        ),
    ];
    let toks = invocation("fn_name", vec![ident("foo", 2), comma(3), ident("bar", 4)], block);
    let out = expand(toks).unwrap();
    let rep = |pos: u32| Token::Ident { text: b"foobar".to_vec(), escaped: false, pos };
    let expected = vec![
        keyword("fn", 100),
        rep(2),
        paren(vec![rep(2), ident("other", 103)], 104),
        brace(vec![rep(2), brace(vec![rep(2)], 107)], 108),
    ];
    assert_eq!(out, expected);
}

#[test]
fn leaves_non_matching_tokens_alone() {
    // Tokens that only resemble the placeholder are untouched: a different
    // name, the same name in escaped form, a keyword, and a string literal.
    let block = || {
        vec![
            ident("fn_name2", 100),
            raw_ident("fn_name", 101),
            keyword("match", 102),
            str_lit("fn_name", 103),
            int_lit("7", 104),
        ]
    };
    let out = expand(invocation("fn_name", vec![ident("foo", 2)], block())).unwrap();
    assert_eq!(out, block());
}

#[test]
fn replaces_inside_nested_invocation_without_expanding_it() {
    // A nested invocation of the facility is rewritten like any other token
    // span, including its own fragment list, but is not expanded.
    let nested = vec![
        ident("inner", 200),
        eq_punct(201),
        ident("fn_name", 202),
        brace(vec![ident("fn_name", 203)], 204),
    ];
    let block = vec![ident("concat_idents", 100), Token::Punct { ch: '!', joint: false, pos: 101 }, paren(nested, 102)];
    let toks = invocation("fn_name", vec![ident("foo", 2)], block);
    let out = expand(toks).unwrap();
    let rep = || Token::Ident { text: b"foo".to_vec(), escaped: false, pos: 2 };
    let expected = vec![
        ident("concat_idents", 100),
        Token::Punct { ch: '!', joint: false, pos: 101 },
        paren(
            vec![
                ident("inner", 200),
                eq_punct(201),
                rep(),
                brace(vec![rep()], 204),
            ],
            102,
        ),
    ];
    assert_eq!(out, expected);
}

#[test]
fn replacement_carries_built_position() {
    let toks = invocation("x", vec![ident("ab", 7)], vec![ident("x", 100)]);
    let out = expand(toks).unwrap();
    assert_eq!(out, vec![Token::Ident { text: b"ab".to_vec(), escaped: false, pos: 7 }]);
}

// Re-invoking on a block that no longer contains the placeholder is a no-op.

#[test]
fn reinvocation_after_rewrite_is_noop() {
    let block = || {
        vec![
            keyword("fn", 100),
            ident("fn_name", 101),
            brace(vec![ident("fn_name", 102), ident("other", 103)], 104),
        ]
    };
    let frags = || vec![ident("foo", 2), comma(3), ident("bar", 4)];
    let first = expand(invocation("fn_name", frags(), block())).unwrap();
    // The rewritten block contains no `fn_name` any more: re-invoking with it
    // gives it back unchanged.
    let second = expand(invocation("fn_name", frags(), first)).unwrap();
    let first_again = expand(invocation("fn_name", frags(), block())).unwrap();
    assert_eq!(second, first_again);
}

#[test]
fn rewrite_without_occurrence_is_noop() {
    let block = || vec![ident("a", 100), brace(vec![ident("b", 101)], 102)];
    let out = expand(invocation("missing", vec![ident("foo", 2)], block())).unwrap();
    assert_eq!(out, block());
}

// Concatenation laws on the builder itself.

#[test]
fn concatenation_is_associative_over_fragment_text() {
    // [a, b, c] builds the same text as [a, bc] with bc pre-concatenated.
    let split = vec![
        Fragment::Name { text: b"a".to_vec(), pos: 0 },
        Fragment::Name { text: b"b".to_vec(), pos: 1 },
        Fragment::Name { text: b"c".to_vec(), pos: 2 },
    ];
    let merged = vec![
        Fragment::Name { text: b"a".to_vec(), pos: 0 },
        Fragment::QuotedText { text: b"bc".to_vec(), pos: 1 },
    ];
    assert_eq!(built_text(split), "abc");
    assert_eq!(built_text(merged), "abc");
}

#[test]
fn built_text_is_ordered_concatenation() {
    let frags = vec![
        Fragment::Name { text: b"get".to_vec(), pos: 0 },
        Fragment::Underscore { pos: 1 },
        Fragment::Integer { digits: b"12".to_vec(), pos: 2 },
        Fragment::Boolean { value: true, pos: 3 },
        Fragment::QuotedText { text: b"x".to_vec(), pos: 4 },
        Fragment::Character { value: b'y', pos: 5 },
    ];
    let text = built_text(frags);
    assert_eq!(text, "get_12truexy");
    assert!(!text.is_empty());
}

#[test]
fn builder_anchors_at_first_fragment() {
    let frags = vec![
        Fragment::Name { text: b"ab".to_vec(), pos: 41 },
        Fragment::Name { text: b"cd".to_vec(), pos: 57 },
    ];
    let built = build_identifier(&frags, 0).unwrap();
    assert_eq!(built.pos, 41);
}

#[test]
fn error_positions_and_messages_are_exposed() {
    let e = Error::IdentifierStartsWithInteger { pos: 12 };
    assert_eq!(e.pos(), 12);
    assert!(e.message().contains("start with an integer"));
    let f = Error::ExpectedFragment { pos: 3 };
    assert!(f.message().contains("quote"));
}
