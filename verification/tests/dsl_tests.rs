use userdata_dsl::ast::{
    LuaClosure, LuaMethod, LuaMethodType, MethodMacroArg, Test, TypePath, UserdataBlock,
};
use userdata_dsl::error::{Error, SemanticError, SyntaxKind};
use userdata_dsl::token::Token;

fn ident(s: &str) -> Token {
    Token::Ident(s.to_string())
}

fn strlit(s: &str) -> Token {
    Token::StrLit(s.to_string())
}

fn path(segs: &[&str]) -> TypePath {
    TypePath { segments: segs.iter().map(|s| s.to_string()).collect() }
}

fn arg(name: &str, segs: &[&str]) -> MethodMacroArg {
    MethodMacroArg { ident: name.to_string(), replacement: path(segs) }
}

/// `impl { "get_x" => |s| s.x; }` as a token sequence.
fn get_x_input() -> Vec<Token> {
    vec![
        ident("impl"),
        Token::OpenBrace,
        strlit("get_x"),
        Token::Arrow,
        Token::Punct('|'),
        ident("s"),
        Token::Punct('|'),
        ident("s"),
        Token::Punct('.'),
        ident("x"),
        Token::Semi,
        Token::CloseBrace,
    ]
}

/// `impl { (Add)(rhs = OtherType) => { self.x + rhs.x } }` as tokens.
fn add_meta_input() -> Vec<Token> {
    vec![
        ident("impl"),
        Token::OpenBrace,
        Token::OpenParen,
        ident("Add"),
        Token::CloseParen,
        Token::OpenParen,
        ident("rhs"),
        Token::Equals,
        ident("OtherType"),
        Token::CloseParen,
        Token::Arrow,
        Token::OpenBrace,
        ident("self"),
        Token::Punct('.'),
        ident("x"),
        Token::Punct('+'),
        ident("rhs"),
        Token::Punct('.'),
        ident("x"),
        Token::CloseBrace,
        Token::CloseBrace,
    ]
}

#[test]
fn parse_plain_method_type_has_no_flags() {
    let input = vec![strlit("get_x")];
    let (mt, p) = LuaMethodType::parse(&input, 0).unwrap();
    assert_eq!(p, 1);
    assert!(!mt.is_static);
    assert!(!mt.is_mut);
    assert!(!mt.is_function);
    assert!(!mt.is_meta);
    assert_eq!(mt.method_name, Some("get_x".to_string()));
    assert_eq!(mt.meta_method, None);
}

#[test]
fn parse_meta_method_type_sets_is_meta() {
    let input = vec![Token::OpenParen, ident("Add"), Token::CloseParen];
    let (mt, p) = LuaMethodType::parse(&input, 0).unwrap();
    assert_eq!(p, 3);
    assert!(mt.is_meta);
    assert_eq!(mt.meta_method, Some(path(&["Add"])));
    assert_eq!(mt.method_name, None);
    assert!(!mt.is_static && !mt.is_mut && !mt.is_function);
}

#[test]
fn parse_meta_method_type_with_all_keywords() {
    let input = vec![
        ident("static"),
        ident("mut"),
        ident("fn"),
        Token::OpenParen,
        ident("Add"),
        Token::CloseParen,
    ];
    let (mt, p) = LuaMethodType::parse(&input, 0).unwrap();
    assert_eq!(p, 6);
    assert!(mt.is_static && mt.is_mut && mt.is_function && mt.is_meta);
    assert_eq!(mt.meta_method, Some(path(&["Add"])));
    assert_eq!(mt.method_name, None);
}

#[test]
fn parse_keyword_flags_individually() {
    let input = vec![ident("static"), strlit("n")];
    let (mt, _) = LuaMethodType::parse(&input, 0).unwrap();
    assert!(mt.is_static && !mt.is_mut && !mt.is_function);

    let input = vec![ident("mut"), strlit("n")];
    let (mt, _) = LuaMethodType::parse(&input, 0).unwrap();
    assert!(!mt.is_static && mt.is_mut && !mt.is_function);

    let input = vec![ident("fn"), strlit("n")];
    let (mt, _) = LuaMethodType::parse(&input, 0).unwrap();
    assert!(!mt.is_static && !mt.is_mut && mt.is_function);
}

#[test]
fn parse_multi_segment_meta_path() {
    let input = vec![
        Token::OpenParen,
        ident("ops"),
        Token::PathSep,
        ident("Add"),
        Token::CloseParen,
    ];
    let (mt, p) = LuaMethodType::parse(&input, 0).unwrap();
    assert_eq!(p, 5);
    assert_eq!(mt.meta_method, Some(path(&["ops", "Add"])));
}

#[test]
fn parse_get_x_block() {
    let input = get_x_input();
    let block = UserdataBlock::parse(&input).unwrap();
    assert_eq!(block.functions.len(), 1);
    let m = &block.functions[0];
    assert!(m.docstring.is_empty());
    assert_eq!(m.method_type.method_name, Some("get_x".to_string()));
    match &m.closure {
        LuaClosure::PureClosure { expr } => {
            assert_eq!(
                expr,
                &vec![
                    Token::Punct('|'),
                    ident("s"),
                    Token::Punct('|'),
                    ident("s"),
                    Token::Punct('.'),
                    ident("x"),
                ]
            );
        },
        _ => panic!("expected an opaque closure"),
    }
    assert!(m.test.is_none());
}

#[test]
fn end_to_end_get_x_call_expr() {
    let input = get_x_input();
    let block = UserdataBlock::parse(&input).unwrap();
    let out = block.functions[0].to_call_expr("receiver");
    let expected = vec![
        ident("receiver"),
        Token::Punct('.'),
        ident("add_method"),
        Token::OpenParen,
        strlit("get_x"),
        Token::Comma,
        Token::Punct('|'),
        ident("s"),
        Token::Punct('|'),
        ident("s"),
        Token::Punct('.'),
        ident("x"),
        Token::CloseParen,
        Token::Semi,
    ];
    assert_eq!(out, expected);
}

#[test]
fn end_to_end_meta_substitution() {
    let input = add_meta_input();
    let block = UserdataBlock::parse(&input).unwrap();
    let out = block.functions[0].to_call_expr("receiver");
    let expected = vec![
        ident("receiver"),
        Token::Punct('.'),
        ident("add_meta_method"),
        Token::OpenParen,
        ident("Add"),
        Token::Comma,
        ident("self"),
        Token::Punct('.'),
        ident("x"),
        Token::Punct('+'),
        ident("OtherType"),
        Token::Punct('.'),
        ident("x"),
        Token::CloseParen,
        Token::Semi,
    ];
    assert_eq!(out, expected);
}

#[test]
fn docstring_emits_document_call_first() {
    let input = vec![
        ident("impl"),
        Token::OpenBrace,
        Token::DocString("computes x".to_string()),
        strlit("get_x"),
        Token::Arrow,
        Token::Punct('|'),
        ident("s"),
        Token::Punct('|'),
        ident("s"),
        Token::Punct('.'),
        ident("x"),
        Token::CloseBrace,
    ];
    let block = UserdataBlock::parse(&input).unwrap();
    let m = &block.functions[0];
    assert_eq!(m.docstring, vec!["computes x".to_string()]);
    let out = m.to_call_expr("receiver");
    let expected_prefix = vec![
        ident("receiver"),
        Token::Punct('.'),
        ident("document"),
        Token::OpenParen,
        strlit("computes x"),
        Token::CloseParen,
        Token::Semi,
    ];
    assert_eq!(&out[..7], &expected_prefix[..]);
    assert_eq!(out[7], ident("receiver"));
    assert_eq!(out[9], ident("add_method"));
}

fn naming_case(is_meta: bool, is_function: bool, is_mut: bool, expected: &str) {
    let method_type = if is_meta {
        LuaMethodType {
            is_mut,
            is_static: false,
            is_meta: true,
            is_function,
            meta_method: Some(path(&["Add"])),
            method_name: None,
        }
    } else {
        LuaMethodType {
            is_mut,
            is_static: false,
            is_meta: false,
            is_function,
            meta_method: None,
            method_name: Some("m".to_string()),
        }
    };
    let m = LuaMethod {
        docstring: Vec::new(),
        method_type,
        closure: LuaClosure::PureClosure { expr: vec![ident("x")] },
        test: None,
    };
    let out = m.to_call_expr("r");
    assert_eq!(out[2], ident(expected));
}

#[test]
fn naming_table_holds_exactly() {
    naming_case(false, false, false, "add_method");
    naming_case(false, false, true, "add_method_mut");
    naming_case(false, true, false, "add_function");
    naming_case(false, true, true, "add_function_mut");
    naming_case(true, false, false, "add_meta_method");
    naming_case(true, false, true, "add_meta_method_mut");
    naming_case(true, true, false, "add_meta_function");
    naming_case(true, true, true, "add_meta_function_mut");
}

#[test]
fn is_static_does_not_change_the_call_name() {
    let m = LuaMethod {
        docstring: Vec::new(),
        method_type: LuaMethodType {
            is_mut: false,
            is_static: true,
            is_meta: false,
            is_function: false,
            meta_method: None,
            method_name: Some("m".to_string()),
        },
        closure: LuaClosure::PureClosure { expr: vec![ident("x")] },
        test: None,
    };
    let out = m.to_call_expr("r");
    assert_eq!(out[2], ident("add_method"));
}

fn meta_method_with_args(args: Vec<MethodMacroArg>) -> LuaMethod {
    LuaMethod {
        docstring: Vec::new(),
        method_type: LuaMethodType {
            is_mut: false,
            is_static: false,
            is_meta: true,
            is_function: false,
            meta_method: Some(path(&["Add"])),
            method_name: None,
        },
        closure: LuaClosure::MetaClosure {
            args,
            expr: vec![ident("rhs"), Token::Punct('.'), ident("x")],
        },
        test: None,
    }
}

#[test]
fn rebind_unknown_identifier_fails_and_leaves_args() {
    let mut m = meta_method_with_args(vec![arg("rhs", &["Old"])]);
    let before = meta_method_with_args(vec![arg("rhs", &["Old"])]);
    let overrides = vec![arg("nope", &["New"])];
    let r = m.rebind_macro_args(&overrides);
    assert_eq!(
        r,
        Err(Error::Semantic(SemanticError::UnknownArg { ident: "nope".to_string() }))
    );
    assert_eq!(m, before);
}

#[test]
fn rebind_mixed_good_and_bad_overrides_changes_nothing() {
    let mut m = meta_method_with_args(vec![arg("rhs", &["Old"])]);
    let before = meta_method_with_args(vec![arg("rhs", &["Old"])]);
    let overrides = vec![arg("rhs", &["New"]), arg("nope", &["New"])];
    let r = m.rebind_macro_args(&overrides);
    assert_eq!(
        r,
        Err(Error::Semantic(SemanticError::UnknownArg { ident: "nope".to_string() }))
    );
    assert_eq!(m, before);
}

#[test]
fn rebind_pure_closure_fails_even_with_no_overrides() {
    let mut m = LuaMethod {
        docstring: Vec::new(),
        method_type: LuaMethodType {
            is_mut: false,
            is_static: false,
            is_meta: false,
            is_function: false,
            meta_method: None,
            method_name: Some("m".to_string()),
        },
        closure: LuaClosure::PureClosure { expr: vec![ident("x")] },
        test: None,
    };
    let r = m.rebind_macro_args(&Vec::new());
    assert_eq!(r, Err(Error::Semantic(SemanticError::RebindPureClosure)));
    let r = m.rebind_macro_args(&vec![arg("a", &["T"])]);
    assert_eq!(r, Err(Error::Semantic(SemanticError::RebindPureClosure)));
}

#[test]
fn rebind_overrides_binding_and_substitution_uses_it() {
    let mut m = meta_method_with_args(vec![arg("rhs", &["Old"])]);
    let r = m.rebind_macro_args(&vec![arg("rhs", &["New"])]);
    assert_eq!(r, Ok(()));
    match &m.closure {
        LuaClosure::MetaClosure { args, .. } => {
            assert_eq!(args, &vec![arg("rhs", &["New"])]);
        },
        _ => panic!("closure kind changed"),
    }
    let applied = m.closure.to_applied_closure();
    assert_eq!(applied, vec![ident("New"), Token::Punct('.'), ident("x")]);
}

#[test]
fn rebind_same_identifier_twice_last_write_wins() {
    let mut m = meta_method_with_args(vec![arg("rhs", &["Old"])]);
    let r = m.rebind_macro_args(&vec![arg("rhs", &["First"]), arg("rhs", &["Second"])]);
    assert_eq!(r, Ok(()));
    match &m.closure {
        LuaClosure::MetaClosure { args, .. } => {
            assert_eq!(args, &vec![arg("rhs", &["Second"])]);
        },
        _ => panic!("closure kind changed"),
    }
}

#[test]
fn applied_pure_closure_is_unchanged() {
    let c = LuaClosure::PureClosure { expr: vec![ident("rhs"), Token::Punct('.'), ident("x")] };
    assert_eq!(
        c.to_applied_closure(),
        vec![ident("rhs"), Token::Punct('.'), ident("x")]
    );
}

#[test]
fn substitution_replaces_whole_identifiers_only() {
    let c = LuaClosure::MetaClosure {
        args: vec![arg("x", &["T"])],
        expr: vec![ident("x"), ident("xx"), strlit("x")],
    };
    assert_eq!(c.to_applied_closure(), vec![ident("T"), ident("xx"), strlit("x")]);
}

#[test]
fn get_inner_tokens_for_both_kinds() {
    let mt = LuaMethodType {
        is_mut: false,
        is_static: false,
        is_meta: false,
        is_function: false,
        meta_method: None,
        method_name: Some("get_x".to_string()),
    };
    assert_eq!(mt.get_inner_tokens(), vec![strlit("get_x")]);
    let mt = LuaMethodType {
        is_mut: false,
        is_static: false,
        is_meta: true,
        is_function: false,
        meta_method: Some(path(&["ops", "Add"])),
        method_name: None,
    };
    assert_eq!(
        mt.get_inner_tokens(),
        vec![ident("ops"), Token::PathSep, ident("Add")]
    );
}

#[test]
fn roundtrip_parse_serialize_parse() {
    let input = get_x_input();
    let block = UserdataBlock::parse(&input).unwrap();
    let mut reserialized: Vec<Token> = Vec::new();
    block.to_tokens(&mut reserialized);
    let block2 = UserdataBlock::parse(&reserialized).unwrap();
    assert_eq!(block, block2);
}

#[test]
fn roundtrip_meta_block_with_test_clause() {
    let mut input = add_meta_input();
    // Attach a test clause: `=> { rhs.x }` before the closing brace.
    input.pop();
    input.extend(vec![
        Token::Arrow,
        Token::OpenBrace,
        ident("rhs"),
        Token::Punct('.'),
        ident("x"),
        Token::CloseBrace,
        Token::CloseBrace,
    ]);
    let block = UserdataBlock::parse(&input).unwrap();
    assert!(block.functions[0].test.is_some());
    let mut reserialized: Vec<Token> = Vec::new();
    block.to_tokens(&mut reserialized);
    let block2 = UserdataBlock::parse(&reserialized).unwrap();
    assert_eq!(block, block2);
}

#[test]
fn gen_tests_snake_cases_the_newtype_name() {
    let mut m = meta_method_with_args(vec![arg("rhs", &["Other"])]);
    m.test = Some(Test { ts: vec![ident("rhs"), Token::Punct('.'), ident("x")] });
    let g = m.gen_tests("MyNewType").unwrap();
    assert_eq!(g.name, "my_new_type");
    assert_eq!(g.body, vec![ident("Other"), Token::Punct('.'), ident("x")]);
}

#[test]
fn gen_tests_pure_closure_body_is_verbatim() {
    let m = LuaMethod {
        docstring: Vec::new(),
        method_type: LuaMethodType {
            is_mut: false,
            is_static: false,
            is_meta: false,
            is_function: false,
            meta_method: None,
            method_name: Some("m".to_string()),
        },
        closure: LuaClosure::PureClosure { expr: vec![ident("x")] },
        test: Some(Test { ts: vec![ident("rhs"), Token::Punct('!')] }),
    };
    let g = m.gen_tests("SomeType").unwrap();
    assert_eq!(g.name, "some_type");
    assert_eq!(g.body, vec![ident("rhs"), Token::Punct('!')]);
}

#[test]
fn gen_tests_absent_without_test_clause() {
    let m = meta_method_with_args(vec![arg("rhs", &["Other"])]);
    assert!(m.gen_tests("MyNewType").is_none());
}

fn expect_syntax_error(input: Vec<Token>, kind: SyntaxKind, pos: usize) {
    match UserdataBlock::parse(&input) {
        Err(Error::Syntax(e)) => {
            assert_eq!(e.kind, kind);
            assert_eq!(e.pos, pos);
        },
        other => panic!("expected a syntax error, got {:?}", other),
    }
}

#[test]
fn missing_impl_keyword_is_rejected() {
    expect_syntax_error(vec![strlit("x")], SyntaxKind::ExpectedImpl, 0);
}

#[test]
fn missing_open_brace_is_rejected() {
    expect_syntax_error(vec![ident("impl"), strlit("x")], SyntaxKind::ExpectedOpenBrace, 1);
}

#[test]
fn missing_discriminator_is_rejected() {
    expect_syntax_error(
        vec![ident("impl"), Token::OpenBrace, ident("mut"), Token::CloseBrace],
        SyntaxKind::ExpectedDiscriminator,
        3,
    );
}

#[test]
fn missing_arrow_is_rejected() {
    expect_syntax_error(
        vec![ident("impl"), Token::OpenBrace, strlit("m"), strlit("x"), Token::CloseBrace],
        SyntaxKind::ExpectedArrow,
        3,
    );
}

#[test]
fn empty_closure_expression_is_rejected() {
    expect_syntax_error(
        vec![ident("impl"), Token::OpenBrace, strlit("m"), Token::Arrow, Token::CloseBrace],
        SyntaxKind::ExpectedExpression,
        4,
    );
}

#[test]
fn unclosed_brace_is_rejected() {
    expect_syntax_error(
        vec![
            ident("impl"),
            Token::OpenBrace,
            strlit("m"),
            Token::Arrow,
            ident("x"),
            Token::OpenParen,
        ],
        SyntaxKind::MissingCloseDelimiter,
        6,
    );
}

#[test]
fn trailing_tokens_after_block_are_rejected() {
    let mut input = get_x_input();
    input.push(ident("extra"));
    expect_syntax_error(input, SyntaxKind::UnexpectedToken, 12);
}

#[test]
fn bad_macro_arg_separator_is_rejected() {
    expect_syntax_error(
        vec![
            ident("impl"),
            Token::OpenBrace,
            Token::OpenParen,
            ident("Add"),
            Token::CloseParen,
            Token::OpenParen,
            ident("a"),
            Token::Equals,
            ident("T"),
            Token::Semi,
        ],
        SyntaxKind::ExpectedCommaOrCloseParen,
        9,
    );
}

#[test]
fn macro_arg_without_equals_is_rejected() {
    expect_syntax_error(
        vec![
            ident("impl"),
            Token::OpenBrace,
            Token::OpenParen,
            ident("Add"),
            Token::CloseParen,
            Token::OpenParen,
            ident("a"),
            ident("T"),
        ],
        SyntaxKind::ExpectedEquals,
        7,
    );
}

#[test]
fn methods_need_semicolon_separators() {
    expect_syntax_error(
        vec![
            ident("impl"),
            Token::OpenBrace,
            Token::OpenParen,
            ident("Add"),
            Token::CloseParen,
            Token::OpenParen,
            Token::CloseParen,
            Token::Arrow,
            Token::OpenBrace,
            ident("x"),
            Token::CloseBrace,
            strlit("oops"),
            Token::CloseBrace,
        ],
        SyntaxKind::ExpectedSemiOrCloseBrace,
        11,
    );
}

#[test]
fn unclosed_meta_paren_is_rejected() {
    expect_syntax_error(
        vec![
            ident("impl"),
            Token::OpenBrace,
            Token::OpenParen,
            ident("Add"),
            ident("x"),
            Token::CloseBrace,
        ],
        SyntaxKind::ExpectedCloseParen,
        4,
    );
}

#[test]
fn two_methods_with_trailing_semicolon() {
    let input = vec![
        ident("impl"),
        Token::OpenBrace,
        strlit("a"),
        Token::Arrow,
        ident("x"),
        Token::Semi,
        strlit("b"),
        Token::Arrow,
        ident("y"),
        Token::Semi,
        Token::CloseBrace,
    ];
    let block = UserdataBlock::parse(&input).unwrap();
    assert_eq!(block.functions.len(), 2);
    assert_eq!(block.functions[0].method_type.method_name, Some("a".to_string()));
    assert_eq!(block.functions[1].method_type.method_name, Some("b".to_string()));
}

#[test]
fn empty_block_parses() {
    let input = vec![ident("impl"), Token::OpenBrace, Token::CloseBrace];
    let block = UserdataBlock::parse(&input).unwrap();
    assert!(block.functions.is_empty());
}

#[test]
fn error_messages_are_stable() {
    let err = Error::Semantic(SemanticError::RebindPureClosure);
    assert_eq!(err.message(), "attempted to invoke macro args on non-meta closure");
    match UserdataBlock::parse(&vec![strlit("x")]) {
        Err(e) => assert_eq!(e.message(), "expected `impl`"),
        Ok(_) => panic!("parse should fail"),
    }
}
