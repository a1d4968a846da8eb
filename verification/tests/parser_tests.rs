use autarky_compiler::ast::{Expr, Type};
use autarky_compiler::parser::{Parser, Token};

fn parse(src: &str) -> Result<Expr, String> {
    let mut p = Parser::new(src);
    assert!(p.literals_fit());
    p.parse()
}

fn var_name(e: &Expr) -> &str {
    match e {
        Expr::Variable(x) => x.as_str(),
        _ => panic!("not a variable: {:?}", e),
    }
}

#[test]
fn parses_integer_literal() {
    assert!(matches!(parse("42"), Ok(Expr::IntLiteral(42))));
}

#[test]
fn parses_lambda_with_type() {
    let e = parse("\\x : Int . x").unwrap();
    match e {
        Expr::Lambda { param, param_type, body } => {
            assert_eq!(param, "x");
            assert!(param_type.same(&Type::Int));
            assert_eq!(var_name(&body), "x");
        }
        other => panic!("unexpected {:?}", other),
    }
}

#[test]
fn parses_function_and_compound_types() {
    let e = parse("\\f : (Pair Int Either Int Array Int -> Int) . f").unwrap();
    match e {
        Expr::Lambda { param_type, .. } => {
            let expected = Type::Func(
                Box::new(Type::Pair(
                    Box::new(Type::Int),
                    Box::new(Type::Either(
                        Box::new(Type::Int),
                        Box::new(Type::Array(Box::new(Type::Int))),
                    )),
                )),
                Box::new(Type::Int),
            );
            assert!(param_type.same(&expected));
            assert_eq!(param_type.to_text(), "Func(Pair(Int, Either(Int, Array(Int))), Int)");
        }
        other => panic!("unexpected {:?}", other),
    }
}

#[test]
fn addition_and_subtraction_group_to_the_left() {
    let e = parse("1 - 2 + 3").unwrap();
    match e {
        Expr::Add(l, r) => {
            assert!(matches!(*r, Expr::IntLiteral(3)));
            match *l {
                Expr::Sub(a, b) => {
                    assert!(matches!(*a, Expr::IntLiteral(1)));
                    assert!(matches!(*b, Expr::IntLiteral(2)));
                }
                other => panic!("unexpected {:?}", other),
            }
        }
        other => panic!("unexpected {:?}", other),
    }
}

#[test]
fn application_groups_to_the_left_and_binds_tighter_than_plus() {
    let e = parse("f x y + 1").unwrap();
    match e {
        Expr::Add(l, _) => match *l {
            Expr::App { func, arg } => {
                assert_eq!(var_name(&arg), "y");
                match *func {
                    Expr::App { func, arg } => {
                        assert_eq!(var_name(&func), "f");
                        assert_eq!(var_name(&arg), "x");
                    }
                    other => panic!("unexpected {:?}", other),
                }
            }
            other => panic!("unexpected {:?}", other),
        },
        other => panic!("unexpected {:?}", other),
    }
}

#[test]
fn parses_unpack_and_match() {
    let e = parse("unpack mkpair 1 2 into a, b in match a with Left l => l | Right r => b").unwrap();
    match e {
        Expr::Unpack { pair, var1, var2, body } => {
            assert!(matches!(*pair, Expr::MkPair(_, _)));
            assert_eq!(var1, "a");
            assert_eq!(var2, "b");
            match *body {
                Expr::Match { left_var, right_var, .. } => {
                    assert_eq!(left_var, "l");
                    assert_eq!(right_var, "r");
                }
                other => panic!("unexpected {:?}", other),
            }
        }
        other => panic!("unexpected {:?}", other),
    }
}

#[test]
fn parses_injections_and_arrays() {
    assert!(matches!(parse("Left Int 5"), Ok(Expr::Left(_, Type::Int))));
    assert!(matches!(parse("Right Int 5"), Ok(Expr::Right(_, Type::Int))));
    assert!(matches!(parse("array_alloc 3 0"), Ok(Expr::ArrayAlloc { .. })));
    assert!(matches!(parse("array_swap a 1 7"), Ok(Expr::ArraySwap { .. })));
}

#[test]
fn arrow_and_fat_arrow_and_skipped_characters() {
    // '-' followed by '>' is an arrow; '=' alone and unknown characters are skipped.
    assert!(matches!(parse("= # 7"), Ok(Expr::IntLiteral(7))));
    assert!(matches!(parse("8 - 3"), Ok(Expr::Sub(_, _))));
}

#[test]
fn keywords_are_not_identifiers_but_longer_words_are() {
    let e = parse("into_x").unwrap();
    assert_eq!(var_name(&e), "into_x");
    let e = parse("_under9").unwrap();
    assert_eq!(var_name(&e), "_under9");
}

#[test]
fn unicode_letters_make_identifiers() {
    let e = parse("été").unwrap();
    assert_eq!(var_name(&e), "été");
}

#[test]
fn trailing_tokens_are_left_unread() {
    assert!(matches!(parse("1 )"), Ok(Expr::IntLiteral(1))));
}

#[test]
fn literal_limits() {
    assert!(matches!(parse("9223372036854775807"), Ok(Expr::IntLiteral(9223372036854775807))));
    let p = Parser::new("9223372036854775808");
    assert!(!p.literals_fit());
    assert!(Parser::new("007").literals_fit());
}

fn err(src: &str) -> String {
    parse(src).unwrap_err()
}

#[test]
fn parse_error_messages() {
    assert_eq!(err(""), "Empty file");
    assert_eq!(err("   "), "Empty file");
    assert_eq!(err("\\ 5"), "Expected identifier");
    assert_eq!(err("\\x Int"), "Expected ':'");
    assert_eq!(err("\\x : Int x"), "Expected '.'");
    assert_eq!(err("\\x : foo . x"), "Invalid Type");
    assert_eq!(err("\\x : (Int Int) . x"), "Expected function type format: (Type -> Type)");
    assert_eq!(err("\\x : (Int -> Int . x"), "Expected function type format: (Type -> Type)");
    assert_eq!(err("unpack p in"), "Expected 'into'");
    assert_eq!(err("unpack p into 1"), "Expected var1");
    assert_eq!(err("unpack p into a b"), "Expected ','");
    assert_eq!(err("unpack p into a, 2"), "Expected var2");
    assert_eq!(err("unpack p into a, b into"), "Expected 'in'");
    assert_eq!(err("match x in"), "Expected 'with'");
    assert_eq!(err("match x Left"), "Invalid Type");
    assert_eq!(err("match x with Right"), "Expected 'Left'");
    assert_eq!(err("match x with Left 1"), "Expected left var");
    assert_eq!(err("match x with Left a b"), "Expected '=>'");
    assert_eq!(err("match x with Left a => a , b"), "Expected '|'");
    assert_eq!(err("match x with Left a => a | Left"), "Expected 'Right'");
    assert_eq!(err("match x with Left a => a | Right 2"), "Expected right var");
    assert_eq!(err("match x with Left a => a | Right b b"), "Expected '=>'");
    assert_eq!(err("(1"), "Expected ')'");
    assert_eq!(err("+"), "Unexpected token in primary expression");
    assert_eq!(err("1 +"), "Unexpected token in primary expression");
}

#[test]
fn checked_parse_refuses_a_literal_too_large() {
    assert!(Parser::new("\\x : Int . x + 18446744073709551616").parse_checked().is_none());
    match Parser::new("x + 9223372036854775807").parse_checked() {
        Some(Ok(Expr::Add(_, r))) => assert!(matches!(*r, Expr::IntLiteral(i64::MAX))),
        other => panic!("unexpected {:?}", other),
    }
    assert_eq!(Parser::new("   ").parse_checked().unwrap().unwrap_err(), "Empty file");
}

#[test]
fn parses_a_token_sequence() {
    let p = Parser::new("");
    let toks = vec![Token::Int(1), Token::Plus, Token::Ident("x".to_string()), Token::RParen];
    match p.parse_tokens(&toks) {
        Ok(Expr::Add(l, r)) => {
            assert!(matches!(*l, Expr::IntLiteral(1)));
            assert!(matches!(*r, Expr::Variable(ref x) if x == "x"));
        }
        other => panic!("unexpected {:?}", other),
    }
    assert_eq!(p.parse_tokens(&vec![]).unwrap_err(), "Empty file");
    assert_eq!(p.parse_tokens(&vec![Token::Colon]).unwrap_err(), "Unexpected token in primary expression");
}

#[test]
fn parses_the_permission_example() {
    let src = "( \\x : Lin Type_1 . \n    split x into ptr1, ptr2 in \n        merge ptr1 and ptr2 into full_ptr in \n            full_ptr \nmemory_ptr )";
    match parse(src).unwrap() {
        Expr::Lambda { param, param_type, body } => {
            assert_eq!(param, "x");
            assert!(matches!(param_type, Type::Lin(ref t) if matches!(**t, Type::Universe(1))));
            match *body {
                Expr::Split { value, var1, var2, body } => {
                    assert!(matches!(*value, Expr::Variable(ref v) if v == "x"));
                    assert_eq!((var1.as_str(), var2.as_str()), ("ptr1", "ptr2"));
                    match *body {
                        Expr::Merge { left, right, var, body } => {
                            assert_eq!((left.as_str(), right.as_str(), var.as_str()), ("ptr1", "ptr2", "full_ptr"));
                            assert!(matches!(*body, Expr::App { .. }));
                        }
                        other => panic!("unexpected {:?}", other),
                    }
                }
                other => panic!("unexpected {:?}", other),
            }
        }
        other => panic!("unexpected {:?}", other),
    }
}

#[test]
fn universe_and_permission_syntax_errors() {
    assert_eq!(err("\\x : Type_ . x"), "Invalid Type");
    assert_eq!(err("\\x : Typo_1 . x"), "Invalid Type");
    assert_eq!(err("\\x : Type_1a . x"), "Invalid Type");
    assert_eq!(err("\\x : Type_99999999999999999999999 . x"), "Invalid Type");
    assert!(matches!(parse("\\x : Type_42 . x").unwrap(), Expr::Lambda { param_type: Type::Universe(42), .. }));
    assert_eq!(err("merge a b into c in c"), "Expected 'and'");
    assert_eq!(err("merge a and b c in c"), "Expected 'into'");
    assert_eq!(err("split x into a b in a"), "Expected ','");
}
