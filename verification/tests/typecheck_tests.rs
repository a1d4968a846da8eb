use autarky_compiler::ast::{Expr, Type};
use autarky_compiler::parser::Parser;
use autarky_compiler::typecheck::{TypeChecker, TypeEnv};

fn parse(src: &str) -> Expr {
    Parser::new(src).parse().unwrap()
}

fn check_src(src: &str) -> Result<(Type, TypeEnv), String> {
    TypeChecker::new().check(TypeEnv::new(), &parse(src))
}

fn ty(src: &str) -> String {
    check_src(src).unwrap().0.to_text()
}

fn err(src: &str) -> String {
    check_src(src).unwrap_err()
}

fn lit(n: i64) -> Box<Expr> {
    Box::new(Expr::IntLiteral(n))
}

#[test]
fn literals_arithmetic_and_pairs() {
    assert_eq!(ty("1 + 2 - 3"), "Int");
    assert_eq!(ty("mkpair 1 2"), "Pair(Int, Int)");
    assert_eq!(ty("unpack mkpair 1 2 into a, b in a + b"), "Int");
}

#[test]
fn lambdas_and_application() {
    assert_eq!(ty("\\x : Int . x"), "Func(Int, Int)");
    assert_eq!(ty("\\f : (Int -> Int) . f 5"), "Func(Func(Int, Int), Int)");
    assert_eq!(ty("(\\fact : Int . fact 3) (\\n : Int . n)"), "Int");
}

#[test]
fn a_lambda_applied_binds_its_parameter_to_the_argument_type() {
    // The parameter's annotation is not consulted: the argument's type is used.
    let (t, env) = check_src("(\\x : Int . x) (mkpair 1 2)").unwrap();
    assert_eq!(t.to_text(), "Pair(Int, Int)");
    // The parameter is consumed: its binding does not outlive the application.
    assert!(env.get(&"x".to_string()).is_none());
}

#[test]
fn sums_and_match() {
    assert_eq!(ty("Left Int 5"), "Either(Int, Int)");
    assert_eq!(ty("Right Pair Int Int 5"), "Either(Pair(Int, Int), Int)");
    assert_eq!(
        ty("\\e : Either Int Int . match e with Left a => a | Right b => b"),
        "Func(Either(Int, Int), Int)"
    );
}

#[test]
fn equality_of_integers() {
    let e = Expr::Eq { left: lit(1), right: lit(2) };
    let (t, _) = TypeChecker::new().check(TypeEnv::new(), &e).unwrap();
    assert_eq!(t.to_text(), "Either(Int, Int)");
    let bad = Expr::Eq { left: lit(1), right: Box::new(Expr::MkPair(lit(1), lit(2))) };
    assert_eq!(
        TypeChecker::new().check(TypeEnv::new(), &bad).unwrap_err(),
        "Type Error: eq requires matching types"
    );
}

#[test]
fn array_typing() {
    assert_eq!(ty("array_alloc 3 0"), "Array(Int)");
    assert_eq!(ty("\\a : Array Int . array_swap a 0 5"), "Func(Array(Int), Pair(Int, Array(Int)))");
    assert_eq!(err("array_alloc (mkpair 1 2) 0"), "Type Error: Array size must be Int");
    assert_eq!(
        err("array_swap 1 0 5"),
        "Type Error: array_swap requires an Array, an Int index and an element"
    );
}

#[test]
fn type_error_messages() {
    assert_eq!(err("y"), "Type Error: Undefined 'y'");
    assert_eq!(
        err("1 + mkpair 1 2"),
        "Type Error: Arithmetic requires matching types. Got Int and Pair(Int, Int)"
    );
    assert_eq!(
        err("\\f : (Int -> Int) . f (mkpair 1 2)"),
        "Type Error: Expected Int, got Pair(Int, Int)"
    );
    assert_eq!(err("\\f : Int . f 1"), "Type Error: Non-function. Got Int");
    assert_eq!(
        err("\\e : Either Int Int . match e with Left a => a | Right b => mkpair b 1"),
        "Type Error: Match branches differ. Left: Int, Right: Pair(Int, Int)"
    );
    assert_eq!(err("match 1 with Left a => a | Right b => b"), "Type Error: Can only match on Either");
    assert_eq!(err("unpack 1 into a, b in a"), "Type Error: Unpack requires Pair");
}

#[test]
fn checking_consumes_the_names_it_uses_and_keeps_the_others() {
    let mut env = TypeEnv::new();
    env.insert("z".to_string(), Type::Int);
    env.insert("w".to_string(), Type::Int);
    let e = parse("unpack mkpair 1 (mkpair w 3) into a, b in unpack b into c, d in a + c + d");
    let (t, out) = TypeChecker::new().check(env, &e).unwrap();
    assert_eq!(t.to_text(), "Int");
    assert_eq!(out.get(&"z".to_string()).unwrap().to_text(), "Int");
    for gone in ["w", "a", "b", "c", "d"] {
        assert!(out.get(&gone.to_string()).is_none());
    }
}

#[test]
fn a_later_type_binding_hides_an_earlier_one() {
    let mut env = TypeEnv::new();
    env.insert("x".to_string(), Type::Int);
    env.insert("x".to_string(), Type::Array(Box::new(Type::Int)));
    assert_eq!(env.get(&"x".to_string()).unwrap().to_text(), "Array(Int)");
    assert!(env.get(&"y".to_string()).is_none());
}

#[test]
fn every_bound_variable_is_consumed_exactly_once() {
    assert_eq!(ty("\\x : Int . x"), "Func(Int, Int)");
    // Used twice: the first use consumes it.
    assert_eq!(err("\\x : Int . x + x"), "Type Error: Undefined 'x'");
    // Never used.
    assert_eq!(err("\\x : Int . 5"), "Type Error: Linear variable 'x' is not consumed");
    assert_eq!(err("unpack mkpair 1 2 into a, b in a"), "Type Error: Linear variable 'b' is not consumed");
    assert_eq!(err("(\\x : Int . 7) 1"), "Type Error: Linear variable 'x' is not consumed");
}

#[test]
fn match_branches_must_agree_and_their_bindings_do_not_outlive_them() {
    let (t, env) = check_src("match Left Int 5 with Left a => a | Right b => b").unwrap();
    assert_eq!(t.to_text(), "Int");
    assert!(env.get(&"a".to_string()).is_none());
    assert!(env.get(&"b".to_string()).is_none());
    assert_eq!(
        err("match Left Int 5 with Left a => a | Right b => mkpair b 1"),
        "Type Error: Match branches differ. Left: Int, Right: Pair(Int, Int)"
    );
    assert_eq!(
        err("match Left Int 5 with Left a => 1 | Right b => b"),
        "Type Error: Linear variable 'a' is not consumed"
    );
}

#[test]
fn both_branches_must_consume_the_same_variables() {
    // The Left branch consumes y, the Right branch leaves it.
    let mut env = TypeEnv::new();
    env.insert("y".to_string(), Type::Int);
    env.insert("s".to_string(), Type::Either(Box::new(Type::Int), Box::new(Type::Int)));
    let e = parse("match s with Left a => a + y | Right b => b");
    assert_eq!(
        TypeChecker::new().check(env, &e).unwrap_err(),
        "Type Error: Match branches consume different variables"
    );
    let mut env = TypeEnv::new();
    env.insert("y".to_string(), Type::Int);
    env.insert("s".to_string(), Type::Either(Box::new(Type::Int), Box::new(Type::Int)));
    let e = parse("match s with Left a => a + y | Right b => b - y");
    let (t, out) = TypeChecker::new().check(env, &e).unwrap();
    assert_eq!(t.to_text(), "Int");
    assert!(out.get(&"y".to_string()).is_none());
    assert!(out.get(&"s".to_string()).is_none());
}

#[test]
fn permissions_split_and_merge() {
    assert_eq!(
        ty("\\x : Lin Int . split x into a, b in merge a and b into c in c"),
        "Func(Lin(Int), Lin(Int))"
    );
    assert_eq!(
        err("\\x : Int . split x into a, b in merge a and b into c in c"),
        "Type Error: split requires a Lin value"
    );
    assert_eq!(
        err("\\x : Lin Int . split x into a, b in a"),
        "Type Error: Linear variable 'b' is not consumed"
    );
    assert_eq!(
        err("\\x : Int . \\y : Int . merge x and y into c in c"),
        "Type Error: merge requires two halves of one type"
    );
    // The documented example: its body applies the merged pointer to a name that nothing binds.
    assert_eq!(
        err("( \\x : Lin Type_1 . split x into ptr1, ptr2 in merge ptr1 and ptr2 into full_ptr in full_ptr memory_ptr )"),
        "Type Error: Undefined 'memory_ptr'"
    );
}

#[test]
fn a_parameter_hides_an_outer_binding_only_inside_its_lambda() {
    let pair = || Type::Pair(Box::new(Type::Int), Box::new(Type::Int));
    let mut env = TypeEnv::new();
    env.insert("x".to_string(), pair());
    let (t, out) = TypeChecker::new().check(env, &parse("\\x : Int . x")).unwrap();
    assert_eq!(t.to_text(), "Func(Int, Int)");
    assert_eq!(out.get(&"x".to_string()).unwrap().to_text(), "Pair(Int, Int)");

    // Inside the lambda the outer x cannot be reached: the parameter hides it.
    let mut env = TypeEnv::new();
    env.insert("x".to_string(), pair());
    assert_eq!(
        TypeChecker::new().check(env, &parse("\\x : Int . x + x")).unwrap_err(),
        "Type Error: Undefined 'x'"
    );

    // The same holds of unpacking and of match branches.
    let mut env = TypeEnv::new();
    env.insert("a".to_string(), Type::Int);
    let (_, out) = TypeChecker::new()
        .check(env, &parse("unpack mkpair 1 2 into a, b in a + b"))
        .unwrap();
    assert_eq!(out.get(&"a".to_string()).unwrap().to_text(), "Int");
    assert!(out.get(&"b".to_string()).is_none());

    let mut env = TypeEnv::new();
    env.insert("a".to_string(), pair());
    let (_, out) = TypeChecker::new()
        .check(env, &parse("match Left Int 5 with Left a => a | Right b => b"))
        .unwrap();
    assert_eq!(out.get(&"a".to_string()).unwrap().to_text(), "Pair(Int, Int)");
}

#[test]
fn expressions_and_types_compare_and_copy() {
    let e = parse("\\x : Int . unpack mkpair x 1 into a, b in a + b");
    assert_eq!(e.clone(), e);
    assert_ne!(parse("1 + 2"), parse("2 + 1"));
    let t = Type::Pair(Box::new(Type::Int), Box::new(Type::Int));
    assert_eq!(t.clone(), t);
    assert_ne!(Type::Int, t);
}
