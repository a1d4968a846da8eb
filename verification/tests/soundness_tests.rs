use autarky_compiler::ast::{Expr, Type};
use autarky_compiler::driver::{run_front_end, RunOutcome};
use autarky_compiler::ir::erase_proofs;
use autarky_compiler::typecheck::{TypeChecker, TypeEnv};
use autarky_compiler::vm::{Value, ValueEnv, VirtualMachine};

fn as_int(v: &Value) -> i64 {
    match v {
        Value::Int(n) => *n,
        other => panic!("not an integer: {:?}", other),
    }
}

fn check_and_run(e: &Expr) -> (Type, Result<Value, String>) {
    let (t, _) = TypeChecker::new().check(TypeEnv::new(), e).unwrap();
    let r = VirtualMachine::new().evaluate(&ValueEnv::new(), &erase_proofs(e));
    (t, r)
}

fn parse(src: &str) -> Expr {
    autarky_compiler::parser::Parser::new(src).parse().unwrap()
}

#[test]
fn curried_addition_finishes_with_its_type() {
    let (t, r) = check_and_run(&parse("( ( ( \\x : Int . \\y : Int . (x + y) ) 10 ) 32 )"));
    assert_eq!(t.to_text(), "Int");
    assert_eq!(as_int(&r.unwrap()), 42);
    match run_front_end("( ( ( \\x : Int . \\y : Int . (x + y) ) SYS_COMPUTE ) SYS_CREDITS )", 10, 32) {
        RunOutcome::Finished(t, _, v) => {
            assert_eq!(t.to_text(), "Int");
            assert_eq!(as_int(&v), 42);
        }
        other => panic!("unexpected {:?}", other),
    }
}

#[test]
fn a_recursive_binding_at_the_assumed_type_finishes_with_its_type() {
    let (t, r) = check_and_run(&parse(
        "(\\f : Int . f (mkpair 4 6)) (\\p : Pair Int Int . unpack p into a, b in a + b)",
    ));
    assert_eq!(t.to_text(), "Int");
    assert_eq!(as_int(&r.unwrap()), 10);
}

#[test]
fn closures_and_arrays_keep_their_types() {
    let (t, r) = check_and_run(&parse(
        "(\\g : (Int -> Int) . (\\f : (Int -> Int) . \
         unpack array_swap (array_alloc 2 (f 1)) 0 5 into old, arr in mkpair old arr) g) \
         (\\x : Int . x + 1)",
    ));
    assert_eq!(t.to_text(), "Pair(Int, Array(Int))");
    match r.unwrap() {
        Value::Pair(old, arr) => {
            assert_eq!(as_int(&old), 2);
            match *arr {
                Value::Array(vs) => assert_eq!(vs.iter().map(as_int).collect::<Vec<i64>>(), vec![5, 2]),
                other => panic!("unexpected {:?}", other),
            }
        }
        other => panic!("unexpected {:?}", other),
    }
}

#[test]
fn injections_keep_their_types() {
    let (t, r) = check_and_run(&parse("Right Int 5"));
    assert_eq!(t.to_text(), "Either(Int, Int)");
    assert!(matches!(r.unwrap(), Value::Right(ref v) if as_int(v) == 5));
    let (t, r) = check_and_run(&parse("match Right Int 5 with Left a => a | Right b => b + 1"));
    assert_eq!(t.to_text(), "Int");
    assert_eq!(as_int(&r.unwrap()), 6);
}

#[test]
fn a_binding_cannot_leak_out_of_its_part() {
    let e = parse("mkpair (unpack mkpair 1 2 into a, b in a + b) (a + 1)");
    assert_eq!(TypeChecker::new().check(TypeEnv::new(), &e).unwrap_err(), "Type Error: Undefined 'a'");
}

#[test]
fn recursion_at_another_type_can_go_wrong() {
    // Inside its own body f is assumed to take a pair; it is bound to a function of an Int.
    let (t, r) = check_and_run(&parse(
        "(\\f : Int . f (Left Int 5)) \
         (\\k : Either Int Int . match k with Left a => f (mkpair a 0) | Right b => f (mkpair b 1))",
    ));
    assert_eq!(t.to_text(), "Int");
    assert_eq!(r.unwrap_err(), "VM Error: Match expression must evaluate to an Integer");
}

#[test]
fn an_argument_that_uses_the_parameter_can_go_wrong() {
    let (t, r) = check_and_run(&parse("(\\f : Int . f) f"));
    assert_eq!(t.to_text(), "Func(Pair(Int, Int), Int)");
    assert_eq!(r.unwrap_err(), "VM Error: Undefined variable 'f'");
}
