use autarky_compiler::ast::{Expr, Type};
use autarky_compiler::driver::{inject_resources, run_front_end, run_front_end_checked, RunOutcome};
use autarky_compiler::ir::{erase_proofs, IrNode};
use autarky_compiler::parser::Parser;
use autarky_compiler::typecheck::{TypeChecker, TypeEnv};
use autarky_compiler::vm::{Value, ValueEnv, VirtualMachine};

fn as_int(v: &Value) -> i64 {
    match v {
        Value::Int(n) => *n,
        other => panic!("not an integer: {:?}", other),
    }
}

#[test]
fn injected_resources_are_visible_to_the_program() {
    match run_front_end("SYS_COMPUTE - SYS_CREDITS", 50, 8) {
        RunOutcome::Finished(t, _, v) => {
            assert_eq!(t.to_text(), "Int");
            assert_eq!(as_int(&v), 42);
        }
        other => panic!("unexpected {:?}", other),
    }
}

#[test]
fn injection_typing_law_on_an_example() {
    let e = Parser::new("mkpair SYS_CREDITS SYS_COMPUTE").parse().unwrap();
    let injected = inject_resources(e, 1, 2);
    let (t1, _) = TypeChecker::new().check(TypeEnv::new(), &injected).unwrap();
    let e = Parser::new("mkpair SYS_CREDITS SYS_COMPUTE").parse().unwrap();
    let mut env = TypeEnv::new();
    env.insert("SYS_COMPUTE".to_string(), Type::Int);
    env.insert("SYS_CREDITS".to_string(), Type::Int);
    let (t2, _) = TypeChecker::new().check(env, &e).unwrap();
    assert!(t1.same(&t2));
    assert_eq!(t1.to_text(), "Pair(Int, Int)");
}

#[test]
fn injection_evaluation_law_on_an_example() {
    let src = "SYS_CREDITS - SYS_COMPUTE";
    let e = Parser::new(src).parse().unwrap();
    let ir = erase_proofs(&inject_resources(e, 3, 10));
    let v1 = VirtualMachine::new().evaluate(&ValueEnv::new(), &ir).unwrap();
    let e = Parser::new(src).parse().unwrap();
    let mut env = ValueEnv::new();
    env.insert("SYS_COMPUTE".to_string(), Value::Int(3));
    env.insert("SYS_CREDITS".to_string(), Value::Int(10));
    let v2 = VirtualMachine::new().evaluate(&env, &erase_proofs(&e)).unwrap();
    assert_eq!(as_int(&v1), 7);
    assert_eq!(as_int(&v2), 7);
}

#[test]
fn inject_builds_two_nested_bindings() {
    match inject_resources(Expr::IntLiteral(0), 5, 6) {
        Expr::App { func, arg } => {
            assert!(matches!(*arg, Expr::IntLiteral(5)));
            match *func {
                Expr::Lambda { param, body, .. } => {
                    assert_eq!(param, "SYS_COMPUTE");
                    match *body {
                        Expr::App { func, arg } => {
                            assert!(matches!(*arg, Expr::IntLiteral(6)));
                            assert!(matches!(*func, Expr::Lambda { ref param, .. } if param == "SYS_CREDITS"));
                        }
                        other => panic!("unexpected {:?}", other),
                    }
                }
                other => panic!("unexpected {:?}", other),
            }
        }
        other => panic!("unexpected {:?}", other),
    }
}

#[test]
fn each_stage_reports_its_failure() {
    assert!(matches!(run_front_end("", 0, 0), RunOutcome::ParseFailed(ref m) if m == "Empty file"));
    assert!(matches!(run_front_end("x", 0, 0), RunOutcome::TypeFailed(ref m) if m == "Type Error: Undefined 'x'"));
    assert!(matches!(
        run_front_end("SYS_COMPUTE", 0, 0),
        RunOutcome::TypeFailed(ref m) if m == "Type Error: Linear variable 'SYS_CREDITS' is not consumed"
    ));
    // The argument of a directly applied lambda uses its parameter, which only the checker binds.
    match run_front_end("(\\f : Int . f (mkpair SYS_COMPUTE SYS_CREDITS)) f", 0, 0) {
        RunOutcome::EvalFailed(t, _, m) => {
            assert_eq!(t.to_text(), "Int");
            assert_eq!(m, "VM Error: Undefined variable 'f'");
        }
        other => panic!("unexpected {:?}", other),
    }
    assert!(matches!(
        run_front_end("array_alloc (SYS_COMPUTE - SYS_CREDITS) 0", 0, 1),
        RunOutcome::Unfinished(_, _)
    ));
}

#[test]
fn erasure_drops_types_and_keeps_names() {
    let e = Parser::new("\\x : Pair Int Int . unpack x into a, b in Left Int a").parse().unwrap();
    match erase_proofs(&e) {
        IrNode::Lam(x, body) => {
            assert_eq!(x, "x");
            match *body {
                IrNode::Unpack(a, bb, p, body) => {
                    assert_eq!(a, "a");
                    assert_eq!(bb, "b");
                    assert!(matches!(*p, IrNode::Var(ref v) if v == "x"));
                    assert!(matches!(*body, IrNode::Left(_)));
                }
                other => panic!("unexpected {:?}", other),
            }
        }
        other => panic!("unexpected {:?}", other),
    }
    let eq = Expr::Eq { left: Box::new(Expr::IntLiteral(1)), right: Box::new(Expr::IntLiteral(2)) };
    assert!(matches!(erase_proofs(&eq), IrNode::Eq(_, _)));
}

#[test]
fn checked_run_refuses_a_literal_too_large() {
    assert!(run_front_end_checked("99999999999999999999 + 1", 0, 0).is_none());
    match run_front_end_checked("9223372036854775807 + SYS_CREDITS + SYS_COMPUTE", 0, 1) {
        Some(RunOutcome::Finished(_, _, v)) => assert_eq!(as_int(&v), i64::MIN),
        other => panic!("unexpected {:?}", other),
    }
}
