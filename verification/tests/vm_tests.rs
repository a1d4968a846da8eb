use autarky_compiler::ir::{erase_proofs, IrNode};
use autarky_compiler::parser::Parser;
use autarky_compiler::vm::{Value, ValueEnv, VirtualMachine};

fn s(x: &str) -> String {
    x.to_string()
}

fn b(n: IrNode) -> Box<IrNode> {
    Box::new(n)
}

fn num(n: i64) -> Box<IrNode> {
    b(IrNode::Int(n))
}

fn var(x: &str) -> Box<IrNode> {
    b(IrNode::Var(s(x)))
}

fn run(n: &IrNode) -> Result<Value, String> {
    VirtualMachine::new().evaluate(&ValueEnv::new(), n)
}

fn run_src(src: &str) -> Result<Value, String> {
    let e = Parser::new(src).parse().unwrap();
    run(&erase_proofs(&e))
}

fn as_int(v: &Value) -> i64 {
    match v {
        Value::Int(n) => *n,
        other => panic!("not an integer: {:?}", other),
    }
}

#[test]
fn arithmetic() {
    assert_eq!(as_int(&run_src("1 + 2 - 10").unwrap()), -7);
}

#[test]
fn arithmetic_wraps_around() {
    let n = IrNode::Add(num(i64::MAX), num(1));
    assert_eq!(as_int(&run(&n).unwrap()), i64::MIN);
    let n = IrNode::Sub(num(i64::MIN), num(1));
    assert_eq!(as_int(&run(&n).unwrap()), i64::MAX);
}

#[test]
fn equality_gives_one_or_zero() {
    assert_eq!(as_int(&run(&IrNode::Eq(num(3), num(3))).unwrap()), 1);
    assert_eq!(as_int(&run(&IrNode::Eq(num(3), num(4))).unwrap()), 0);
}

#[test]
fn closures_capture_their_environment() {
    assert_eq!(as_int(&run_src("(\\x : Int . \\y : Int . x - y) 10 3").unwrap()), 7);
}

#[test]
fn recursive_binding() {
    // let sum = \n. match n with Left k => k + sum (k - 1) | Right z => 0 in sum 4
    let sum_body = IrNode::Match(
        var("n"),
        s("k"),
        b(IrNode::Add(var("k"), b(IrNode::App(var("sum"), b(IrNode::Sub(var("k"), num(1))))))),
        s("z"),
        num(0),
    );
    let prog = IrNode::App(
        b(IrNode::Lam(s("sum"), b(IrNode::App(var("sum"), num(4))))),
        b(IrNode::Lam(s("n"), b(sum_body))),
    );
    assert_eq!(as_int(&run(&prog).unwrap()), 10);
}

#[test]
fn pairs() {
    assert_eq!(as_int(&run_src("unpack mkpair 5 6 into a, b in a - b").unwrap()), -1);
}

#[test]
fn injections_are_tagged_and_match_takes_them_apart() {
    assert!(matches!(run(&IrNode::Left(num(1))).unwrap(), Value::Left(ref v) if as_int(v) == 1));
    assert!(matches!(run(&IrNode::Right(num(2))).unwrap(), Value::Right(ref v) if as_int(v) == 2));
    let m = |inj: IrNode| {
        IrNode::Match(b(inj), s("a"), b(IrNode::Add(var("a"), num(100))), s("z"), b(IrNode::Sub(var("z"), num(1))))
    };
    assert_eq!(as_int(&run(&m(IrNode::Left(num(5)))).unwrap()), 105);
    assert_eq!(as_int(&run(&m(IrNode::Right(num(5)))).unwrap()), 4);
    // An injection of a pair keeps the whole pair.
    let p = IrNode::Left(b(IrNode::MkPair(num(1), num(2))));
    assert!(matches!(run(&p).unwrap(), Value::Left(ref v) if matches!(**v, Value::Pair(_, _))));
}

#[test]
fn array_evaluation() {
    let prog = IrNode::ArraySwap(b(IrNode::ArrayAlloc(num(3), num(9))), num(1), num(4));
    match run(&prog).unwrap() {
        Value::Pair(old, arr) => {
            assert_eq!(as_int(&old), 9);
            match *arr {
                Value::Array(vs) => {
                    let ns: Vec<i64> = vs.iter().map(as_int).collect();
                    assert_eq!(ns, vec![9, 4, 9]);
                }
                other => panic!("unexpected {:?}", other),
            }
        }
        other => panic!("unexpected {:?}", other),
    }
}

#[test]
fn stuck_and_unfinished_evaluations_give_nothing() {
    let mut vm = VirtualMachine::new();
    let env = ValueEnv::new();
    let negative = IrNode::ArrayAlloc(num(-1), num(0));
    assert!(vm.evaluate_within(&env, &negative, 100).is_none());
    let out_of_range = IrNode::ArraySwap(b(IrNode::ArrayAlloc(num(2), num(0))), num(2), num(1));
    assert!(vm.evaluate_within(&env, &out_of_range, 100).is_none());
    // A program that calls itself forever runs out of depth.
    let forever = IrNode::App(
        b(IrNode::Lam(s("f"), b(IrNode::App(var("f"), num(0))))),
        b(IrNode::Lam(s("n"), b(IrNode::App(var("f"), var("n"))))),
    );
    assert!(vm.evaluate_within(&env, &forever, 200).is_none());
    assert!(vm.evaluate_within(&env, &IrNode::Int(1), 0).is_none());
    assert!(vm.evaluate_within(&env, &IrNode::Int(1), 1).is_some());
}

#[test]
fn evaluation_error_messages() {
    assert_eq!(run(&IrNode::Var(s("q"))).unwrap_err(), "VM Error: Undefined variable 'q'");
    let pair = || b(IrNode::MkPair(num(1), num(2)));
    assert_eq!(run(&IrNode::Add(pair(), num(1))).unwrap_err(), "VM Error: Type mismatch in Addition");
    assert_eq!(run(&IrNode::Sub(num(1), pair())).unwrap_err(), "VM Error: Type mismatch in Subtraction");
    assert_eq!(run(&IrNode::Eq(pair(), num(1))).unwrap_err(), "VM Error: Type mismatch in Equality");
    assert_eq!(run(&IrNode::App(num(1), num(2))).unwrap_err(), "VM Error: Attempted to call a non-function");
    assert_eq!(
        run(&IrNode::Unpack(s("a"), s("b"), num(1), num(0))).unwrap_err(),
        "VM Error: Expected a Pair for 'Unpack'"
    );
    assert_eq!(run(&IrNode::ArrayAlloc(pair(), num(0))).unwrap_err(), "VM Error: Array size must be an Integer");
    assert_eq!(
        run(&IrNode::ArraySwap(b(IrNode::ArrayAlloc(num(1), num(0))), pair(), num(0))).unwrap_err(),
        "VM Error: Array index must be an Integer"
    );
    assert_eq!(run(&IrNode::ArraySwap(num(1), num(0), num(0))).unwrap_err(), "VM Error: Expected an Array for 'Swap'");
    assert_eq!(
        run(&IrNode::Match(pair(), s("a"), num(0), s("b"), num(1))).unwrap_err(),
        "VM Error: Match expression must evaluate to an Integer"
    );
}

#[test]
fn match_takes_the_left_branch_on_non_zero() {
    let m = |n: i64| IrNode::Match(num(n), s("a"), b(IrNode::Add(var("a"), num(100))), s("z"), num(-5));
    assert_eq!(as_int(&run(&m(3)).unwrap()), 103);
    assert_eq!(as_int(&run(&m(0)).unwrap()), -5);
}

#[test]
fn a_later_value_binding_hides_an_earlier_one() {
    let mut env = ValueEnv::new();
    env.insert(s("x"), Value::Int(1));
    env.insert(s("x"), Value::Int(2));
    assert_eq!(as_int(&VirtualMachine::new().evaluate(&env, &IrNode::Var(s("x"))).unwrap()), 2);
}

#[test]
fn more_depth_gives_the_same_result() {
    let mut vm = VirtualMachine::new();
    let env = ValueEnv::new();
    let prog = IrNode::Add(b(IrNode::Sub(num(10), num(3))), b(IrNode::Eq(num(2), num(2))));
    // Three nested steps are enough for this program.
    assert!(vm.evaluate_within(&env, &prog, 2).is_none());
    for fuel in [3u64, 4, 50, 1000, u64::MAX] {
        let r = vm.evaluate_within(&env, &prog, fuel).unwrap().unwrap();
        assert_eq!(as_int(&r), 8);
    }
    let err = IrNode::Add(var("nope"), num(1));
    for fuel in [2u64, 10, u64::MAX] {
        assert_eq!(
            vm.evaluate_within(&env, &err, fuel).unwrap().unwrap_err(),
            "VM Error: Undefined variable 'nope'"
        );
    }
}

#[test]
fn errors_propagate_from_left_to_right() {
    let n = IrNode::Add(var("nope"), b(IrNode::MkPair(num(1), num(2))));
    assert_eq!(run(&n).unwrap_err(), "VM Error: Undefined variable 'nope'");
}

#[test]
fn a_lambda_applied_to_a_value_binds_it() {
    let n = IrNode::App(b(IrNode::Lam(s("x"), b(IrNode::Sub(var("x"), num(1))))), num(43));
    assert_eq!(as_int(&run(&n).unwrap()), 42);
}

#[test]
fn split_and_merge_keep_the_value() {
    let e = Parser::new("split x into a, b in merge a and b into c in c + 1").parse().unwrap();
    let mut env = ValueEnv::new();
    env.insert(s("x"), Value::Int(41));
    assert_eq!(as_int(&VirtualMachine::new().evaluate(&env, &erase_proofs(&e)).unwrap()), 42);
}
