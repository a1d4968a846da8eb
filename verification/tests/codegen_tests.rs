use autarky_compiler::codegen::{
    count_lambdas, generation_outcome, push_decimal, CgEnv, CgKind, CgValue, Compiler, Generation,
    KindEnv,
};
use autarky_compiler::ir::{erase_proofs, IrNode};
use autarky_compiler::parser::Parser;
use autarky_compiler::vm::{Value, ValueEnv, VirtualMachine};
use inkwell::context::Context;

fn s(x: &str) -> String {
    x.to_string()
}

fn b(n: IrNode) -> Box<IrNode> {
    Box::new(n)
}

fn ir_of(src: &str) -> IrNode {
    erase_proofs(&Parser::new(src).parse().unwrap())
}

fn compile(ir: &IrNode) -> (Result<(), String>, String, usize, bool) {
    let context = Context::create();
    let mut c = Compiler::new(&context, "autarky_module");
    c.create_main_function("autarky_main");
    let r = c.compile_and_return(ir);
    let text = c.module.print_to_string().to_string();
    let valid = c.module.verify().is_ok();
    (r, text, c.lambda_counter, valid)
}

#[test]
fn an_integer_is_returned() {
    let (r, text, n, valid) = compile(&IrNode::Int(7));
    assert!(r.is_ok());
    assert!(text.contains("define i64 @autarky_main()"));
    assert!(text.contains("ret i64 7"));
    assert!(text.contains("declare i8* @malloc(i64)"));
    assert_eq!(n, 0);
    assert!(valid);
}

#[test]
fn arithmetic_is_emitted() {
    let (r, text, _, valid) = compile(&ir_of("(\\x : Int . x + 1 - 2) 5"));
    assert!(r.is_ok());
    assert!(text.contains("lambda_0"));
    assert!(text.contains("add i64"));
    assert!(text.contains("sub i64"));
    assert!(valid);
}

#[test]
fn each_lambda_becomes_a_numbered_function() {
    let (r, text, n, _) = compile(&ir_of("mkpair (\\x : Int . x) (\\y : Int . \\z : Int . z)"));
    assert!(r.is_ok());
    assert_eq!(n, 3);
    assert!(text.contains("@lambda_0"));
    assert!(text.contains("@lambda_1"));
    assert!(text.contains("@lambda_2"));
    assert_eq!(count_lambdas(&ir_of("mkpair (\\x : Int . x) (\\y : Int . \\z : Int . z)")), Some(3));
}

#[test]
fn a_lambda_applied_to_a_lambda_is_a_recursive_function() {
    let ir = IrNode::App(
        b(IrNode::Lam(s("f"), b(IrNode::App(b(IrNode::Var(s("f"))), b(IrNode::Int(3)))))),
        b(IrNode::Lam(s("n"), b(IrNode::Var(s("n"))))),
    );
    let (r, text, n, valid) = compile(&ir);
    assert!(r.is_ok());
    assert!(text.contains("define i64 @rec_f(i64 %n)"));
    assert!(text.contains("tail call i64"));
    assert_eq!(n, 0);
    assert_eq!(count_lambdas(&ir), Some(0));
    assert!(valid);
}

#[test]
fn pairs_and_arrays_are_allocated() {
    let (r, text, _, valid) = compile(&ir_of("unpack mkpair 1 2 into a, b in a + b"));
    assert!(r.is_ok());
    assert!(text.contains("call i8* @malloc"));
    assert!(valid);
    let (r, text, _, _) = compile(&ir_of("array_swap (array_alloc 4 9) 1 5"));
    assert!(r.is_ok());
    assert!(text.contains("cond:"));
    assert!(text.contains("icmp ult"));
}

#[test]
fn an_undefined_variable_is_an_error() {
    let (r, _, _, _) = compile(&IrNode::Var(s("ghost")));
    assert_eq!(r.unwrap_err(), "LLVM Error: Undefined variable 'ghost'");
    match generation_outcome(&IrNode::Var(s("ghost")), &KindEnv::new()) {
        Generation::Undefined(x) => assert_eq!(x, "ghost"),
        _ => panic!("expected an undefined name"),
    }
}

#[test]
fn generation_outcomes() {
    let env = KindEnv::new();
    assert!(matches!(generation_outcome(&ir_of("1 + 2"), &env), Generation::Kind(CgKind::Int)));
    assert!(matches!(generation_outcome(&ir_of("\\x : Int . x"), &env), Generation::Kind(CgKind::Ptr)));
    assert!(matches!(generation_outcome(&ir_of("mkpair 1 2"), &env), Generation::Kind(CgKind::Ptr)));
    // A pointer where an integer is needed.
    assert!(matches!(generation_outcome(&ir_of("(\\x : Int . x) + 1"), &env), Generation::Stuck));
    assert!(matches!(generation_outcome(&ir_of("array_alloc (mkpair 1 2) 0"), &env), Generation::Stuck));
    let m = IrNode::Match(b(IrNode::Int(1)), s("a"), b(IrNode::Var(s("a"))), s("c"), b(IrNode::Int(0)));
    assert!(matches!(generation_outcome(&m, &env), Generation::Kind(CgKind::Int)));
    let with_x = env.with(&s("x"), CgKind::Ptr);
    assert!(matches!(generation_outcome(&IrNode::Var(s("x")), &with_x), Generation::Kind(CgKind::Ptr)));
}

#[test]
fn decimal_digits() {
    let mut out = s("lambda_");
    push_decimal(&mut out, 0);
    assert_eq!(out, "lambda_0");
    let mut out = String::new();
    push_decimal(&mut out, 1907);
    assert_eq!(out, "1907");
    let mut out = String::new();
    push_decimal(&mut out, usize::MAX);
    assert_eq!(out, usize::MAX.to_string());
}

#[test]
fn a_name_gives_its_bound_value_and_a_literal_always_compiles() {
    let context = Context::create();
    let mut c = Compiler::new(&context, "m");
    c.create_main_function("main");
    let seven = match c.compile_ir(&IrNode::Int(7), &CgEnv::new()) {
        Ok(CgValue::Int(v)) => v,
        _ => panic!("a literal must compile to an integer"),
    };
    let mut env = CgEnv::new();
    env.insert(s("x"), CgValue::Int(seven));
    match c.compile_ir(&IrNode::Var(s("x")), &env) {
        Ok(CgValue::Int(v)) => assert!(v == seven),
        _ => panic!("a bound name must give its value"),
    }
    assert_eq!(
        c.compile_ir(&IrNode::Var(s("y")), &env).err().unwrap(),
        "LLVM Error: Undefined variable 'y'"
    );
    assert_eq!(c.lambda_counter, 0);
}

#[test]
fn a_new_compiler_declares_only_malloc_and_is_positioned_nowhere() {
    let context = Context::create();
    let c = Compiler::new(&context, "m");
    assert_eq!(c.module.get_name().to_str().unwrap(), "m");
    let first = c.module.get_first_function().unwrap();
    assert_eq!(first.get_name().to_str().unwrap(), "malloc");
    assert!(first == c.malloc);
    assert!(c.module.get_last_function().unwrap() == c.malloc);
    assert_eq!(c.malloc.count_basic_blocks(), 0);
    assert!(c.builder.get_insert_block().is_none());
    assert_eq!(c.lambda_counter, 0);
}

#[test]
fn the_main_function_has_one_empty_entry_block_where_the_builder_stands() {
    let context = Context::create();
    let mut c = Compiler::new(&context, "m");
    let main = c.create_main_function("main");
    assert_eq!(main.get_name().to_str().unwrap(), "main");
    assert_eq!(main.count_params(), 0);
    assert_eq!(main.count_basic_blocks(), 1);
    let entry = main.get_first_basic_block().unwrap();
    assert_eq!(entry.get_name().to_str().unwrap(), "entry");
    assert!(entry.get_first_instruction().is_none());
    assert!(c.builder.get_insert_block() == Some(entry));
    assert_eq!(c.lambda_counter, 0);
}

#[test]
fn a_literal_is_the_constant_of_its_value_and_builds_nothing() {
    let context = Context::create();
    let mut c = Compiler::new(&context, "m");
    let main = c.create_main_function("main");
    match c.compile_ir(&IrNode::Int(-12), &CgEnv::new()) {
        Ok(CgValue::Int(v)) => assert_eq!(v.get_sign_extended_constant(), Some(-12)),
        _ => panic!("a literal must compile to an integer"),
    }
    assert!(main.get_first_basic_block().unwrap().get_first_instruction().is_none());
}

#[test]
fn operands_keep_their_order_and_a_lambda_leaves_the_builder_in_place() {
    let context = Context::create();
    let mut c = Compiler::new(&context, "m");
    let main = c.create_main_function("main");
    let entry = main.get_first_basic_block().unwrap();
    let ir = IrNode::App(
        b(IrNode::Lam(s("x"), b(IrNode::Sub(b(IrNode::Var(s("x"))), b(IrNode::Int(1)))))),
        b(IrNode::Int(41)),
    );
    assert!(c.compile_ir(&ir, &CgEnv::new()).is_ok());
    assert!(c.builder.get_insert_block() == Some(entry));
    assert_eq!(c.lambda_counter, 1);
    let text = c.module.print_to_string().to_string();
    assert!(text.contains("define i64 @lambda_0(i64 %x)"));
    assert!(text.contains("sub i64 %x, 1"));
}

#[test]
fn a_recursive_binding_becomes_a_function_named_after_it() {
    let context = Context::create();
    let mut c = Compiler::new(&context, "m");
    let main = c.create_main_function("main");
    let ir = IrNode::App(
        b(IrNode::Lam(s("f"), b(IrNode::App(b(IrNode::Var(s("f"))), b(IrNode::Int(3)))))),
        b(IrNode::Lam(s("n"), b(IrNode::Var(s("n"))))),
    );
    assert!(c.compile_ir(&ir, &CgEnv::new()).is_ok());
    assert!(c.module.get_function("rec_f").is_some());
    assert!(c.module.get_function("lambda_0").is_none());
    assert_eq!(c.lambda_counter, 0);
    assert!(c.builder.get_insert_block() == main.get_first_basic_block());
    let last = main.get_first_basic_block().unwrap().get_last_instruction().unwrap();
    assert_eq!(last.get_opcode(), inkwell::values::InstructionOpcode::Call);
}

#[test]
fn generated_arithmetic_and_the_evaluator_agree_on_wrapping() {
    let ir = IrNode::Sub(
        b(IrNode::Add(b(IrNode::Int(i64::MAX)), b(IrNode::Int(1)))),
        b(IrNode::Int(3)),
    );
    let expected = i64::MAX.wrapping_add(1).wrapping_sub(3);
    match VirtualMachine::new().evaluate(&ValueEnv::new(), &ir) {
        Ok(Value::Int(n)) => assert_eq!(n, expected),
        other => panic!("unexpected evaluation: {:?}", other),
    }
    let (r, text, _, valid) = compile(&ir);
    assert!(r.is_ok());
    assert!(valid);
    assert!(text.contains(&format!("ret i64 {}", expected)));
}
