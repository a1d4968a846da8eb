//! The compiler's front end from source text to a result: parsing, injection of
//! the external resources, type checking, erasure and evaluation.
use vstd::prelude::*;
use crate::ast::{Expr, SpecExpr, Type, expr_view};
use crate::ir::{erase, erase_proofs, IrNode, SpecIr};
use crate::parser::{lex_spec, parse_tokens_spec, Parser};
use crate::typecheck::{assumed_function_type, check_spec, restore, TypeError, TypeChecker, TypeEnv};
use crate::vm::{eval, eval_call, Outcome, SpecValue, Value, ValueEnv, VirtualMachine};
use crate::ir::expr_free_vars;
use crate::soundness::{
    env_models, hygienic, lemma_int_type, lemma_soundness, recursion_typed,
    value_has_type,
};

verus! {

/// A program with the two external resources bound around it:
/// `(\SYS_COMPUTE: Int. (\SYS_CREDITS: Int. e) credits) compute`.
pub open spec fn injected(e: SpecExpr, compute: i64, credits: i64) -> SpecExpr {
    SpecExpr::App {
        func: Box::new(
            SpecExpr::Lambda {
                param: "SYS_COMPUTE"@,
                param_type: Type::Int,
                body: Box::new(
                    SpecExpr::App {
                        func: Box::new(
                            SpecExpr::Lambda {
                                param: "SYS_CREDITS"@,
                                param_type: Type::Int,
                                body: Box::new(e),
                            },
                        ),
                        arg: Box::new(SpecExpr::IntLiteral(credits)),
                    },
                ),
            },
        ),
        arg: Box::new(SpecExpr::IntLiteral(compute)),
    }
}

/// Binds the allocated compute hours to `SYS_COMPUTE` and the network credits
/// to `SYS_CREDITS` around a program.
pub fn inject_resources(ast: Expr, compute: i64, credits: i64) -> (r: Expr)
    ensures
        r@ == injected(ast@, compute, credits),
{
    proof {
        reveal_with_fuel(expr_view, 4);
    }
    let inner = Expr::Lambda {
        param: String::from_str("SYS_CREDITS"),
        param_type: Type::Int,
        body: Box::new(ast),
    };
    let with_credits = Expr::App { func: Box::new(inner), arg: Box::new(Expr::IntLiteral(credits)) };
    let outer = Expr::Lambda {
        param: String::from_str("SYS_COMPUTE"),
        param_type: Type::Int,
        body: Box::new(with_credits),
    };
    Expr::App { func: Box::new(outer), arg: Box::new(Expr::IntLiteral(compute)) }
}

/// The verdict on an injected program checked in `env`, from the verdict on
/// the program itself in `env` with both resources bound: each resource is
/// linear, and the program must consume it; any binding of a resource's name
/// in `env` that the injection hid is in force again afterwards.
pub open spec fn injected_verdict(
    env: Map<Seq<char>, Type>,
    r: Result<(Type, Map<Seq<char>, Type>), TypeError>,
) -> Result<(Type, Map<Seq<char>, Type>), TypeError> {
    match r {
        Ok((t, envb)) => if envb.contains_key("SYS_CREDITS"@) {
            Err(TypeError::NotConsumed("SYS_CREDITS"@))
        } else if envb.contains_key("SYS_COMPUTE"@) {
            Err(TypeError::NotConsumed("SYS_COMPUTE"@))
        } else {
            Ok((t, restore(restore(envb, env, "SYS_CREDITS"@), env, "SYS_COMPUTE"@)))
        },
        Err(err) => Err(err),
    }
}

/// Injection binds the two resources as integers: checking an injected program
/// is checking the program with `SYS_COMPUTE` and then `SYS_CREDITS` bound to
/// `Int`, and then asking that the program consumed both.
pub proof fn lemma_injection_typing(env: Map<Seq<char>, Type>, e: SpecExpr, compute: i64, credits: i64)
    ensures
        check_spec(env, injected(e, compute, credits)) == injected_verdict(
            env,
            check_spec(env.insert("SYS_COMPUTE"@, Type::Int).insert("SYS_CREDITS"@, Type::Int), e),
        ),
{
    let sc = "SYS_COMPUTE"@;
    let sk = "SYS_CREDITS"@;
    let inner = SpecExpr::App {
        func: Box::new(SpecExpr::Lambda { param: sk, param_type: Type::Int, body: Box::new(e) }),
        arg: Box::new(SpecExpr::IntLiteral(credits)),
    };
    let env1 = env.insert(sc, Type::Int);
    let ea = env.insert(sc, assumed_function_type());
    assert(check_spec(ea, SpecExpr::IntLiteral(compute))
        == Ok::<(Type, Map<Seq<char>, Type>), TypeError>((Type::Int, ea)));
    assert(ea.insert(sc, Type::Int) =~= env1);
    let eb = env1.insert(sk, assumed_function_type());
    assert(check_spec(eb, SpecExpr::IntLiteral(credits))
        == Ok::<(Type, Map<Seq<char>, Type>), TypeError>((Type::Int, eb)));
    assert(eb.insert(sk, Type::Int) =~= env1.insert(sk, Type::Int));
    assert(check_spec(env1, inner) == (match check_spec(env1.insert(sk, Type::Int), e) {
        Ok((t, envb)) => if envb.contains_key(sk) {
            Err(TypeError::NotConsumed(sk))
        } else {
            Ok((t, restore(envb, env1, sk)))
        },
        Err(err) => Err(err),
    }));
    reveal_strlit("SYS_COMPUTE");
    reveal_strlit("SYS_CREDITS");
    assert(sk[5] != sc[5]);
    if let Ok((_, envb)) = check_spec(env1.insert(sk, Type::Int), e) {
        assert(restore(envb, env1, sk) =~= restore(envb, env, sk));
    }
}

/// Injection is a binding of the two resources: with two more steps of depth,
/// evaluating the erased injected program is evaluating the erased program with
/// `SYS_COMPUTE` bound to the compute hours and then `SYS_CREDITS` to the credits.
pub proof fn lemma_injection_evaluation(
    fuel: nat,
    env: Map<Seq<char>, SpecValue>,
    e: SpecExpr,
    compute: i64,
    credits: i64,
)
    ensures
        eval(fuel + 2, env, erase(injected(e, compute, credits))) == eval(
            fuel,
            env.insert("SYS_COMPUTE"@, SpecValue::Int(compute)).insert(
                "SYS_CREDITS"@,
                SpecValue::Int(credits),
            ),
            erase(e),
        ),
{
    let sc = "SYS_COMPUTE"@;
    let sk = "SYS_CREDITS"@;
    let p = erase(e);
    let inner = SpecIr::App(Box::new(SpecIr::Lam(sk, Box::new(p))), Box::new(SpecIr::Int(credits)));
    let whole = SpecIr::App(Box::new(SpecIr::Lam(sc, Box::new(inner))), Box::new(SpecIr::Int(compute)));
    lemma_erase_injected(e, compute, credits);
    let env1 = env.insert(sc, SpecValue::Int(compute));
    let env2 = env1.insert(sk, SpecValue::Int(credits));
    assert(eval(fuel + 2, env, whole) == eval_call(fuel + 1, env, SpecIr::Lam(sc, Box::new(inner)), SpecIr::Int(compute)));
    assert(eval(fuel + 1, env, SpecIr::Lam(sc, Box::new(inner))) == Outcome::Done(
        Ok(SpecValue::Closure(sc, inner, env)),
    ));
    assert(eval(fuel + 1, env, SpecIr::Int(compute)) == Outcome::Done(
        Ok(SpecValue::Int(compute)),
    ));
    assert(eval(fuel + 2, env, whole) == eval(fuel + 1, env1, inner));
    assert(eval(fuel + 1, env1, inner) == eval_call(fuel, env1, SpecIr::Lam(sk, Box::new(p)), SpecIr::Int(credits)));
    if fuel > 0 {
        assert(eval(fuel, env1, SpecIr::Lam(sk, Box::new(p))) == Outcome::Done(
            Ok(SpecValue::Closure(sk, p, env1)),
        ));
        assert(eval(fuel, env1, SpecIr::Int(credits)) == Outcome::Done(
            Ok(SpecValue::Int(credits)),
        ));
    }
}

proof fn lemma_erase_injected(e: SpecExpr, compute: i64, credits: i64)
    ensures
        erase(injected(e, compute, credits)) == SpecIr::App(
            Box::new(
                SpecIr::Lam(
                    "SYS_COMPUTE"@,
                    Box::new(
                        SpecIr::App(
                            Box::new(SpecIr::Lam("SYS_CREDITS"@, Box::new(erase(e)))),
                            Box::new(SpecIr::Int(credits)),
                        ),
                    ),
                ),
            ),
            Box::new(SpecIr::Int(compute)),
        ),
{
    reveal_with_fuel(erase, 4);
}

/// How a run of the front end ends.
#[derive(Debug)]
pub enum RunOutcome {
    /// The source does not parse.
    ParseFailed(String),
    /// The program is ill-typed.
    TypeFailed(String),
    /// Evaluation reported an error.
    EvalFailed(Type, IrNode, String),
    /// Evaluation gave a value.
    Finished(Type, IrNode, Value),
    /// Evaluation does not finish within the nesting depth a `u64` counts,
    /// or cannot go on (a negative array size, an index out of range).
    Unfinished(Type, IrNode),
}

/// What a run of the front end gives: parse, inject, check in the empty
/// environment, erase, and evaluate in the empty environment.
pub open spec fn run_matches(
    r: RunOutcome,
    source: Seq<char>,
    compute: i64,
    credits: i64,
) -> bool {
    match parse_tokens_spec(lex_spec(source)->Some_0) {
        Err(pe) => r matches RunOutcome::ParseFailed(m) && m@ == pe.message(),
        Ok(e) => {
            let program = injected(e, compute, credits);
            match check_spec(Map::empty(), program) {
                Err(te) => r matches RunOutcome::TypeFailed(m) && m@ == te.message(),
                Ok((t, _)) => {
                    let ir = erase(program);
                    match eval(u64::MAX as nat, Map::empty(), ir) {
                        Outcome::Done(Ok(v)) => r matches RunOutcome::Finished(rt, rir, rv) && rt
                            == t && rir@ == ir && rv@ == v,
                        Outcome::Done(Err(ve)) => r matches RunOutcome::EvalFailed(rt, rir, m)
                            && rt == t && rir@ == ir && m@ == ve.message(),
                        _ => r matches RunOutcome::Unfinished(rt, rir) && rt == t && rir@ == ir,
                    }
                },
            }
        },
    }
}

/// Runs the front end on a source text with the given resources.
pub fn run_front_end(source: &str, compute: i64, credits: i64) -> (r: RunOutcome)
    requires
        lex_spec(source@) is Some,
    ensures
        run_matches(r, source@, compute, credits),
{
    let mut parser = Parser::new(source);
    let ast = match parser.parse() {
        Ok(e) => e,
        Err(m) => return RunOutcome::ParseFailed(m),
    };
    let program = inject_resources(ast, compute, credits);
    let checker = TypeChecker::new();
    let final_type = match checker.check(TypeEnv::new(), &program) {
        Ok((t, _)) => t,
        Err(m) => return RunOutcome::TypeFailed(m),
    };
    let ir_root = erase_proofs(&program);
    let mut machine = VirtualMachine::new();
    match machine.evaluate_within(&ValueEnv::new(), &ir_root, u64::MAX) {
        Some(Ok(v)) => RunOutcome::Finished(final_type, ir_root, v),
        Some(Err(m)) => RunOutcome::EvalFailed(final_type, ir_root, m),
        None => RunOutcome::Unfinished(final_type, ir_root),
    }
}

/// The type environment in which a program is checked once the two resources are bound.
pub open spec fn resource_types() -> Map<Seq<char>, Type> {
    Map::empty().insert("SYS_COMPUTE"@, Type::Int).insert("SYS_CREDITS"@, Type::Int)
}

/// Well-typed programs do not go wrong in the front end: a program whose
/// directly applied lambdas do not see their parameter in a non-lambda
/// argument and whose recursive functions have the assumed type, that type-checks (with the two resources bound to integers),
/// never ends in an evaluation error, and the value it finishes with has the
/// program's type.
pub proof fn lemma_front_end_soundness(r: RunOutcome, source: Seq<char>, compute: i64, credits: i64)
    requires
        lex_spec(source) is Some,
        parse_tokens_spec(lex_spec(source)->Some_0) matches Ok(e) && hygienic(e)
            && recursion_typed(resource_types(), e),
        run_matches(r, source, compute, credits),
    ensures
        !(r is EvalFailed),
        r matches RunOutcome::Finished(t, _, v) ==> value_has_type(v@, t),
{
    let e = parse_tokens_spec(lex_spec(source)->Some_0)->Ok_0;
    let sc = "SYS_COMPUTE"@;
    let sk = "SYS_CREDITS"@;
    let types = resource_types();
    let vals = Map::<Seq<char>, SpecValue>::empty().insert(sc, SpecValue::Int(compute)).insert(
        sk,
        SpecValue::Int(credits),
    );
    lemma_injection_typing(Map::empty(), e, compute, credits);
    if check_spec(Map::empty(), injected(e, compute, credits)) is Ok {
        let fuel = (u64::MAX - 2) as nat;
        lemma_injection_evaluation(fuel, Map::empty(), e, compute, credits);
        assert(fuel + 2 == u64::MAX as nat);
        lemma_int_type(SpecValue::Int(compute));
        lemma_int_type(SpecValue::Int(credits));
        assert forall|x: Seq<char>|
            expr_free_vars(e).contains(x) && types.contains_key(x) implies vals.contains_key(x)
            && value_has_type(vals[x], types[x]) by {
            if x == sk {
            } else {
                assert(x == sc);
            }
        }
        assert(env_models(vals, types, expr_free_vars(e)));
        lemma_soundness(fuel, vals, types, e);
    }
}

/// Runs the front end where every integer literal of the source fits in
/// `i64`: `None` where one does not, else what `run_front_end` gives.
pub fn run_front_end_checked(source: &str, compute: i64, credits: i64) -> (r: Option<RunOutcome>)
    ensures
        r is None <==> lex_spec(source@) is None,
        r matches Some(o) ==> run_matches(o, source@, compute, credits),
{
    if Parser::new(source).literals_fit() {
        Some(run_front_end(source, compute, credits))
    } else {
        None
    }
}

} // verus!
