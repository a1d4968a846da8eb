//! Type soundness of the checker with respect to the evaluator: well-typed
//! expressions do not go wrong.
use vstd::prelude::*;
use crate::ast::{SpecExpr, Type};
use crate::ir::SpecIr;
use crate::ir::{erase, expr_free_vars};
use crate::typecheck::{assumed_function_type, check_spec, lemma_check_submap, submap, TypeError};
use crate::vm::{eval, eval_call, wrap_i64, Outcome, SpecValue, VmError};

verus! {

/// The argument of a lambda applied directly, unless it is itself a lambda,
/// does not use the lambda's parameter: the checker binds the parameter there
/// (to the type it assumes for a recursive function); evaluation does not.
pub open spec fn hygienic(e: SpecExpr) -> bool
    decreases e,
{
    match e {
        SpecExpr::IntLiteral(_) | SpecExpr::Variable(_) => true,
        SpecExpr::Lambda { body, .. } => hygienic(*body),
        SpecExpr::App { func, arg } => hygienic(*func) && hygienic(*arg) && match *func {
            SpecExpr::Lambda { param, .. } => *arg is Lambda || !expr_free_vars(*arg).contains(param),
            _ => true,
        },
        SpecExpr::Add(l, r) | SpecExpr::Sub(l, r) | SpecExpr::Eq { left: l, right: r }
        | SpecExpr::MkPair(l, r) | SpecExpr::ArrayAlloc { size: l, init_val: r } => hygienic(*l)
            && hygienic(*r),
        SpecExpr::Unpack { pair, body, .. } => hygienic(*pair) && hygienic(*body),
        SpecExpr::Left(x, _) | SpecExpr::Right(x, _) => hygienic(*x),
        SpecExpr::Match { expr, left_body, right_body, .. } => hygienic(*expr) && hygienic(*left_body)
            && hygienic(*right_body),
        SpecExpr::ArraySwap { array, index, new_val } => hygienic(*array) && hygienic(*index)
            && hygienic(*new_val),
        SpecExpr::Split { value, body, .. } => hygienic(*value) && hygienic(*body),
        SpecExpr::Merge { body, .. } => hygienic(*body),
    }
}

/// Every function bound recursively (a lambda applied to a lambda) that calls
/// itself has the type that the checker assumes for it while checking it,
/// `Func(Pair(Int, Int), Int)`. The environments are those the checker uses.
pub open spec fn recursion_typed(env: Map<Seq<char>, Type>, e: SpecExpr) -> bool
    decreases e,
{
    match e {
        SpecExpr::IntLiteral(_) | SpecExpr::Variable(_) => true,
        SpecExpr::Add(l, r) | SpecExpr::Sub(l, r) | SpecExpr::Eq { left: l, right: r }
        | SpecExpr::MkPair(l, r) | SpecExpr::ArrayAlloc { size: l, init_val: r } => recursion_typed(
            env,
            *l,
        ) && (check_spec(env, *l) matches Ok((_, env1)) ==> recursion_typed(env1, *r)),
        SpecExpr::Left(x, _) | SpecExpr::Right(x, _) => recursion_typed(env, *x),
        SpecExpr::Match { expr, left_var, left_body, right_var, right_body } => recursion_typed(
            env,
            *expr,
        ) && (check_spec(env, *expr) matches Ok((Type::Either(lt, rt), env1)) ==> recursion_typed(
            env1.insert(left_var, *lt),
            *left_body,
        ) && recursion_typed(env1.insert(right_var, *rt), *right_body)),
        SpecExpr::Lambda { param, param_type, body } => recursion_typed(
            env.insert(param, param_type),
            *body,
        ),
        SpecExpr::App { func, arg } => match *func {
            SpecExpr::Lambda { param, body, .. } => recursion_typed(
                env.insert(param, assumed_function_type()),
                *arg,
            ) && (check_spec(env.insert(param, assumed_function_type()), *arg) matches Ok((at, enva))
                ==> recursion_typed(enva.insert(param, at), *body) && (*arg is Lambda
                && expr_free_vars(*arg).contains(param) ==> at == assumed_function_type())),
            _ => recursion_typed(env, *func) && (check_spec(env, *func) matches Ok((_, env1))
                ==> recursion_typed(env1, *arg)),
        },
        SpecExpr::Unpack { pair, var1, var2, body } => recursion_typed(env, *pair) && (check_spec(
            env,
            *pair,
        ) matches Ok((Type::Pair(t1, t2), env1)) ==> recursion_typed(
            env1.insert(var1, *t1).insert(var2, *t2),
            *body,
        )),
        SpecExpr::ArraySwap { array, index, new_val } => recursion_typed(env, *array) && (check_spec(
            env,
            *array,
        ) matches Ok((_, env1)) ==> recursion_typed(env1, *index) && (check_spec(env1, *index) matches Ok(
            (_, env2),
        ) ==> recursion_typed(env2, *new_val))),
        SpecExpr::Split { value, var1, var2, body } => recursion_typed(env, *value) && (check_spec(
            env,
            *value,
        ) matches Ok((Type::Lin(t), env1)) ==> recursion_typed(
            env1.insert(var1, Type::Half(t)).insert(var2, Type::Half(t)),
            *body,
        )),
        SpecExpr::Merge { left, right, var, body } => match env[left] {
            Type::Half(t1) => recursion_typed(
                env.remove(left).remove(right).insert(var, Type::Lin(t1)),
                *body,
            ),
            _ => true,
        },
    }
}

/// Why a runtime value has a type: for a closure, the type environment and
/// the expression whose erasure is its body, and why each captured value has
/// its type there.
pub enum TypeWitness {
    Plain,
    Pair(Box<TypeWitness>, Box<TypeWitness>),
    Array(Seq<TypeWitness>),
    Sum(Box<TypeWitness>),
    Closure(Map<Seq<char>, Type>, SpecExpr, Map<Seq<char>, TypeWitness>),
}

/// `w` shows that `v` has type `t`: integers have type `Int`; pairs of values
/// of the components have a `Pair` type; arrays whose every element has the
/// element type have an `Array` type; injections of values of the matching side
/// have an `Either` type, and so have, for `Either(Int, Int)`, the integers that
/// a comparison gives (a branch binds its variable to that integer); and a
/// closure has type `Func(a, b)` where its body is the erasure of an expression
/// that checks with type `b`, the parameter bound to `a` (and, for a recursive
/// closure, its own name to the assumed function type), in a type environment
/// that the captured values model.
pub open spec fn witnessed(w: TypeWitness, v: SpecValue, t: Type) -> bool
    decreases w,
{
    match t {
        Type::Int => v is Int,
        Type::Either(a, b) => match (w, v) {
            (_, SpecValue::Int(_)) => *a == Type::Int && *b == Type::Int,
            (TypeWitness::Sum(w1), SpecValue::Left(x)) => witnessed(*w1, *x, *a),
            (TypeWitness::Sum(w1), SpecValue::Right(x)) => witnessed(*w1, *x, *b),
            _ => false,
        },
        Type::Pair(a, b) => match (w, v) {
            (TypeWitness::Pair(w1, w2), SpecValue::Pair(x, y)) => witnessed(*w1, *x, *a) && witnessed(
                *w2,
                *y,
                *b,
            ),
            _ => false,
        },
        Type::Array(a) => match (w, v) {
            (TypeWitness::Array(ws), SpecValue::Array(es)) => ws.len() == es.len() && forall|i: int|
                0 <= i < es.len() ==> witnessed(#[trigger] ws[i], es[i], *a),
            _ => false,
        },
        Type::Lin(a) | Type::Half(a) => match w {
            TypeWitness::Sum(w1) => witnessed(*w1, v, *a),
            _ => false,
        },
        Type::Universe(_) => false,
        Type::Func(a, b) => match (w, v) {
            (TypeWitness::Closure(g, e, ws), SpecValue::Closure(x, body, cenv)) => closure_typed(
                g.insert(x, *a),
                e,
                body,
                *b,
            ) && forall|y: Seq<char>|
                #![trigger g.contains_key(y)]
                expr_free_vars(e).remove(x).contains(y) && g.contains_key(y) ==> cenv.contains_key(y)
                    && ws.contains_key(y) && witnessed(ws[y], cenv[y], g[y]),
            (
                TypeWitness::Closure(g, e, ws),
                SpecValue::RecClosure(name, x, body, cenv),
            ) => closure_typed(g.insert(name, assumed_function_type()).insert(x, *a), e, body, *b) && (
            expr_free_vars(e).remove(x).contains(name) ==> t == assumed_function_type())
                && forall|y: Seq<char>|
                #![trigger g.contains_key(y)]
                expr_free_vars(e).remove(x).remove(name).contains(y) && g.contains_key(y)
                    ==> cenv.contains_key(y) && ws.contains_key(y) && witnessed(ws[y], cenv[y], g[y]),
            _ => false,
        },
    }
}

/// The runtime values of a type: those for which a witness shows it.
pub open spec fn value_has_type(v: SpecValue, t: Type) -> bool {
    exists|w: TypeWitness| #[trigger] witnessed(w, v, t)
}

/// Integers have type `Int`.
pub proof fn lemma_int_type(v: SpecValue)
    ensures
        value_has_type(v, Type::Int) == (v is Int),
{
    if v is Int {
        assert(witnessed(TypeWitness::Plain, v, Type::Int));
    }
}

/// The values of type `Either(a, b)`: the left injections of values of type
/// `a`, the right injections of values of type `b`, and, for `Either(Int, Int)`,
/// the integers that a comparison gives.
pub proof fn lemma_either_type(v: SpecValue, a: Type, b: Type)
    ensures
        value_has_type(v, Type::Either(Box::new(a), Box::new(b))) == match v {
            SpecValue::Int(_) => a == Type::Int && b == Type::Int,
            SpecValue::Left(x) => value_has_type(*x, a),
            SpecValue::Right(x) => value_has_type(*x, b),
            _ => false,
        },
{
    let t = Type::Either(Box::new(a), Box::new(b));
    match v {
        SpecValue::Int(_) => {
            if a == Type::Int && b == Type::Int {
                assert(witnessed(TypeWitness::Plain, v, t));
            }
        },
        SpecValue::Left(x) => {
            if value_has_type(*x, a) {
                let w1 = choose|w: TypeWitness| witnessed(w, *x, a);
                assert(witnessed(TypeWitness::Sum(Box::new(w1)), v, t));
            }
            if value_has_type(v, t) {
                let w = choose|w: TypeWitness| witnessed(w, v, t);
                assert(witnessed(*w->Sum_0, *x, a));
            }
        },
        SpecValue::Right(x) => {
            if value_has_type(*x, b) {
                let w1 = choose|w: TypeWitness| witnessed(w, *x, b);
                assert(witnessed(TypeWitness::Sum(Box::new(w1)), v, t));
            }
            if value_has_type(v, t) {
                let w = choose|w: TypeWitness| witnessed(w, v, t);
                assert(witnessed(*w->Sum_0, *x, b));
            }
        },
        _ => {
            if value_has_type(v, t) {
                let w = choose|w: TypeWitness| witnessed(w, v, t);
                assert(witnessed(w, v, t));
            }
        },
    }
}

/// A permission, full or half, to a value of a type is a value of that type.
pub proof fn lemma_permission_type(v: SpecValue, a: Type)
    ensures
        value_has_type(v, Type::Lin(Box::new(a))) == value_has_type(v, a),
        value_has_type(v, Type::Half(Box::new(a))) == value_has_type(v, a),
{
    if value_has_type(v, a) {
        let w = choose|w: TypeWitness| witnessed(w, v, a);
        assert(witnessed(TypeWitness::Sum(Box::new(w)), v, Type::Lin(Box::new(a))));
        assert(witnessed(TypeWitness::Sum(Box::new(w)), v, Type::Half(Box::new(a))));
    }
    if value_has_type(v, Type::Lin(Box::new(a))) {
        let w = choose|w: TypeWitness| witnessed(w, v, Type::Lin(Box::new(a)));
        assert(witnessed(*w->Sum_0, v, a));
    }
    if value_has_type(v, Type::Half(Box::new(a))) {
        let w = choose|w: TypeWitness| witnessed(w, v, Type::Half(Box::new(a)));
        assert(witnessed(*w->Sum_0, v, a));
    }
}

/// The values of a pair type.
pub proof fn lemma_pair_type(v: SpecValue, a: Type, b: Type)
    ensures
        value_has_type(v, Type::Pair(Box::new(a), Box::new(b))) == (v matches SpecValue::Pair(x, y)
            && value_has_type(*x, a) && value_has_type(*y, b)),
{
    let t = Type::Pair(Box::new(a), Box::new(b));
    if let SpecValue::Pair(x, y) = v {
        if value_has_type(*x, a) && value_has_type(*y, b) {
            let w1 = choose|w: TypeWitness| witnessed(w, *x, a);
            let w2 = choose|w: TypeWitness| witnessed(w, *y, b);
            assert(witnessed(TypeWitness::Pair(Box::new(w1), Box::new(w2)), v, t));
        }
        if value_has_type(v, t) {
            let w = choose|w: TypeWitness| witnessed(w, v, t);
            assert(witnessed(*w->Pair_0, *x, a));
            assert(witnessed(*w->Pair_1, *y, b));
        }
    }
}

/// The values of an array type.
pub proof fn lemma_array_type(v: SpecValue, a: Type)
    ensures
        value_has_type(v, Type::Array(Box::new(a))) == (v matches SpecValue::Array(es) && forall|i: int|
            0 <= i < es.len() ==> value_has_type(#[trigger] es[i], a)),
{
    let t = Type::Array(Box::new(a));
    if let SpecValue::Array(es) = v {
        if forall|i: int| 0 <= i < es.len() ==> value_has_type(#[trigger] es[i], a) {
            let ws = Seq::new(es.len(), |i: int| choose|w: TypeWitness| witnessed(w, es[i], a));
            assert forall|i: int| 0 <= i < es.len() implies witnessed(#[trigger] ws[i], es[i], a) by {
                assert(value_has_type(es[i], a));
            }
            assert(witnessed(TypeWitness::Array(ws), v, t));
        }
        if value_has_type(v, t) {
            let w = choose|w: TypeWitness| witnessed(w, v, t);
            let ws = w->Array_0;
            assert forall|i: int| 0 <= i < es.len() implies value_has_type(#[trigger] es[i], a) by {
                assert(witnessed(ws[i], es[i], a));
            }
        }
    }
}

/// A closure has a function type where its body checks, in a type environment
/// that its captured values model.
pub proof fn lemma_closure_intro(
    x: Seq<char>,
    body: SpecIr,
    cenv: Map<Seq<char>, SpecValue>,
    g: Map<Seq<char>, Type>,
    e: SpecExpr,
    a: Type,
    b: Type,
)
    requires
        closure_typed(g.insert(x, a), e, body, b),
        env_models(cenv, g, expr_free_vars(e).remove(x)),
    ensures
        value_has_type(SpecValue::Closure(x, body, cenv), Type::Func(Box::new(a), Box::new(b))),
{
    let names = expr_free_vars(e).remove(x);
    let ws = Map::new(
        |y: Seq<char>| names.contains(y) && g.contains_key(y),
        |y: Seq<char>| choose|w: TypeWitness| witnessed(w, cenv[y], g[y]),
    );
    assert forall|y: Seq<char>| names.contains(y) && g.contains_key(y) implies cenv.contains_key(y)
        && ws.contains_key(y) && witnessed(ws[y], cenv[y], g[y]) by {
        assert(value_has_type(cenv[y], g[y]));
    }
    assert(witnessed(
        TypeWitness::Closure(g, e, ws),
        SpecValue::Closure(x, body, cenv),
        Type::Func(Box::new(a), Box::new(b)),
    ));
}

/// A recursive closure has a function type where its body checks, with its
/// own name bound to the assumed function type, in a type environment that its
/// captured values model, and where it calls itself only at the assumed type.
pub proof fn lemma_rec_closure_intro(
    name: Seq<char>,
    x: Seq<char>,
    body: SpecIr,
    cenv: Map<Seq<char>, SpecValue>,
    g: Map<Seq<char>, Type>,
    e: SpecExpr,
    a: Type,
    b: Type,
)
    requires
        closure_typed(g.insert(name, assumed_function_type()).insert(x, a), e, body, b),
        expr_free_vars(e).remove(x).contains(name) ==> Type::Func(Box::new(a), Box::new(b))
            == assumed_function_type(),
        env_models(cenv, g, expr_free_vars(e).remove(x).remove(name)),
    ensures
        value_has_type(
            SpecValue::RecClosure(name, x, body, cenv),
            Type::Func(Box::new(a), Box::new(b)),
        ),
{
    let names = expr_free_vars(e).remove(x).remove(name);
    let ws = Map::new(
        |y: Seq<char>| names.contains(y) && g.contains_key(y),
        |y: Seq<char>| choose|w: TypeWitness| witnessed(w, cenv[y], g[y]),
    );
    assert forall|y: Seq<char>| names.contains(y) && g.contains_key(y) implies cenv.contains_key(y)
        && ws.contains_key(y) && witnessed(ws[y], cenv[y], g[y]) by {
        assert(value_has_type(cenv[y], g[y]));
    }
    assert(witnessed(
        TypeWitness::Closure(g, e, ws),
        SpecValue::RecClosure(name, x, body, cenv),
        Type::Func(Box::new(a), Box::new(b)),
    ));
}

/// A value of a function type is a closure or a recursive closure whose body
/// checks as `lemma_closure_intro` and `lemma_rec_closure_intro` ask.
pub proof fn lemma_func_elim(v: SpecValue, a: Type, b: Type)
    requires
        value_has_type(v, Type::Func(Box::new(a), Box::new(b))),
    ensures
        v is Closure || v is RecClosure,
        v matches SpecValue::Closure(x, body, cenv) ==> exists|g: Map<Seq<char>, Type>, e: SpecExpr|
            #[trigger] closure_typed(g.insert(x, a), e, body, b) && env_models(
                cenv,
                g,
                expr_free_vars(e).remove(x),
            ),
        v matches SpecValue::RecClosure(name, x, body, cenv) ==> exists|
            g: Map<Seq<char>, Type>,
            e: SpecExpr,
        |
            #[trigger] closure_typed(g.insert(name, assumed_function_type()).insert(x, a), e, body, b)
                && (expr_free_vars(e).remove(x).contains(name) ==> Type::Func(Box::new(a), Box::new(b))
                == assumed_function_type()) && env_models(
                cenv,
                g,
                expr_free_vars(e).remove(x).remove(name),
            ),
{
    let t = Type::Func(Box::new(a), Box::new(b));
    let w = choose|w: TypeWitness| witnessed(w, v, t);
    assert(witnessed(w, v, t));
    match v {
        SpecValue::Closure(x, body, cenv) => {
            let g = w->Closure_0;
            let e = w->Closure_1;
            let ws = w->Closure_2;
            let names = expr_free_vars(e).remove(x);
            assert forall|y: Seq<char>|
                #![trigger names.contains(y), g.contains_key(y)]
                names.contains(y) && g.contains_key(y) implies cenv.contains_key(y) && value_has_type(
                cenv[y],
                g[y],
            ) by {
                assert(witnessed(ws[y], cenv[y], g[y]));
            }
            assert(closure_typed(g.insert(x, a), e, body, b));
        },
        SpecValue::RecClosure(name, x, body, cenv) => {
            let g = w->Closure_0;
            let e = w->Closure_1;
            let ws = w->Closure_2;
            let names = expr_free_vars(e).remove(x).remove(name);
            assert forall|y: Seq<char>|
                #![trigger names.contains(y), g.contains_key(y)]
                names.contains(y) && g.contains_key(y) implies cenv.contains_key(y) && value_has_type(
                cenv[y],
                g[y],
            ) by {
                assert(witnessed(ws[y], cenv[y], g[y]));
            }
            assert(closure_typed(g.insert(name, assumed_function_type()).insert(x, a), e, body, b));
        },
        _ => {},
    }
}

/// A closure body is the erasure of an expression of the fragment that checks,
/// in `env`, with type `t`.
pub open spec fn closure_typed(env: Map<Seq<char>, Type>, e: SpecExpr, body: SpecIr, t: Type) -> bool {
    &&& body == erase(e)
    &&& hygienic(e)
    &&& recursion_typed(env, e)
    &&& check_spec(env, e) matches Ok((et, _)) && et == t
}

/// The values bind, with a value of its type, every name of `names` that the types bind.
pub open spec fn env_models(
    vals: Map<Seq<char>, SpecValue>,
    types: Map<Seq<char>, Type>,
    names: Set<Seq<char>>,
) -> bool {
    forall|x: Seq<char>|
        #![trigger names.contains(x), types.contains_key(x)]
        names.contains(x) && types.contains_key(x) ==> vals.contains_key(x) && value_has_type(
            vals[x],
            types[x],
        )
}

/// A binding of the values models the matching binding of the types.
proof fn lemma_models_insert(
    vals: Map<Seq<char>, SpecValue>,
    types: Map<Seq<char>, Type>,
    names: Set<Seq<char>>,
    x: Seq<char>,
    v: SpecValue,
    t: Type,
)
    requires
        env_models(vals, types, names.remove(x)),
        value_has_type(v, t),
    ensures
        env_models(vals.insert(x, v), types.insert(x, t), names),
{
    assert forall|y: Seq<char>|
        names.contains(y) && types.insert(x, t).contains_key(y) implies vals.insert(
        x,
        v,
    ).contains_key(y) && value_has_type(vals.insert(x, v)[y], types.insert(x, t)[y]) by {
        if y != x {
            assert(names.remove(x).contains(y));
        }
    }
}

/// Fewer names are modelled where more are.
proof fn lemma_models_subset(
    vals: Map<Seq<char>, SpecValue>,
    types: Map<Seq<char>, Type>,
    small: Set<Seq<char>>,
    big: Set<Seq<char>>,
)
    requires
        env_models(vals, types, big),
        small.subset_of(big),
    ensures
        env_models(vals, types, small),
{
    assert forall|y: Seq<char>| small.contains(y) && types.contains_key(y) implies vals.contains_key(y)
        && value_has_type(vals[y], types[y]) by {
        assert(big.contains(y));
    }
}

/// Checking a part keeps the model: it only consumes bindings.
proof fn lemma_models_frame(
    vals: Map<Seq<char>, SpecValue>,
    types: Map<Seq<char>, Type>,
    first: SpecExpr,
    names: Set<Seq<char>>,
)
    requires
        env_models(vals, types, names),
        check_spec(types, first) is Ok,
    ensures
        env_models(vals, check_spec(types, first)->Ok_0.1, names),
{
    lemma_check_submap(types, first);
    lemma_models_sub(vals, types, check_spec(types, first)->Ok_0.1, names);
}

/// A part of a modelled type environment is modelled.
proof fn lemma_models_sub(
    vals: Map<Seq<char>, SpecValue>,
    types: Map<Seq<char>, Type>,
    sub: Map<Seq<char>, Type>,
    names: Set<Seq<char>>,
)
    requires
        env_models(vals, types, names),
        submap(sub, types),
    ensures
        env_models(vals, sub, names),
{
    assert forall|y: Seq<char>| names.contains(y) && sub.contains_key(y) implies vals.contains_key(y)
        && value_has_type(vals[y], sub[y]) by {
        assert(sub.contains_key(y));
    }
}

/// A binding of a name outside `names` leaves the model of `names` as it is.
proof fn lemma_models_insert_outside(
    vals: Map<Seq<char>, SpecValue>,
    types: Map<Seq<char>, Type>,
    names: Set<Seq<char>>,
    x: Seq<char>,
    v: SpecValue,
    t: Type,
)
    requires
        env_models(vals, types, names),
        !names.contains(x),
    ensures
        env_models(vals.insert(x, v), types.insert(x, t), names),
{
    assert forall|y: Seq<char>|
        names.contains(y) && types.insert(x, t).contains_key(y) implies vals.insert(
        x,
        v,
    ).contains_key(y) && value_has_type(vals.insert(x, v)[y], types.insert(x, t)[y]) by {
        assert(y != x);
    }
}

/// Erasure makes a lambda of a lambda and of nothing else.
proof fn lemma_erase_lam(e: SpecExpr)
    ensures
        (erase(e) is Lam) == (e is Lambda),
{
}

/// The soundness of one expression, as `lemma_soundness` states it.
pub open spec fn sound_at(
    fuel: nat,
    vals: Map<Seq<char>, SpecValue>,
    types: Map<Seq<char>, Type>,
    e: SpecExpr,
) -> bool {
    &&& !(eval(fuel, vals, erase(e)) matches Outcome::Done(Err(_)))
    &&& eval(fuel, vals, erase(e)) matches Outcome::Done(Ok(v)) ==> value_has_type(
        v,
        check_spec(types, e)->Ok_0.0,
    )
}

/// What the soundness of one expression asks of it.
pub open spec fn sound_premises(
    vals: Map<Seq<char>, SpecValue>,
    types: Map<Seq<char>, Type>,
    e: SpecExpr,
) -> bool {
    &&& hygienic(e)
    &&& recursion_typed(types, e)
    &&& check_spec(types, e) is Ok
    &&& env_models(vals, types, expr_free_vars(e))
}

/// Well-typed programs do not go wrong: where every free name of an expression
/// that the type environment binds has a value of its type, an expression that
/// checks, whose directly applied lambdas do not see their parameter in a
/// non-lambda argument (`hygienic`) and whose recursive functions have the
/// assumed type (`recursion_typed`), never evaluates to a reported error, and the
/// value it evaluates to has the checked type. (It may still run out of depth,
/// or get stuck on a negative array size or an index out of range.)
pub proof fn lemma_soundness(
    fuel: nat,
    vals: Map<Seq<char>, SpecValue>,
    types: Map<Seq<char>, Type>,
    e: SpecExpr,
)
    requires
        hygienic(e),
        recursion_typed(types, e),
        check_spec(types, e) is Ok,
        env_models(vals, types, expr_free_vars(e)),
    ensures
        !(eval(fuel, vals, erase(e)) matches Outcome::Done(Err(_))),
        eval(fuel, vals, erase(e)) matches Outcome::Done(Ok(v)) ==> value_has_type(
            v,
            check_spec(types, e)->Ok_0.0,
        ),
    decreases fuel, 1nat,
{
    if fuel > 0 {
        match e {
            SpecExpr::IntLiteral(n) => {
                lemma_int_type(SpecValue::Int(n));
            },
            SpecExpr::Variable(x) => {
                assert(expr_free_vars(e).contains(x));
            },
            SpecExpr::Add(..) | SpecExpr::Sub(..) | SpecExpr::Eq { .. } | SpecExpr::MkPair(..) => {
                lemma_sound_binary(fuel, vals, types, e);
            },
            SpecExpr::ArrayAlloc { .. } => lemma_sound_alloc(fuel, vals, types, e),
            SpecExpr::Unpack { .. } => lemma_sound_unpack(fuel, vals, types, e),
            SpecExpr::Match { .. } => lemma_sound_match(fuel, vals, types, e),
            SpecExpr::ArraySwap { .. } => lemma_sound_swap(fuel, vals, types, e),
            SpecExpr::Lambda { .. } => lemma_sound_lambda(fuel, vals, types, e),
            SpecExpr::Left(..) | SpecExpr::Right(..) => lemma_sound_injection(fuel, vals, types, e),
            SpecExpr::Split { .. } => lemma_sound_split(fuel, vals, types, e),
            SpecExpr::Merge { .. } => lemma_sound_merge(fuel, vals, types, e),
            SpecExpr::App { func, arg } => {
                if *func is Lambda {
                    if *arg is Lambda {
                        lemma_sound_rec(fuel, vals, types, e);
                    } else {
                        lemma_sound_let(fuel, vals, types, e);
                    }
                } else {
                    lemma_sound_app(fuel, vals, types, e);
                }
            },
            _ => {},
        }
    }
}

/// Soundness for two parts that the checker checks one after the other.
proof fn lemma_sound_parts(
    f: nat,
    vals: Map<Seq<char>, SpecValue>,
    types: Map<Seq<char>, Type>,
    e: SpecExpr,
    l: SpecExpr,
    r: SpecExpr,
)
    requires
        hygienic(l),
        hygienic(r),
        recursion_typed(types, l),
        check_spec(types, l) matches Ok((_, types1)) && check_spec(types1, r) is Ok
            && recursion_typed(types1, r),
        expr_free_vars(l).subset_of(expr_free_vars(e)),
        expr_free_vars(r).subset_of(expr_free_vars(e)),
        env_models(vals, types, expr_free_vars(e)),
    ensures
        sound_at(f, vals, types, l),
        sound_at(f, vals, check_spec(types, l)->Ok_0.1, r),
    decreases f, 2nat,
{
    lemma_models_subset(vals, types, expr_free_vars(l), expr_free_vars(e));
    lemma_soundness(f, vals, types, l);
    lemma_models_subset(vals, types, expr_free_vars(r), expr_free_vars(e));
    lemma_models_frame(vals, types, l, expr_free_vars(r));
    lemma_soundness(f, vals, check_spec(types, l)->Ok_0.1, r);
}

/// Addition, subtraction, comparison and pairing.
proof fn lemma_sound_binary(
    fuel: nat,
    vals: Map<Seq<char>, SpecValue>,
    types: Map<Seq<char>, Type>,
    e: SpecExpr,
)
    requires
        fuel > 0,
        e is Add || e is Sub || e is Eq || e is MkPair,
        sound_premises(vals, types, e),
    ensures
        sound_at(fuel, vals, types, e),
    decreases fuel, 0nat,
{
    let f = (fuel - 1) as nat;
    match e {
        SpecExpr::Add(l, r) | SpecExpr::Sub(l, r) | SpecExpr::Eq { left: l, right: r }
        | SpecExpr::MkPair(l, r) => {
            lemma_sound_parts(f, vals, types, e, *l, *r);
            let (lt, types1) = check_spec(types, *l)->Ok_0;
            let rt = check_spec(types1, *r)->Ok_0.0;
            if let Outcome::Done(Ok(lv)) = eval(f, vals, erase(*l)) {
                if let Outcome::Done(Ok(rv)) = eval(f, vals, erase(*r)) {
                    lemma_int_type(lv);
                    lemma_int_type(rv);
                    if let (SpecValue::Int(a), SpecValue::Int(b)) = (lv, rv) {
                        lemma_int_type(SpecValue::Int(wrap_i64(a + b)));
                        lemma_int_type(SpecValue::Int(wrap_i64(a - b)));
                        lemma_either_type(SpecValue::Int(if a == b { 1 } else { 0 }), lt, rt);
                    }
                    lemma_pair_type(SpecValue::Pair(Box::new(lv), Box::new(rv)), lt, rt);
                }
            }
        },
        _ => {},
    }
}

/// Allocation of an array.
proof fn lemma_sound_alloc(
    fuel: nat,
    vals: Map<Seq<char>, SpecValue>,
    types: Map<Seq<char>, Type>,
    e: SpecExpr,
)
    requires
        fuel > 0,
        e is ArrayAlloc,
        sound_premises(vals, types, e),
    ensures
        sound_at(fuel, vals, types, e),
    decreases fuel, 0nat,
{
    let f = (fuel - 1) as nat;
    if let SpecExpr::ArrayAlloc { size, init_val } = e {
        lemma_sound_parts(f, vals, types, e, *size, *init_val);
        let types1 = check_spec(types, *size)->Ok_0.1;
        if let Outcome::Done(Ok(sv)) = eval(f, vals, erase(*size)) {
            lemma_int_type(sv);
        }
        if let Outcome::Done(Ok(SpecValue::Int(n))) = eval(f, vals, erase(*size)) {
            if let Outcome::Done(Ok(iv)) = eval(f, vals, erase(*init_val)) {
                if n >= 0 {
                    let it = check_spec(types1, *init_val)->Ok_0.0;
                    let es = Seq::new(n as nat, |i: int| iv);
                    assert forall|i: int| 0 <= i < es.len() implies value_has_type(
                        #[trigger] es[i],
                        it,
                    ) by {}
                    lemma_array_type(SpecValue::Array(es), it);
                }
            }
        }
    }
}

/// Taking a pair apart.
proof fn lemma_sound_unpack(
    fuel: nat,
    vals: Map<Seq<char>, SpecValue>,
    types: Map<Seq<char>, Type>,
    e: SpecExpr,
)
    requires
        fuel > 0,
        e is Unpack,
        sound_premises(vals, types, e),
    ensures
        sound_at(fuel, vals, types, e),
    decreases fuel, 0nat,
{
    let f = (fuel - 1) as nat;
    let fv = expr_free_vars(e);
    if let SpecExpr::Unpack { pair, var1, var2, body } = e {
        lemma_models_subset(vals, types, expr_free_vars(*pair), fv);
        lemma_soundness(f, vals, types, *pair);
        let (pt, types1) = check_spec(types, *pair)->Ok_0;
        let t1 = *pt->Pair_0;
        let t2 = *pt->Pair_1;
        if let Outcome::Done(Ok(pv)) = eval(f, vals, erase(*pair)) {
            lemma_pair_type(pv, t1, t2);
        }
        if let Outcome::Done(Ok(SpecValue::Pair(lv, rv))) = eval(f, vals, erase(*pair)) {
            let rest = expr_free_vars(*body).remove(var1).remove(var2);
            lemma_models_subset(vals, types, rest, fv);
            lemma_models_frame(vals, types, *pair, rest);
            assert(rest == expr_free_vars(*body).remove(var2).remove(var1));
            lemma_models_insert(vals, types1, expr_free_vars(*body).remove(var2), var1, *lv, t1);
            lemma_models_insert(
                vals.insert(var1, *lv),
                types1.insert(var1, t1),
                expr_free_vars(*body),
                var2,
                *rv,
                t2,
            );
            lemma_soundness(
                f,
                vals.insert(var1, *lv).insert(var2, *rv),
                types1.insert(var1, t1).insert(var2, t2),
                *body,
            );
        }
    }
}

/// Branching on a comparison.
proof fn lemma_sound_match(
    fuel: nat,
    vals: Map<Seq<char>, SpecValue>,
    types: Map<Seq<char>, Type>,
    e: SpecExpr,
)
    requires
        fuel > 0,
        e is Match,
        sound_premises(vals, types, e),
    ensures
        sound_at(fuel, vals, types, e),
    decreases fuel, 0nat,
{
    let f = (fuel - 1) as nat;
    let fv = expr_free_vars(e);
    if let SpecExpr::Match { expr, left_var, left_body, right_var, right_body } = e {
        lemma_models_subset(vals, types, expr_free_vars(*expr), fv);
        lemma_soundness(f, vals, types, *expr);
        let (st, types1) = check_spec(types, *expr)->Ok_0;
        if let Outcome::Done(Ok(sv)) = eval(f, vals, erase(*expr)) {
            lemma_either_type(sv, *st->Either_0, *st->Either_1);
        }
        if let Outcome::Done(Ok(SpecValue::Int(n))) = eval(f, vals, erase(*expr)) {
            lemma_int_type(SpecValue::Int(n));
            let lrest = expr_free_vars(*left_body).remove(left_var);
            let rrest = expr_free_vars(*right_body).remove(right_var);
            lemma_models_subset(vals, types, lrest, fv);
            lemma_models_frame(vals, types, *expr, lrest);
            lemma_models_subset(vals, types, rrest, fv);
            lemma_models_frame(vals, types, *expr, rrest);
            lemma_models_insert(
                vals,
                types1,
                expr_free_vars(*left_body),
                left_var,
                SpecValue::Int(n),
                Type::Int,
            );
            lemma_models_insert(
                vals,
                types1,
                expr_free_vars(*right_body),
                right_var,
                SpecValue::Int(n),
                Type::Int,
            );
            lemma_soundness(
                f,
                vals.insert(left_var, SpecValue::Int(n)),
                types1.insert(left_var, Type::Int),
                *left_body,
            );
            lemma_soundness(
                f,
                vals.insert(right_var, SpecValue::Int(n)),
                types1.insert(right_var, Type::Int),
                *right_body,
            );
        }
        if let Outcome::Done(Ok(SpecValue::Left(x))) = eval(f, vals, erase(*expr)) {
            let lt = *st->Either_0;
            let lrest = expr_free_vars(*left_body).remove(left_var);
            lemma_models_subset(vals, types, lrest, fv);
            lemma_models_frame(vals, types, *expr, lrest);
            lemma_models_insert(vals, types1, expr_free_vars(*left_body), left_var, *x, lt);
            lemma_soundness(f, vals.insert(left_var, *x), types1.insert(left_var, lt), *left_body);
        }
        if let Outcome::Done(Ok(SpecValue::Right(x))) = eval(f, vals, erase(*expr)) {
            let rt = *st->Either_1;
            let rrest = expr_free_vars(*right_body).remove(right_var);
            lemma_models_subset(vals, types, rrest, fv);
            lemma_models_frame(vals, types, *expr, rrest);
            lemma_models_insert(vals, types1, expr_free_vars(*right_body), right_var, *x, rt);
            lemma_soundness(f, vals.insert(right_var, *x), types1.insert(right_var, rt), *right_body);
        }
    }
}

/// An injection into a sum.
proof fn lemma_sound_injection(
    fuel: nat,
    vals: Map<Seq<char>, SpecValue>,
    types: Map<Seq<char>, Type>,
    e: SpecExpr,
)
    requires
        fuel > 0,
        e is Left || e is Right,
        sound_premises(vals, types, e),
    ensures
        sound_at(fuel, vals, types, e),
    decreases fuel, 0nat,
{
    let f = (fuel - 1) as nat;
    match e {
        SpecExpr::Left(x, other) => {
            lemma_soundness(f, vals, types, *x);
            if let Outcome::Done(Ok(v)) = eval(f, vals, erase(*x)) {
                lemma_either_type(SpecValue::Left(Box::new(v)), check_spec(types, *x)->Ok_0.0, other);
            }
        },
        SpecExpr::Right(x, other) => {
            lemma_soundness(f, vals, types, *x);
            if let Outcome::Done(Ok(v)) = eval(f, vals, erase(*x)) {
                lemma_either_type(SpecValue::Right(Box::new(v)), other, check_spec(types, *x)->Ok_0.0);
            }
        },
        _ => {},
    }
}

/// Replacement of an array element.
proof fn lemma_sound_swap(
    fuel: nat,
    vals: Map<Seq<char>, SpecValue>,
    types: Map<Seq<char>, Type>,
    e: SpecExpr,
)
    requires
        fuel > 0,
        e is ArraySwap,
        sound_premises(vals, types, e),
    ensures
        sound_at(fuel, vals, types, e),
    decreases fuel, 0nat,
{
    let f = (fuel - 1) as nat;
    let fv = expr_free_vars(e);
    if let SpecExpr::ArraySwap { array, index, new_val } = e {
        lemma_sound_parts(f, vals, types, e, *array, *index);
        let types1 = check_spec(types, *array)->Ok_0.1;
        let types2 = check_spec(types1, *index)->Ok_0.1;
        lemma_models_subset(vals, types, expr_free_vars(*new_val), fv);
        lemma_models_frame(vals, types, *array, expr_free_vars(*new_val));
        lemma_models_frame(vals, types1, *index, expr_free_vars(*new_val));
        lemma_soundness(f, vals, types2, *new_val);
        let at = check_spec(types, *array)->Ok_0.0;
        let xt = check_spec(types1, *index)->Ok_0.0;
        let vt = check_spec(types2, *new_val)->Ok_0.0;
        if let Outcome::Done(Ok(xv)) = eval(f, vals, erase(*index)) {
            lemma_int_type(xv);
        }
        if let Outcome::Done(Ok(av)) = eval(f, vals, erase(*array)) {
            if at == Type::Array(Box::new(vt)) {
                lemma_array_type(av, vt);
            }
        }
        if let Outcome::Done(Ok(SpecValue::Array(es))) = eval(f, vals, erase(*array)) {
            if let Outcome::Done(Ok(SpecValue::Int(i))) = eval(f, vals, erase(*index)) {
                if let Outcome::Done(Ok(nv)) = eval(f, vals, erase(*new_val)) {
                    if 0 <= i < es.len() && at == Type::Array(Box::new(vt)) {
                        assert(value_has_type(es[i as int], vt));
                        let es2 = es.update(i as int, nv);
                        assert forall|j: int| 0 <= j < es2.len() implies value_has_type(
                            #[trigger] es2[j],
                            vt,
                        ) by {
                            if j != i {
                                assert(es2[j] == es[j]);
                            }
                        }
                        lemma_array_type(SpecValue::Array(es2), vt);
                        lemma_pair_type(
                            SpecValue::Pair(Box::new(es[i as int]), Box::new(SpecValue::Array(es2))),
                            vt,
                            at,
                        );
                    }
                }
            }
        }
    }
}

/// A lambda: its closure has the checked function type.
proof fn lemma_sound_lambda(
    fuel: nat,
    vals: Map<Seq<char>, SpecValue>,
    types: Map<Seq<char>, Type>,
    e: SpecExpr,
)
    requires
        fuel > 0,
        e is Lambda,
        sound_premises(vals, types, e),
    ensures
        sound_at(fuel, vals, types, e),
    decreases fuel, 0nat,
{
    if let SpecExpr::Lambda { param, param_type, body } = e {
        let ret = check_spec(types.insert(param, param_type), *body)->Ok_0.0;
        assert(closure_typed(types.insert(param, param_type), *body, erase(*body), ret));
        lemma_closure_intro(param, erase(*body), vals, types, *body, param_type, ret);
    }
}

/// Calling a function value of type `Func(p, r)` on a value of type `p`, as
/// an application does once both are evaluated, is sound at type `r`.
proof fn lemma_sound_call(f: nat, fv: SpecValue, av: SpecValue, p: Type, r: Type)
    requires
        value_has_type(fv, Type::Func(Box::new(p), Box::new(r))),
        value_has_type(av, p),
    ensures
        match fv {
            SpecValue::Closure(x, body, cenv) => {
                let o = eval(f, cenv.insert(x, av), body);
                &&& !(o matches Outcome::Done(Err(_)))
                &&& o matches Outcome::Done(Ok(v)) ==> value_has_type(v, r)
            },
            SpecValue::RecClosure(name, x, body, cenv) => {
                let o = eval(f, cenv.insert(name, fv).insert(x, av), body);
                &&& !(o matches Outcome::Done(Err(_)))
                &&& o matches Outcome::Done(Ok(v)) ==> value_has_type(v, r)
            },
            _ => false,
        },
    decreases f, 3nat,
{
    let t = Type::Func(Box::new(p), Box::new(r));
    lemma_func_elim(fv, p, r);
    match fv {
        SpecValue::Closure(x, body, cenv) => {
            let (g, e) = choose|g: Map<Seq<char>, Type>, e: SpecExpr|
                #[trigger] closure_typed(g.insert(x, p), e, body, r) && env_models(
                    cenv,
                    g,
                    expr_free_vars(e).remove(x),
                );
            lemma_models_insert(cenv, g, expr_free_vars(e), x, av, p);
            lemma_soundness(f, cenv.insert(x, av), g.insert(x, p), e);
        },
        SpecValue::RecClosure(name, x, body, cenv) => {
            let (g, e) = choose|g: Map<Seq<char>, Type>, e: SpecExpr|
                #[trigger] closure_typed(
                    g.insert(name, assumed_function_type()).insert(x, p),
                    e,
                    body,
                    r,
                ) && (expr_free_vars(e).remove(x).contains(name) ==> t == assumed_function_type())
                    && env_models(cenv, g, expr_free_vars(e).remove(x).remove(name));
            let names = expr_free_vars(e).remove(x);
            if names.contains(name) {
                lemma_models_insert(cenv, g, names, name, fv, assumed_function_type());
            } else {
                assert(names.remove(name) == names);
                lemma_models_insert_outside(cenv, g, names, name, fv, assumed_function_type());
            }
            lemma_models_insert(
                cenv.insert(name, fv),
                g.insert(name, assumed_function_type()),
                expr_free_vars(e),
                x,
                av,
                p,
            );
            lemma_soundness(
                f,
                cenv.insert(name, fv).insert(x, av),
                g.insert(name, assumed_function_type()).insert(x, p),
                e,
            );
        },
        _ => {},
    }
}

/// An ordinary application: the function part is not a lambda.
proof fn lemma_sound_app(
    fuel: nat,
    vals: Map<Seq<char>, SpecValue>,
    types: Map<Seq<char>, Type>,
    e: SpecExpr,
)
    requires
        fuel > 0,
        e matches SpecExpr::App { func, .. } && !(*func is Lambda),
        sound_premises(vals, types, e),
    ensures
        sound_at(fuel, vals, types, e),
    decreases fuel, 0nat,
{
    let f = (fuel - 1) as nat;
    if let SpecExpr::App { func, arg } = e {
        lemma_erase_lam(*func);
        lemma_sound_parts(f, vals, types, e, *func, *arg);
        assert(eval(fuel, vals, erase(e)) == eval_call(f, vals, erase(*func), erase(*arg)));
        if let Outcome::Done(Ok(fv)) = eval(f, vals, erase(*func)) {
            if let Outcome::Done(Ok(av)) = eval(f, vals, erase(*arg)) {
                let ft = check_spec(types, *func)->Ok_0.0;
                lemma_sound_call(f, fv, av, *ft->Func_0, *ft->Func_1);
            }
        }
    }
}

/// A lambda applied to an argument that is not a lambda: a binding.
proof fn lemma_sound_let(
    fuel: nat,
    vals: Map<Seq<char>, SpecValue>,
    types: Map<Seq<char>, Type>,
    e: SpecExpr,
)
    requires
        fuel > 0,
        e matches SpecExpr::App { func, arg } && *func is Lambda && !(*arg is Lambda),
        sound_premises(vals, types, e),
    ensures
        sound_at(fuel, vals, types, e),
    decreases fuel, 0nat,
{
    let f = (fuel - 1) as nat;
    let fvs = expr_free_vars(e);
    if let SpecExpr::App { func, arg } = e {
        if let SpecExpr::Lambda { param, body, .. } = *func {
            lemma_erase_lam(*arg);
            assert(hygienic(*func));
            assert(expr_free_vars(*func) == expr_free_vars(*body).remove(param));
            let atypes = types.insert(param, assumed_function_type());
            lemma_models_subset(vals, types, expr_free_vars(*arg), fvs);
            lemma_models_arg(vals, types, expr_free_vars(*arg), param);
            lemma_soundness(f, vals, atypes, *arg);
            assert(erase(*func) == SpecIr::Lam(param, Box::new(erase(*body))));
            assert(eval(fuel, vals, erase(e)) == eval_call(f, vals, erase(*func), erase(*arg)));
            if let Outcome::Done(Ok(av)) = eval(f, vals, erase(*arg)) {
                let (at, enva) = check_spec(atypes, *arg)->Ok_0;
                let rest = expr_free_vars(*body).remove(param);
                lemma_models_subset(vals, types, rest, fvs);
                lemma_models_arg(vals, types, rest, param);
                lemma_models_frame(vals, atypes, *arg, rest);
                lemma_models_insert(vals, enva, expr_free_vars(*body), param, av, at);
                lemma_soundness(f, vals.insert(param, av), enva.insert(param, at), *body);
            }
        }
    }
}

/// Binding, in the types alone, a name outside `names` keeps the model of `names`.
proof fn lemma_models_arg(
    vals: Map<Seq<char>, SpecValue>,
    types: Map<Seq<char>, Type>,
    names: Set<Seq<char>>,
    x: Seq<char>,
)
    requires
        env_models(vals, types, names),
        !names.contains(x),
    ensures
        env_models(vals, types.insert(x, assumed_function_type()), names),
{
    assert forall|y: Seq<char>|
        names.contains(y) && types.insert(x, assumed_function_type()).contains_key(y) implies vals.contains_key(y)
        && value_has_type(vals[y], types.insert(x, assumed_function_type())[y]) by {
        assert(y != x);
    }
}

/// A lambda applied to a lambda: a recursive binding of the argument.
#[verifier::rlimit(40)]
proof fn lemma_sound_rec(
    fuel: nat,
    vals: Map<Seq<char>, SpecValue>,
    types: Map<Seq<char>, Type>,
    e: SpecExpr,
)
    requires
        fuel > 0,
        e matches SpecExpr::App { func, arg } && *func is Lambda && *arg is Lambda,
        sound_premises(vals, types, e),
    ensures
        sound_at(fuel, vals, types, e),
    decreases fuel, 0nat,
{
    let f = (fuel - 1) as nat;
    let fvs = expr_free_vars(e);
    if let SpecExpr::App { func, arg } = e {
        if let SpecExpr::Lambda { param: bind, body: in_body, .. } = *func {
            if let SpecExpr::Lambda { param: p, param_type: pt, body: fb } = *arg {
                let atypes = types.insert(bind, assumed_function_type());
                let ret = check_spec(atypes.insert(p, pt), *fb)->Ok_0.0;
                let at = Type::Func(Box::new(pt), Box::new(ret));
                let rec = SpecValue::RecClosure(bind, p, erase(*fb), vals);
                assert(hygienic(*in_body) && hygienic(*fb)) by {
                    assert(hygienic(*func));
                    assert(hygienic(*arg));
                }
                let enva = check_spec(atypes, *arg)->Ok_0.1;
                assert(check_spec(atypes, *arg) == Ok::<(Type, Map<Seq<char>, Type>), TypeError>(
                    (at, enva),
                ));
                assert(recursion_typed(atypes.insert(p, pt), *fb) && recursion_typed(
                    enva.insert(bind, at),
                    *in_body,
                ) && (expr_free_vars(*fb).remove(p).contains(bind) ==> at == assumed_function_type()))
                    by {
                    assert(recursion_typed(atypes, *arg));
                    assert(expr_free_vars(*arg) == expr_free_vars(*fb).remove(p));
                }
                assert(expr_free_vars(*fb).remove(p).remove(bind).subset_of(fvs)) by {
                    assert(expr_free_vars(*arg) == expr_free_vars(*fb).remove(p));
                }
                assert(expr_free_vars(*in_body).remove(bind).subset_of(fvs)) by {
                    assert(expr_free_vars(*func) == expr_free_vars(*in_body).remove(bind));
                }
                assert(closure_typed(atypes.insert(p, pt), *fb, erase(*fb), ret));
                lemma_models_subset(vals, types, expr_free_vars(*fb).remove(p).remove(bind), fvs);
                lemma_rec_closure_intro(bind, p, erase(*fb), vals, types, *fb, pt, ret);
                let rest = expr_free_vars(*in_body).remove(bind);
                lemma_models_subset(vals, types, rest, fvs);
                lemma_models_arg(vals, types, rest, bind);
                lemma_models_frame(vals, atypes, *arg, rest);
                lemma_models_insert(vals, enva, expr_free_vars(*in_body), bind, rec, at);
                lemma_soundness(f, vals.insert(bind, rec), enva.insert(bind, at), *in_body);
                assert(erase(*func) == SpecIr::Lam(bind, Box::new(erase(*in_body))));
                assert(erase(*arg) == SpecIr::Lam(p, Box::new(erase(*fb))));
                assert(eval(fuel, vals, erase(e)) == eval(
                    f,
                    vals.insert(bind, rec),
                    erase(*in_body),
                ));
                assert(check_spec(types, e)->Ok_0.0 == check_spec(enva.insert(bind, at), *in_body)->Ok_0.0);
            }
        }
    }
}

/// Splitting a permission: both halves are the value.
proof fn lemma_sound_split(
    fuel: nat,
    vals: Map<Seq<char>, SpecValue>,
    types: Map<Seq<char>, Type>,
    e: SpecExpr,
)
    requires
        fuel > 0,
        e is Split,
        sound_premises(vals, types, e),
    ensures
        sound_at(fuel, vals, types, e),
    decreases fuel, 0nat,
{
    let f = (fuel - 1) as nat;
    let fv = expr_free_vars(e);
    if let SpecExpr::Split { value, var1, var2, body } = e {
        let ev = erase(*value);
        let pair = SpecIr::MkPair(Box::new(ev), Box::new(ev));
        assert(erase(e) == SpecIr::Unpack(var1, var2, Box::new(pair), Box::new(erase(*body))));
        if f == 0 {
            assert(eval(f, vals, pair) is OutOfFuel);
        }
        if f > 0 {
            let g = (f - 1) as nat;
            lemma_models_subset(vals, types, expr_free_vars(*value), fv);
            lemma_soundness(g, vals, types, *value);
            assert(eval(f, vals, pair) == match eval(g, vals, ev) {
                Outcome::Done(Ok(v)) => Outcome::Done(Ok(SpecValue::Pair(Box::new(v), Box::new(v)))),
                o => o,
            });
            if let Outcome::Done(Ok(v)) = eval(g, vals, ev) {
                let (vt, types1) = check_spec(types, *value)->Ok_0;
                let t = *vt->Lin_0;
                lemma_permission_type(v, t);
                let ht = Type::Half(Box::new(t));
                let rest = expr_free_vars(*body).remove(var1).remove(var2);
                lemma_models_subset(vals, types, rest, fv);
                lemma_models_frame(vals, types, *value, rest);
                assert(rest == expr_free_vars(*body).remove(var2).remove(var1));
                lemma_models_insert(vals, types1, expr_free_vars(*body).remove(var2), var1, v, ht);
                lemma_models_insert(
                    vals.insert(var1, v),
                    types1.insert(var1, ht),
                    expr_free_vars(*body),
                    var2,
                    v,
                    ht,
                );
                lemma_soundness(f, vals.insert(var1, v).insert(var2, v), types1.insert(var1, ht).insert(var2, ht), *body);
                assert(eval(fuel, vals, erase(e)) == eval(
                    f,
                    vals.insert(var1, v).insert(var2, v),
                    erase(*body),
                ));
                assert(check_spec(types, e)->Ok_0.0 == check_spec(
                    types1.insert(var1, ht).insert(var2, ht),
                    *body,
                )->Ok_0.0);
            }
        }
    }
}

/// Merging two halves: the full permission is the left half's value.
proof fn lemma_sound_merge(
    fuel: nat,
    vals: Map<Seq<char>, SpecValue>,
    types: Map<Seq<char>, Type>,
    e: SpecExpr,
)
    requires
        fuel > 0,
        e is Merge,
        sound_premises(vals, types, e),
    ensures
        sound_at(fuel, vals, types, e),
    decreases fuel, 0nat,
{
    let f = (fuel - 1) as nat;
    let fv = expr_free_vars(e);
    if let SpecExpr::Merge { left, right, var, body } = e {
        assert(fv.contains(left) && fv.contains(right));
        assert(left != right);
        let t1 = *types[left]->Half_0;
        let types2 = types.remove(left).remove(right);
        assert(types.remove(left)[right] == types[right]);
        let pair = SpecIr::MkPair(Box::new(SpecIr::Var(right)), Box::new(SpecIr::Var(left)));
        assert(erase(e) == SpecIr::Unpack(var, var, Box::new(pair), Box::new(erase(*body))));
        if f == 0 {
            assert(eval(f, vals, pair) is OutOfFuel);
        }
        if f > 0 {
            let g = (f - 1) as nat;
            let av = vals[left];
            let bv = vals[right];
            lemma_permission_type(av, t1);
            if g == 0 {
                assert(eval(g, vals, SpecIr::Var(right)) is OutOfFuel);
                assert(eval(f, vals, pair) is OutOfFuel);
            }
            if g > 0 {
                assert(eval(g, vals, SpecIr::Var(right)) == Outcome::Done(Ok::<SpecValue, VmError>(bv)));
                assert(eval(g, vals, SpecIr::Var(left)) == Outcome::Done(Ok::<SpecValue, VmError>(av)));
                assert(eval(f, vals, pair) == Outcome::Done(
                    Ok::<SpecValue, VmError>(SpecValue::Pair(Box::new(bv), Box::new(av))),
                ));
            }
            assert(vals.insert(var, bv).insert(var, av) =~= vals.insert(var, av));
            let rest = expr_free_vars(*body).remove(var);
            lemma_models_subset(vals, types, rest, fv);
            assert(submap(types2, types));
            lemma_models_sub(vals, types, types2, rest);
            let lt = Type::Lin(Box::new(t1));
            lemma_models_insert(vals, types2, expr_free_vars(*body), var, av, lt);
            lemma_soundness(f, vals.insert(var, av), types2.insert(var, lt), *body);
            assert(erase(e) == SpecIr::Unpack(var, var, Box::new(pair), Box::new(erase(*body))));
            if g > 0 {
                assert(eval(fuel, vals, erase(e)) == eval(f, vals.insert(var, av), erase(*body)));
            }
            assert(check_spec(types, e)->Ok_0.0 == check_spec(types2.insert(var, lt), *body)->Ok_0.0);
        }
    }
}

} // verus!
