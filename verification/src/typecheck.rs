//! The type checker.
use vstd::prelude::*;
use crate::ast::{Expr, SpecExpr, Type, type_text};
use crate::bindings::{bindings, lemma_bindings_dom, lemma_bindings_lookup};

verus! {

/// An environment of types: a list of bindings in which a later binding of a
/// name hides an earlier one.
#[derive(Debug)]
pub struct TypeEnv {
    pub entries: Vec<(String, Type)>,
}

impl View for TypeEnv {
    type V = Map<Seq<char>, Type>;

    open spec fn view(&self) -> Map<Seq<char>, Type> {
        bindings(self.entries@)
    }
}

impl TypeEnv {
    /// An environment with no bindings.
    pub fn new() -> (r: TypeEnv)
        ensures
            r@ == Map::<Seq<char>, Type>::empty(),
    {
        TypeEnv { entries: Vec::new() }
    }

    /// Binds `name` to `t`, hiding any earlier binding of `name`.
    pub fn insert(&mut self, name: String, t: Type)
        ensures
            final(self)@ == old(self)@.insert(name@, t),
    {
        let ghost old_entries = self.entries@;
        self.entries.push((name, t));
        assert(self.entries@.subrange(0, self.entries@.len() - 1) =~= old_entries);
    }

    /// The type bound to `name`, if any.
    pub fn get(&self, name: &String) -> (r: Option<&Type>)
        ensures
            match r {
                Some(t) => self@.contains_key(name@) && self@[name@] == *t,
                None => !self@.contains_key(name@),
            },
    {
        let mut i = self.entries.len();
        while i > 0
            invariant
                i <= self.entries@.len(),
                forall|j: int| i <= j < self.entries@.len() ==> (#[trigger] self.entries@[j]).0@
                    != name@,
            decreases i,
        {
            i = i - 1;
            if self.entries[i].0 == *name {
                proof {
                    let es = self.entries@;
                    lemma_bindings_lookup(es, i + 1, name@);
                    let es2 = es.subrange(0, i + 1);
                    assert(es2.subrange(0, es2.len() - 1) =~= es.subrange(0, i as int));
                }
                return Some(&self.entries[i].1);
            }
        }
        proof {
            lemma_bindings_lookup(self.entries@, 0, name@);
            assert(self.entries@.subrange(0, 0) =~= Seq::<(String, Type)>::empty());
        }
        None
    }

    /// Removes every binding of `name`.
    pub fn remove(&mut self, name: &String)
        ensures
            final(self)@ == old(self)@.remove(name@),
    {
        let mut out: Vec<(String, Type)> = Vec::new();
        let n = self.entries.len();
        let mut i: usize = 0;
        while i < n
            invariant
                n == self.entries@.len(),
                i <= n,
                bindings(out@) == bindings(self.entries@.subrange(0, i as int)).remove(
                    name@,
                ),
            decreases n - i,
        {
            let ghost old_out = out@;
            let ghost s1 = self.entries@.subrange(0, i + 1);
            proof {
                assert(s1.subrange(0, s1.len() - 1) =~= self.entries@.subrange(0, i as int));
            }
            if self.entries[i].0 != *name {
                let k = self.entries[i].0.clone();
                let t = self.entries[i].1.duplicate();
                out.push((k, t));
                proof {
                    assert(out@.subrange(0, out@.len() - 1) =~= old_out);
                    assert(bindings(out@) =~= bindings(s1).remove(name@));
                }
            } else {
                proof {
                    assert(bindings(out@) =~= bindings(s1).remove(name@));
                }
            }
            i = i + 1;
        }
        proof {
            assert(self.entries@.subrange(0, n as int) =~= self.entries@);
        }
        self.entries = out;
    }

    /// Whether the two environments, each a part of this one, hold the same bindings.
    pub fn same_part(&self, a: &TypeEnv, b: &TypeEnv) -> (r: bool)
        requires
            submap(a@, self@),
            submap(b@, self@),
        ensures
            r == (a@ == b@),
    {
        let n = self.entries.len();
        let mut i: usize = 0;
        while i < n
            invariant
                n == self.entries@.len(),
                i <= n,
                forall|j: int|
                    0 <= j < i ==> (a@.contains_key((#[trigger] self.entries@[j]).0@) == b@.contains_key(
                        self.entries@[j].0@,
                    )),
            decreases n - i,
        {
            let in_a = a.get(&self.entries[i].0).is_some();
            let in_b = b.get(&self.entries[i].0).is_some();
            if in_a != in_b {
                proof {
                    let k = self.entries@[i as int].0@;
                    assert(a@.contains_key(k) != b@.contains_key(k));
                }
                return false;
            }
            i = i + 1;
        }
        proof {
            assert forall|k: Seq<char>| #[trigger] a@.contains_key(k) == b@.contains_key(k) by {
                lemma_bindings_dom(self.entries@, k);
                if a@.contains_key(k) || b@.contains_key(k) {
                    let j = choose|j: int| 0 <= j < self.entries@.len() && (#[trigger] self.entries@[j]).0@
                        == k;
                    assert(self.entries@[j].0@ == k);
                }
            }
            assert(a@ =~= b@);
        }
        true
    }

    /// A copy of the environment, with the same model.
    pub fn duplicate(&self) -> (r: TypeEnv)
        ensures
            r@ == self@,
    {
        let mut out: Vec<(String, Type)> = Vec::new();
        let n = self.entries.len();
        let mut i: usize = 0;
        while i < n
            invariant
                n == self.entries@.len(),
                i <= n,
                bindings(out@) == bindings(self.entries@.subrange(0, i as int)),
            decreases n - i,
        {
            let name = self.entries[i].0.clone();
            let t = self.entries[i].1.duplicate();
            let ghost old_out = out@;
            out.push((name, t));
            proof {
                assert(out@.subrange(0, out@.len() - 1) =~= old_out);
                let s1 = self.entries@.subrange(0, i + 1);
                assert(s1.subrange(0, s1.len() - 1) =~= self.entries@.subrange(0, i as int));
            }
            i = i + 1;
        }
        assert(self.entries@.subrange(0, n as int) =~= self.entries@);
        TypeEnv { entries: out }
    }
}

/// The type errors.
pub enum TypeError {
    Undefined(Seq<char>),
    Arithmetic(Type, Type),
    EqMismatch,
    BranchesDiffer(Type, Type),
    NotEither,
    ArgumentMismatch(Type, Type),
    NotAFunction(Type),
    NotAPair,
    ArraySize,
    ArraySwap,
    NotConsumed(Seq<char>),
    BranchesConsumeDifferently,
    NotLinear,
    NotHalves,
}

impl TypeError {
    /// The text of the error.
    pub open spec fn message(self) -> Seq<char> {
        match self {
            TypeError::Undefined(x) => "Type Error: Undefined '"@ + x + "'"@,
            TypeError::Arithmetic(l, r) => "Type Error: Arithmetic requires matching types. Got "@
                + type_text(l) + " and "@ + type_text(r),
            TypeError::EqMismatch => "Type Error: eq requires matching types"@,
            TypeError::BranchesDiffer(l, r) => "Type Error: Match branches differ. Left: "@
                + type_text(l) + ", Right: "@ + type_text(r),
            TypeError::NotEither => "Type Error: Can only match on Either"@,
            TypeError::ArgumentMismatch(p, a) => "Type Error: Expected "@ + type_text(p)
                + ", got "@ + type_text(a),
            TypeError::NotAFunction(t) => "Type Error: Non-function. Got "@ + type_text(t),
            TypeError::NotAPair => "Type Error: Unpack requires Pair"@,
            TypeError::ArraySize => "Type Error: Array size must be Int"@,
            TypeError::ArraySwap => "Type Error: array_swap requires an Array, an Int index and an element"@,
            TypeError::NotConsumed(x) => "Type Error: Linear variable '"@ + x + "' is not consumed"@,
            TypeError::BranchesConsumeDifferently => "Type Error: Match branches consume different variables"@,
            TypeError::NotLinear => "Type Error: split requires a Lin value"@,
            TypeError::NotHalves => "Type Error: merge requires two halves of one type"@,
        }
    }
}

/// The type a recursive binding's name has while its bound expression is checked.
pub open spec fn assumed_function_type() -> Type {
    Type::Func(Box::new(Type::Pair(Box::new(Type::Int), Box::new(Type::Int))), Box::new(Type::Int))
}

/// The environment that a scope binding `x` leaves behind: where the
/// environment `outer`, into which the scope bound `x`, held a binding of `x`
/// that the scope hid, that binding is in force again.
pub open spec fn restore(
    inner: Map<Seq<char>, Type>,
    outer: Map<Seq<char>, Type>,
    x: Seq<char>,
) -> Map<Seq<char>, Type> {
    if outer.contains_key(x) {
        inner.insert(x, outer[x])
    } else {
        inner
    }
}

/// The result of checking an expression in an environment: its type and the
/// environment that checking leaves behind, or an error. Every binding is
/// linear: a use of a name consumes it (it is gone from the environment left
/// behind), each name that a lambda, an unpacking or a branch binds must be
/// consumed in its body, and the two branches of a match must consume the same
/// names. A name bound by a scope hides an outer binding of the same name
/// inside the scope only: after the scope the outer binding is in force again.
pub open spec fn check_spec(env: Map<Seq<char>, Type>, e: SpecExpr) -> Result<
    (Type, Map<Seq<char>, Type>),
    TypeError,
>
    decreases e,
{
    match e {
        SpecExpr::IntLiteral(_) => Ok((Type::Int, env)),
        SpecExpr::Variable(x) => if env.contains_key(x) {
            Ok((env[x], env.remove(x)))
        } else {
            Err(TypeError::Undefined(x))
        },
        SpecExpr::Add(l, r) | SpecExpr::Sub(l, r) => match check_spec(env, *l) {
            Ok((lt, env1)) => match check_spec(env1, *r) {
                Ok((rt, env2)) => if lt == Type::Int && rt == Type::Int {
                    Ok((Type::Int, env2))
                } else {
                    Err(TypeError::Arithmetic(lt, rt))
                },
                Err(err) => Err(err),
            },
            Err(err) => Err(err),
        },
        SpecExpr::Eq { left, right } => match check_spec(env, *left) {
            Ok((lt, env1)) => match check_spec(env1, *right) {
                Ok((rt, env2)) => if lt == Type::Int && rt == Type::Int {
                    Ok((Type::Either(Box::new(lt), Box::new(rt)), env2))
                } else {
                    Err(TypeError::EqMismatch)
                },
                Err(err) => Err(err),
            },
            Err(err) => Err(err),
        },
        SpecExpr::Left(x, right_type) => match check_spec(env, *x) {
            Ok((lt, env1)) => Ok((Type::Either(Box::new(lt), Box::new(right_type)), env1)),
            Err(err) => Err(err),
        },
        SpecExpr::Right(x, left_type) => match check_spec(env, *x) {
            Ok((rt, env1)) => Ok((Type::Either(Box::new(left_type), Box::new(rt)), env1)),
            Err(err) => Err(err),
        },
        SpecExpr::Match { expr, left_var, left_body, right_var, right_body } => match check_spec(
            env,
            *expr,
        ) {
            Ok((Type::Either(lt, rt), env1)) => match check_spec(
                env1.insert(left_var, *lt),
                *left_body,
            ) {
                Ok((lres, envl)) => if envl.contains_key(left_var) {
                    Err(TypeError::NotConsumed(left_var))
                } else {
                    match check_spec(env1.insert(right_var, *rt), *right_body) {
                        Ok((rres, envr)) => if envr.contains_key(right_var) {
                            Err(TypeError::NotConsumed(right_var))
                        } else if lres != rres {
                            Err(TypeError::BranchesDiffer(lres, rres))
                        } else if restore(envl, env1, left_var) != restore(envr, env1, right_var) {
                            Err(TypeError::BranchesConsumeDifferently)
                        } else {
                            Ok((lres, restore(envl, env1, left_var)))
                        },
                        Err(err) => Err(err),
                    }
                },
                Err(err) => Err(err),
            },
            Ok(_) => Err(TypeError::NotEither),
            Err(err) => Err(err),
        },
        SpecExpr::Lambda { param, param_type, body } => match check_spec(
            env.insert(param, param_type),
            *body,
        ) {
            Ok((ret, envb)) => if envb.contains_key(param) {
                Err(TypeError::NotConsumed(param))
            } else {
                Ok((Type::Func(Box::new(param_type), Box::new(ret)), restore(envb, env, param)))
            },
            Err(err) => Err(err),
        },
        SpecExpr::App { func, arg } => match *func {
            SpecExpr::Lambda { param, body, .. } => match check_spec(
                env.insert(param, assumed_function_type()),
                *arg,
            ) {
                Ok((at, enva)) => match check_spec(enva.insert(param, at), *body) {
                    Ok((ret, envb)) => if envb.contains_key(param) {
                        Err(TypeError::NotConsumed(param))
                    } else {
                        Ok((ret, restore(envb, env, param)))
                    },
                    Err(err) => Err(err),
                },
                Err(err) => Err(err),
            },
            _ => match check_spec(env, *func) {
                Ok((ft, env1)) => match check_spec(env1, *arg) {
                    Ok((at, env2)) => match ft {
                        Type::Func(p, r) => if *p == at {
                            Ok((*r, env2))
                        } else {
                            Err(TypeError::ArgumentMismatch(*p, at))
                        },
                        _ => Err(TypeError::NotAFunction(ft)),
                    },
                    Err(err) => Err(err),
                },
                Err(err) => Err(err),
            },
        },
        SpecExpr::MkPair(l, r) => match check_spec(env, *l) {
            Ok((lt, env1)) => match check_spec(env1, *r) {
                Ok((rt, env2)) => Ok((Type::Pair(Box::new(lt), Box::new(rt)), env2)),
                Err(err) => Err(err),
            },
            Err(err) => Err(err),
        },
        SpecExpr::Unpack { pair, var1, var2, body } => match check_spec(env, *pair) {
            Ok((Type::Pair(t1, t2), env1)) => match check_spec(
                env1.insert(var1, *t1).insert(var2, *t2),
                *body,
            ) {
                Ok((bt, envb)) => if envb.contains_key(var1) {
                    Err(TypeError::NotConsumed(var1))
                } else if envb.contains_key(var2) {
                    Err(TypeError::NotConsumed(var2))
                } else {
                    Ok((bt, restore(restore(envb, env1, var1), env1, var2)))
                },
                Err(err) => Err(err),
            },
            Ok(_) => Err(TypeError::NotAPair),
            Err(err) => Err(err),
        },
        SpecExpr::ArrayAlloc { size, init_val } => match check_spec(env, *size) {
            Ok((st, env1)) => match check_spec(env1, *init_val) {
                Ok((it, env2)) => if st == Type::Int {
                    Ok((Type::Array(Box::new(it)), env2))
                } else {
                    Err(TypeError::ArraySize)
                },
                Err(err) => Err(err),
            },
            Err(err) => Err(err),
        },
        SpecExpr::ArraySwap { array, index, new_val } => match check_spec(env, *array) {
            Ok((at, env1)) => match check_spec(env1, *index) {
                Ok((xt, env2)) => match check_spec(env2, *new_val) {
                    Ok((vt, env3)) => if at == Type::Array(Box::new(vt)) && xt == Type::Int {
                        Ok((Type::Pair(Box::new(vt), Box::new(at)), env3))
                    } else {
                        Err(TypeError::ArraySwap)
                    },
                    Err(err) => Err(err),
                },
                Err(err) => Err(err),
            },
            Err(err) => Err(err),
        },
        SpecExpr::Split { value, var1, var2, body } => match check_spec(env, *value) {
            Ok((Type::Lin(t), env1)) => match check_spec(
                env1.insert(var1, Type::Half(t)).insert(var2, Type::Half(t)),
                *body,
            ) {
                Ok((bt, envb)) => if envb.contains_key(var1) {
                    Err(TypeError::NotConsumed(var1))
                } else if envb.contains_key(var2) {
                    Err(TypeError::NotConsumed(var2))
                } else {
                    Ok((bt, restore(restore(envb, env1, var1), env1, var2)))
                },
                Err(err) => Err(err),
            },
            Ok(_) => Err(TypeError::NotLinear),
            Err(err) => Err(err),
        },
        SpecExpr::Merge { left, right, var, body } => if !env.contains_key(left) {
            Err(TypeError::Undefined(left))
        } else if !env.remove(left).contains_key(right) {
            Err(TypeError::Undefined(right))
        } else {
            match (env[left], env.remove(left)[right]) {
                (Type::Half(t1), Type::Half(t2)) => if t1 == t2 {
                    match check_spec(
                        env.remove(left).remove(right).insert(var, Type::Lin(t1)),
                        *body,
                    ) {
                        Ok((bt, envb)) => if envb.contains_key(var) {
                            Err(TypeError::NotConsumed(var))
                        } else {
                            Ok((bt, restore(envb, env.remove(left).remove(right), var)))
                        },
                        Err(err) => Err(err),
                    }
                } else {
                    Err(TypeError::NotHalves)
                },
                _ => Err(TypeError::NotHalves),
            }
        },
    }
}

/// An executable result stands for the checker's verdict.
pub open spec fn check_matches(
    r: Result<(Type, TypeEnv), String>,
    s: Result<(Type, Map<Seq<char>, Type>), TypeError>,
) -> bool {
    match (r, s) {
        (Ok((t, env)), Ok((st, senv))) => t == st && env@ == senv,
        (Err(m), Err(e)) => m@ == e.message(),
        _ => false,
    }
}

/// Checking only consumes: the environment that checking leaves behind holds
/// no binding that the given one does not, and changes none.
pub open spec fn submap(small: Map<Seq<char>, Type>, big: Map<Seq<char>, Type>) -> bool {
    forall|k: Seq<char>| #[trigger] small.contains_key(k) ==> big.contains_key(k) && small[k] == big[k]
}

/// Putting back the binding that a scope hid leaves the environment behind the
/// scope a part of the one the scope was entered with.
proof fn lemma_restore_submap(inner: Map<Seq<char>, Type>, outer: Map<Seq<char>, Type>, x: Seq<char>)
    requires
        forall|k: Seq<char>| #[trigger] inner.contains_key(k) && k != x ==> outer.contains_key(k)
            && inner[k] == outer[k],
        inner.contains_key(x) ==> outer.contains_key(x),
    ensures
        submap(restore(inner, outer, x), outer),
{
}

/// Checking only consumes bindings: the environment it leaves behind is a part
/// of the one it was given, so that no binding made inside an expression
/// outlives it.
pub proof fn lemma_check_submap(env: Map<Seq<char>, Type>, e: SpecExpr)
    ensures
        check_spec(env, e) matches Ok((_, env2)) ==> submap(env2, env),
    decreases e,
{
    match e {
        SpecExpr::IntLiteral(_) | SpecExpr::Variable(_) => {},
        SpecExpr::Lambda { param, param_type, body } => {
            lemma_check_submap(env.insert(param, param_type), *body);
            if let Ok((_, envb)) = check_spec(env.insert(param, param_type), *body) {
                if !envb.contains_key(param) {
                    lemma_restore_submap(envb, env, param);
                }
            }
        },
        SpecExpr::Add(l, r) | SpecExpr::Sub(l, r) | SpecExpr::MkPair(l, r)
        | SpecExpr::Eq { left: l, right: r } | SpecExpr::ArrayAlloc { size: l, init_val: r } => {
            lemma_check_submap(env, *l);
            if let Ok((_, env1)) = check_spec(env, *l) {
                lemma_check_submap(env1, *r);
            }
        },
        SpecExpr::Left(x, _) | SpecExpr::Right(x, _) => {
            lemma_check_submap(env, *x);
        },
        SpecExpr::Match { expr, left_var, left_body, right_var, right_body } => {
            lemma_check_submap(env, *expr);
            if let Ok((Type::Either(lt, rt), env1)) = check_spec(env, *expr) {
                lemma_check_submap(env1.insert(left_var, *lt), *left_body);
                if let Ok((_, envl)) = check_spec(env1.insert(left_var, *lt), *left_body) {
                    if !envl.contains_key(left_var) {
                        lemma_restore_submap(envl, env1, left_var);
                    }
                }
            }
        },
        SpecExpr::App { func, arg } => {
            match *func {
                SpecExpr::Lambda { param, body, .. } => {
                    lemma_check_submap(env.insert(param, assumed_function_type()), *arg);
                    if let Ok((at, enva)) = check_spec(env.insert(param, assumed_function_type()), *arg) {
                        lemma_check_submap(enva.insert(param, at), *body);
                        if let Ok((_, envb)) = check_spec(enva.insert(param, at), *body) {
                            if !envb.contains_key(param) {
                                lemma_restore_submap(envb, env, param);
                            }
                        }
                    }
                },
                _ => {
                    lemma_check_submap(env, *func);
                    if let Ok((_, env1)) = check_spec(env, *func) {
                        lemma_check_submap(env1, *arg);
                    }
                },
            }
        },
        SpecExpr::Unpack { pair, var1, var2, body } => {
            lemma_check_submap(env, *pair);
            if let Ok((Type::Pair(t1, t2), env1)) = check_spec(env, *pair) {
                lemma_check_submap(env1.insert(var1, *t1).insert(var2, *t2), *body);
                if let Ok((_, envb)) = check_spec(env1.insert(var1, *t1).insert(var2, *t2), *body) {
                    if !envb.contains_key(var1) && !envb.contains_key(var2) {
                        lemma_restore_submap(envb, env1, var1);
                        lemma_restore_submap(restore(envb, env1, var1), env1, var2);
                    }
                }
            }
        },
        SpecExpr::ArraySwap { array, index, new_val } => {
            lemma_check_submap(env, *array);
            if let Ok((_, env1)) = check_spec(env, *array) {
                lemma_check_submap(env1, *index);
                if let Ok((_, env2)) = check_spec(env1, *index) {
                    lemma_check_submap(env2, *new_val);
                }
            }
        },
        SpecExpr::Split { value, var1, var2, body } => {
            lemma_check_submap(env, *value);
            if let Ok((Type::Lin(t), env1)) = check_spec(env, *value) {
                let inner = env1.insert(var1, Type::Half(t)).insert(var2, Type::Half(t));
                lemma_check_submap(inner, *body);
                if let Ok((_, envb)) = check_spec(inner, *body) {
                    if !envb.contains_key(var1) && !envb.contains_key(var2) {
                        lemma_restore_submap(envb, env1, var1);
                        lemma_restore_submap(restore(envb, env1, var1), env1, var2);
                    }
                }
            }
        },
        SpecExpr::Merge { left, right, var, body } => {
            if env.contains_key(left) && env.remove(left).contains_key(right) {
                if let Type::Half(t1) = env[left] {
                    let outer = env.remove(left).remove(right);
                    lemma_check_submap(outer.insert(var, Type::Lin(t1)), *body);
                    if let Ok((_, envb)) = check_spec(outer.insert(var, Type::Lin(t1)), *body) {
                        if !envb.contains_key(var) {
                            lemma_restore_submap(envb, outer, var);
                        }
                    }
                }
            }
        },
    }
}

/// Linearity of a variable: a use consumes it, so that a second use in the
/// same part finds it no longer bound.
pub proof fn lemma_use_consumes(env: Map<Seq<char>, Type>, x: Seq<char>)
    ensures
        check_spec(env, SpecExpr::Variable(x)) matches Ok((_, env2)) ==> !env2.contains_key(x),
        check_spec(env, SpecExpr::Add(Box::new(SpecExpr::Variable(x)), Box::new(SpecExpr::Variable(x))))
            is Err,
{
    let v = SpecExpr::Variable(x);
    if let Ok((_, env1)) = check_spec(env, v) {
        assert(!env1.contains_key(x));
        assert(check_spec(env1, v) is Err);
    }
}

/// A function must consume its parameter: a lambda is accepted only where
/// checking its body, with the parameter bound, leaves the parameter unbound.
pub proof fn lemma_lambda_consumes_param(
    env: Map<Seq<char>, Type>,
    param: Seq<char>,
    param_type: Type,
    body: SpecExpr,
)
    ensures
        check_spec(env, SpecExpr::Lambda { param, param_type, body: Box::new(body) }) is Ok
            ==> (check_spec(env.insert(param, param_type), body) matches Ok((_, envb))
            && !envb.contains_key(param)),
{
}

/// A name has the type it is bound to, and using it consumes exactly that
/// binding: every other binding is left as it was.
pub proof fn lemma_variable_rule(env: Map<Seq<char>, Type>, x: Seq<char>)
    ensures
        env.contains_key(x) ==> {
            &&& check_spec(env, SpecExpr::Variable(x)) matches Ok((t, env2))
            &&& t == env[x]
            &&& !env2.contains_key(x)
            &&& forall|y: Seq<char>|
                y != x ==> (#[trigger] env2.contains_key(y) == env.contains_key(y) && (env.contains_key(y)
                    ==> env2[y] == env[y]))
        },
        !env.contains_key(x) ==> check_spec(env, SpecExpr::Variable(x)) == Err::<
            (Type, Map<Seq<char>, Type>),
            TypeError,
        >(TypeError::Undefined(x)),
{
}

/// Sums and differences are of integers and are integers: one is accepted
/// only where its left side is an integer and then, in what the left side
/// leaves behind, its right side is one too; what the right side leaves
/// behind is what the whole leaves behind.
pub proof fn lemma_arithmetic_rule(env: Map<Seq<char>, Type>, l: SpecExpr, r: SpecExpr)
    ensures
        check_spec(env, SpecExpr::Add(Box::new(l), Box::new(r))) matches Ok((t, env2)) ==> {
            &&& t == Type::Int
            &&& check_spec(env, l) matches Ok((lt, env1))
            &&& lt == Type::Int
            &&& check_spec(env1, r) == Ok::<(Type, Map<Seq<char>, Type>), TypeError>((Type::Int, env2))
        },
        check_spec(env, SpecExpr::Sub(Box::new(l), Box::new(r))) matches Ok((t, env2)) ==> {
            &&& t == Type::Int
            &&& check_spec(env, l) matches Ok((lt, env1))
            &&& lt == Type::Int
            &&& check_spec(env1, r) == Ok::<(Type, Map<Seq<char>, Type>), TypeError>((Type::Int, env2))
        },
{
}

/// Application of a function that is not written as a lambda: the function
/// part must have a function type whose parameter type is the argument's
/// type, and the application has the function's result type.
pub proof fn lemma_application_rule(env: Map<Seq<char>, Type>, func: SpecExpr, arg: SpecExpr)
    requires
        !(func is Lambda),
    ensures
        check_spec(env, SpecExpr::App { func: Box::new(func), arg: Box::new(arg) }) matches Ok((t, env2))
            ==> {
            &&& check_spec(env, func) matches Ok((Type::Func(p, res), env1))
            &&& check_spec(env1, arg) matches Ok((at, env3))
            &&& *p == at
            &&& *res == t
            &&& env3 == env2
        },
{
}

/// A pair has the pair type of its two components, checked left then right.
pub proof fn lemma_pair_rule(env: Map<Seq<char>, Type>, l: SpecExpr, r: SpecExpr)
    ensures
        check_spec(env, SpecExpr::MkPair(Box::new(l), Box::new(r))) matches Ok((t, env2)) ==> {
            &&& check_spec(env, l) matches Ok((lt, env1))
            &&& check_spec(env1, r) matches Ok((rt, env3))
            &&& t == Type::Pair(Box::new(lt), Box::new(rt))
            &&& env3 == env2
        },
{
}

/// An unpacking must consume both names it binds: it is accepted only where
/// its pair has a pair type and checking its body, with the two names bound to
/// the two component types, leaves neither name bound; its type is the body's.
pub proof fn lemma_unpack_consumes_both(
    env: Map<Seq<char>, Type>,
    pair: SpecExpr,
    var1: Seq<char>,
    var2: Seq<char>,
    body: SpecExpr,
)
    ensures
        check_spec(
            env,
            SpecExpr::Unpack { pair: Box::new(pair), var1, var2, body: Box::new(body) },
        ) matches Ok((t, _)) ==> {
            &&& check_spec(env, pair) matches Ok((Type::Pair(t1, t2), env1))
            &&& check_spec(env1.insert(var1, *t1).insert(var2, *t2), body) matches Ok((bt, envb))
            &&& bt == t
            &&& !envb.contains_key(var1)
            &&& !envb.contains_key(var2)
        },
{
}

/// A split must consume both halves it binds: it is accepted only where its
/// value has a full permission type `Lin(t)` and checking its body, with the two
/// names bound to `Half(t)`, leaves neither name bound.
pub proof fn lemma_split_consumes_both(
    env: Map<Seq<char>, Type>,
    value: SpecExpr,
    var1: Seq<char>,
    var2: Seq<char>,
    body: SpecExpr,
)
    ensures
        check_spec(
            env,
            SpecExpr::Split { value: Box::new(value), var1, var2, body: Box::new(body) },
        ) matches Ok((t, _)) ==> {
            &&& check_spec(env, value) matches Ok((Type::Lin(lt), env1))
            &&& check_spec(
                env1.insert(var1, Type::Half(lt)).insert(var2, Type::Half(lt)),
                body,
            ) matches Ok((bt, envb))
            &&& bt == t
            &&& !envb.contains_key(var1)
            &&& !envb.contains_key(var2)
        },
{
}

/// A merge consumes two halves of one type and must consume the full
/// permission it rebuilds: it is accepted only where `left` is bound to
/// `Half(t)` and, once `left` is consumed, `right` to `Half(t)` as well, and
/// checking its body with both halves consumed and `var` bound to `Lin(t)`
/// leaves `var` unbound. The halves are gone from what it leaves behind.
pub proof fn lemma_merge_consumes_all(
    env: Map<Seq<char>, Type>,
    left: Seq<char>,
    right: Seq<char>,
    var: Seq<char>,
    body: SpecExpr,
)
    ensures
        check_spec(env, SpecExpr::Merge { left, right, var, body: Box::new(body) }) matches Ok(
            (t, env2),
        ) ==> {
            &&& env.contains_key(left)
            &&& env[left] matches Type::Half(h)
            &&& env.remove(left).contains_key(right)
            &&& env.remove(left)[right] == Type::Half(h)
            &&& check_spec(env.remove(left).remove(right).insert(var, Type::Lin(h)), body) matches Ok(
                (bt, envb),
            )
            &&& bt == t
            &&& !envb.contains_key(var)
            &&& (left != var ==> !env2.contains_key(left))
            &&& (right != var ==> !env2.contains_key(right))
        },
{
    if let Ok((t, env2)) = check_spec(env, SpecExpr::Merge { left, right, var, body: Box::new(body) }) {
        if let Type::Half(h) = env[left] {
            lemma_check_submap(env.remove(left).remove(right).insert(var, Type::Lin(h)), body);
        }
    }
}

/// A directly applied lambda must consume its parameter: it is accepted only
/// where checking the body, with the parameter bound to the argument's type,
/// leaves the parameter unbound; its type is the body's.
pub proof fn lemma_let_consumes_param(
    env: Map<Seq<char>, Type>,
    param: Seq<char>,
    param_type: Type,
    body: SpecExpr,
    arg: SpecExpr,
)
    ensures
        check_spec(
            env,
            SpecExpr::App {
                func: Box::new(SpecExpr::Lambda { param, param_type, body: Box::new(body) }),
                arg: Box::new(arg),
            },
        ) matches Ok((t, _)) ==> {
            &&& check_spec(env.insert(param, assumed_function_type()), arg) matches Ok((at, enva))
            &&& check_spec(enva.insert(param, at), body) matches Ok((bt, envb))
            &&& bt == t
            &&& !envb.contains_key(param)
        },
{
}

/// Scoping: a lambda's parameter hides an outer binding of the same name only
/// inside the lambda; the environment the lambda leaves behind holds that
/// outer binding, unchanged.
pub proof fn lemma_lambda_keeps_outer(
    env: Map<Seq<char>, Type>,
    param: Seq<char>,
    param_type: Type,
    body: SpecExpr,
)
    ensures
        check_spec(env, SpecExpr::Lambda { param, param_type, body: Box::new(body) }) matches Ok(
            (_, env2),
        ) ==> (env.contains_key(param) ==> env2.contains_key(param) && env2[param] == env[param]),
{
}

/// The branch equivalence rule: a match is accepted only where its scrutinee
/// has a sum type and its two branches, each with its variable bound to its
/// side of the sum, consume their variable, have one and the same type, which
/// is the type of the match, and leave the same environment behind once the
/// binding each branch variable hid is put back, which is the one the match
/// leaves behind.
pub proof fn lemma_match_branches_agree(
    env: Map<Seq<char>, Type>,
    scrutinee: SpecExpr,
    left_var: Seq<char>,
    left_body: SpecExpr,
    right_var: Seq<char>,
    right_body: SpecExpr,
)
    ensures
        check_spec(
            env,
            SpecExpr::Match {
                expr: Box::new(scrutinee),
                left_var,
                left_body: Box::new(left_body),
                right_var,
                right_body: Box::new(right_body),
            },
        ) matches Ok((t, env2)) ==> {
            &&& check_spec(env, scrutinee) matches Ok((Type::Either(lt, rt), env1))
            &&& check_spec(env1.insert(left_var, *lt), left_body) matches Ok((t1, envl)) && t1 == t
                && restore(envl, env1, left_var) == env2 && !envl.contains_key(left_var)
            &&& check_spec(env1.insert(right_var, *rt), right_body) matches Ok((t2, envr)) && t2 == t
                && restore(envr, env1, right_var) == env2 && !envr.contains_key(right_var)
        },
{
}

/// Whether an expression is a lambda does not change in its model.
pub proof fn lemma_lambda_view(e: Expr)
    ensures
        (e@ is Lambda) == (e is Lambda),
{
}

/// The text `prefix`, then `a`, then `mid`, then `b`.
fn two_types_message(prefix: &str, a: &Type, mid: &str, b: &Type) -> (r: String)
    ensures
        r@ == prefix@ + type_text(*a) + mid@ + type_text(*b),
{
    let mut s = String::from_str(prefix);
    a.write_text(&mut s);
    s.append(mid);
    b.write_text(&mut s);
    s
}

/// The message for a name that no binding defines.
fn undefined_message(name: &String) -> (r: String)
    ensures
        r@ == TypeError::Undefined(name@).message(),
{
    let mut s = String::from_str("Type Error: Undefined '");
    s.append(name.as_str());
    s.append("'");
    s
}

/// The message for a linear variable that is not consumed.
fn not_consumed_message(name: &String) -> (r: String)
    ensures
        r@ == TypeError::NotConsumed(name@).message(),
{
    let mut s = String::from_str("Type Error: Linear variable '");
    s.append(name.as_str());
    s.append("' is not consumed");
    s
}

/// The binding of `name` in `env`, which a scope that binds `name` hides.
fn hidden_binding(env: &TypeEnv, name: &String) -> (r: Option<Type>)
    ensures
        r == (if env@.contains_key(name@) {
            Some(env@[name@])
        } else {
            None::<Type>
        }),
{
    match env.get(name) {
        Some(t) => Some(t.duplicate()),
        None => None,
    }
}

/// `env` with the binding of `name` that a scope hid in force again.
fn restore_binding(env: TypeEnv, name: &String, hidden: Option<Type>) -> (r: TypeEnv)
    ensures
        r@ == (match hidden {
            Some(t) => env@.insert(name@, t),
            None => env@,
        }),
{
    let mut env = env;
    if let Some(t) = hidden {
        env.insert(name.clone(), t);
    }
    env
}

fn is_int(t: &Type) -> (r: bool)
    ensures
        r == (*t == Type::Int),
{
    match t {
        Type::Int => true,
        _ => false,
    }
}

/// The type checker.
pub struct TypeChecker {}

impl TypeChecker {
    pub fn new() -> (r: Self)
        ensures
            r == (TypeChecker {}),
    {
        TypeChecker {}
    }

    /// Checks `expr` in `env`: its type and the environment that checking leaves
    /// behind (the given one without the names it consumed), or the message of a
    /// type error.
    pub fn check(&self, env: TypeEnv, expr: &Expr) -> (r: Result<(Type, TypeEnv), String>)
        ensures
            check_matches(r, check_spec(env@, expr@)),
        decreases expr, 1nat,
    {
        match expr {
            Expr::IntLiteral(_) => Ok((Type::Int, env)),
            Expr::Variable(name) => {
                let t = match env.get(name) {
                    Some(t) => t.duplicate(),
                    None => return Err(undefined_message(name)),
                };
                let mut rest = env;
                rest.remove(name);
                Ok((t, rest))
            },
            Expr::Add(..) | Expr::Sub(..) | Expr::Eq { .. } => self.check_arith(env, expr),
            Expr::Left(..) | Expr::Right(..) => self.check_injection(env, expr),
            Expr::Match { .. } => self.check_match(env, expr),
            Expr::Lambda { .. } => self.check_lambda(env, expr),
            Expr::App { .. } => self.check_app(env, expr),
            Expr::MkPair(..) | Expr::Unpack { .. } => self.check_pair(env, expr),
            Expr::ArrayAlloc { .. } | Expr::ArraySwap { .. } => self.check_array(env, expr),
            Expr::Split { .. } | Expr::Merge { .. } => self.check_permission(env, expr),
        }
    }

    /// Addition, subtraction and comparison of integers.
    fn check_arith(&self, env: TypeEnv, expr: &Expr) -> (r: Result<(Type, TypeEnv), String>)
        requires
            expr is Add || expr is Sub || expr is Eq,
        ensures
            check_matches(r, check_spec(env@, expr@)),
        decreases expr, 0nat,
    {
        match expr {
            Expr::Add(l, r) | Expr::Sub(l, r) => {
                let (lt, env1) = match self.check(env, l) {
                    Ok(x) => x,
                    Err(e) => return Err(e),
                };
                let (rt, env2) = match self.check(env1, r) {
                    Ok(x) => x,
                    Err(e) => return Err(e),
                };
                if is_int(&lt) && is_int(&rt) {
                    Ok((Type::Int, env2))
                } else {
                    Err(
                        two_types_message(
                            "Type Error: Arithmetic requires matching types. Got ",
                            &lt,
                            " and ",
                            &rt,
                        ),
                    )
                }
            },
            Expr::Eq { left, right } => {
                let (lt, env1) = match self.check(env, left) {
                    Ok(x) => x,
                    Err(e) => return Err(e),
                };
                let (rt, env2) = match self.check(env1, right) {
                    Ok(x) => x,
                    Err(e) => return Err(e),
                };
                if is_int(&lt) && is_int(&rt) {
                    Ok((Type::Either(Box::new(lt), Box::new(rt)), env2))
                } else {
                    Err(String::from_str("Type Error: eq requires matching types"))
                }
            },
            _ => Err(String::new()),
        }
    }

    /// The injections into a sum type.
    fn check_injection(&self, env: TypeEnv, expr: &Expr) -> (r: Result<(Type, TypeEnv), String>)
        requires
            expr is Left || expr is Right,
        ensures
            check_matches(r, check_spec(env@, expr@)),
        decreases expr, 0nat,
    {
        match expr {
            Expr::Left(e, right_type) => {
                let (lt, env1) = match self.check(env, e) {
                    Ok(x) => x,
                    Err(e) => return Err(e),
                };
                Ok((Type::Either(Box::new(lt), Box::new(right_type.duplicate())), env1))
            },
            Expr::Right(e, left_type) => {
                let (rt, env1) = match self.check(env, e) {
                    Ok(x) => x,
                    Err(e) => return Err(e),
                };
                Ok((Type::Either(Box::new(left_type.duplicate()), Box::new(rt)), env1))
            },
            _ => Err(String::new()),
        }
    }

    /// Branching on a sum: both branches must have the same type.
    fn check_match(&self, env: TypeEnv, expr: &Expr) -> (r: Result<(Type, TypeEnv), String>)
        requires
            expr is Match,
        ensures
            check_matches(r, check_spec(env@, expr@)),
        decreases expr, 0nat,
    {
        match expr {
            Expr::Match { expr: scrutinee, left_var, left_body, right_var, right_body } => {
                let (match_type, env1) = match self.check(env, scrutinee) {
                    Ok(x) => x,
                    Err(e) => return Err(e),
                };
                if let Type::Either(left_t, right_t) = match_type {
                    let ghost lt = *left_t;
                    let ghost rt = *right_t;
                    let hidden_l = hidden_binding(&env1, left_var);
                    let hidden_r = hidden_binding(&env1, right_var);
                    let mut left_env = env1.duplicate();
                    left_env.insert(left_var.clone(), *left_t);
                    let (left_res_type, env_l) = match self.check(left_env, left_body) {
                        Ok(x) => x,
                        Err(e) => return Err(e),
                    };
                    if env_l.get(left_var).is_some() {
                        return Err(not_consumed_message(left_var));
                    }
                    let mut right_env = env1.duplicate();
                    right_env.insert(right_var.clone(), *right_t);
                    let (right_res_type, env_r) = match self.check(right_env, right_body) {
                        Ok(x) => x,
                        Err(e) => return Err(e),
                    };
                    if env_r.get(right_var).is_some() {
                        return Err(not_consumed_message(right_var));
                    }
                    if left_res_type.same(&right_res_type) {
                        let env_l = restore_binding(env_l, left_var, hidden_l);
                        let env_r = restore_binding(env_r, right_var, hidden_r);
                        proof {
                            lemma_check_submap(env1@.insert(left_var@, lt), (**left_body)@);
                            lemma_check_submap(env1@.insert(right_var@, rt), (**right_body)@);
                            let envl = check_spec(env1@.insert(left_var@, lt), (**left_body)@)->Ok_0.1;
                            let envr = check_spec(env1@.insert(right_var@, rt), (**right_body)@)->Ok_0.1;
                            lemma_restore_submap(envl, env1@, left_var@);
                            lemma_restore_submap(envr, env1@, right_var@);
                        }
                        if env1.same_part(&env_l, &env_r) {
                            Ok((left_res_type, env_l))
                        } else {
                            Err(String::from_str("Type Error: Match branches consume different variables"))
                        }
                    } else {
                        Err(
                            two_types_message(
                                "Type Error: Match branches differ. Left: ",
                                &left_res_type,
                                ", Right: ",
                                &right_res_type,
                            ),
                        )
                    }
                } else {
                    Err(String::from_str("Type Error: Can only match on Either"))
                }
            },
            _ => Err(String::new()),
        }
    }

    /// A function: its body is checked with the parameter bound.
    fn check_lambda(&self, env: TypeEnv, expr: &Expr) -> (r: Result<(Type, TypeEnv), String>)
        requires
            expr is Lambda,
        ensures
            check_matches(r, check_spec(env@, expr@)),
        decreases expr, 0nat,
    {
        match expr {
            Expr::Lambda { param, param_type, body } => {
                let hidden = hidden_binding(&env, param);
                let mut local_env = env;
                local_env.insert(param.clone(), param_type.duplicate());
                let (ret_type, env_b) = match self.check(local_env, body) {
                    Ok(x) => x,
                    Err(e) => return Err(e),
                };
                if env_b.get(param).is_some() {
                    return Err(not_consumed_message(param));
                }
                let env_b = restore_binding(env_b, param, hidden);
                Ok((Type::Func(Box::new(param_type.duplicate()), Box::new(ret_type)), env_b))
            },
            _ => Err(String::new()),
        }
    }

    /// Application. A lambda applied to an argument is a binding of the
    /// argument to the lambda's parameter, which the argument itself may use.
    fn check_app(&self, env: TypeEnv, expr: &Expr) -> (r: Result<(Type, TypeEnv), String>)
        requires
            expr is App,
        ensures
            check_matches(r, check_spec(env@, expr@)),
        decreases expr, 0nat,
    {
        match expr {
            Expr::App { func, arg } => {
                if let Expr::Lambda { param: func_name, body, .. } = &**func {
                    let assumed_func_type = Type::Func(
                        Box::new(Type::Pair(Box::new(Type::Int), Box::new(Type::Int))),
                        Box::new(Type::Int),
                    );
                    let hidden = hidden_binding(&env, func_name);
                    let mut arg_env = env;
                    arg_env.insert(func_name.clone(), assumed_func_type);
                    let (actual_arg_type, env_a) = match self.check(arg_env, arg) {
                        Ok(x) => x,
                        Err(e) => return Err(e),
                    };
                    let mut body_env = env_a;
                    body_env.insert(func_name.clone(), actual_arg_type);
                    let (ret_type, env_b) = match self.check(body_env, body) {
                        Ok(x) => x,
                        Err(e) => return Err(e),
                    };
                    if env_b.get(func_name).is_some() {
                        return Err(not_consumed_message(func_name));
                    }
                    return Ok((ret_type, restore_binding(env_b, func_name, hidden)));
                }
                proof {
                    lemma_lambda_view(**func);
                }
                let (ft, env1) = match self.check(env, func) {
                    Ok(x) => x,
                    Err(e) => return Err(e),
                };
                let (at, env2) = match self.check(env1, arg) {
                    Ok(x) => x,
                    Err(e) => return Err(e),
                };
                match ft {
                    Type::Func(p, r) => {
                        if p.same(&at) {
                            Ok((*r, env2))
                        } else {
                            Err(two_types_message("Type Error: Expected ", &p, ", got ", &at))
                        }
                    },
                    _ => {
                        let mut s = String::from_str("Type Error: Non-function. Got ");
                        ft.write_text(&mut s);
                        Err(s)
                    },
                }
            },
            _ => Err(String::new()),
        }
    }

    /// Building and taking apart pairs.
    fn check_pair(&self, env: TypeEnv, expr: &Expr) -> (r: Result<(Type, TypeEnv), String>)
        requires
            expr is MkPair || expr is Unpack,
        ensures
            check_matches(r, check_spec(env@, expr@)),
        decreases expr, 0nat,
    {
        match expr {
            Expr::MkPair(l, r) => {
                let (lt, env1) = match self.check(env, l) {
                    Ok(x) => x,
                    Err(e) => return Err(e),
                };
                let (rt, env2) = match self.check(env1, r) {
                    Ok(x) => x,
                    Err(e) => return Err(e),
                };
                Ok((Type::Pair(Box::new(lt), Box::new(rt)), env2))
            },
            Expr::Unpack { pair, var1, var2, body } => {
                let (pt, env1) = match self.check(env, pair) {
                    Ok(x) => x,
                    Err(e) => return Err(e),
                };
                if let Type::Pair(t1, t2) = pt {
                    let hidden1 = hidden_binding(&env1, var1);
                    let hidden2 = hidden_binding(&env1, var2);
                    let mut local_env = env1;
                    local_env.insert(var1.clone(), *t1);
                    local_env.insert(var2.clone(), *t2);
                    let (bt, env_b) = match self.check(local_env, body) {
                        Ok(x) => x,
                        Err(e) => return Err(e),
                    };
                    if env_b.get(var1).is_some() {
                        return Err(not_consumed_message(var1));
                    }
                    if env_b.get(var2).is_some() {
                        return Err(not_consumed_message(var2));
                    }
                    let env_b = restore_binding(env_b, var1, hidden1);
                    Ok((bt, restore_binding(env_b, var2, hidden2)))
                } else {
                    Err(String::from_str("Type Error: Unpack requires Pair"))
                }
            },
            _ => Err(String::new()),
        }
    }

    /// Splitting a full permission into two halves, and merging them back.
    fn check_permission(&self, env: TypeEnv, expr: &Expr) -> (r: Result<(Type, TypeEnv), String>)
        requires
            expr is Split || expr is Merge,
        ensures
            check_matches(r, check_spec(env@, expr@)),
        decreases expr, 0nat,
    {
        match expr {
            Expr::Split { value, var1, var2, body } => {
                let (vt, env1) = match self.check(env, value) {
                    Ok(x) => x,
                    Err(e) => return Err(e),
                };
                if let Type::Lin(t) = vt {
                    let hidden1 = hidden_binding(&env1, var1);
                    let hidden2 = hidden_binding(&env1, var2);
                    let mut local_env = env1;
                    local_env.insert(var1.clone(), Type::Half(Box::new(t.duplicate())));
                    local_env.insert(var2.clone(), Type::Half(t));
                    let (bt, env_b) = match self.check(local_env, body) {
                        Ok(x) => x,
                        Err(e) => return Err(e),
                    };
                    if env_b.get(var1).is_some() {
                        return Err(not_consumed_message(var1));
                    }
                    if env_b.get(var2).is_some() {
                        return Err(not_consumed_message(var2));
                    }
                    let env_b = restore_binding(env_b, var1, hidden1);
                    Ok((bt, restore_binding(env_b, var2, hidden2)))
                } else {
                    Err(String::from_str("Type Error: split requires a Lin value"))
                }
            },
            Expr::Merge { left, right, var, body } => {
                let lt = match env.get(left) {
                    Some(t) => t.duplicate(),
                    None => return Err(undefined_message(left)),
                };
                let mut env1 = env;
                env1.remove(left);
                let rt = match env1.get(right) {
                    Some(t) => t.duplicate(),
                    None => return Err(undefined_message(right)),
                };
                env1.remove(right);
                match (lt, rt) {
                    (Type::Half(t1), Type::Half(t2)) => {
                        if t1.same(&t2) {
                            let hidden = hidden_binding(&env1, var);
                            let mut local_env = env1;
                            local_env.insert(var.clone(), Type::Lin(t1));
                            let (bt, env_b) = match self.check(local_env, body) {
                                Ok(x) => x,
                                Err(e) => return Err(e),
                            };
                            if env_b.get(var).is_some() {
                                return Err(not_consumed_message(var));
                            }
                            Ok((bt, restore_binding(env_b, var, hidden)))
                        } else {
                            Err(String::from_str("Type Error: merge requires two halves of one type"))
                        }
                    },
                    _ => Err(String::from_str("Type Error: merge requires two halves of one type")),
                }
            },
            _ => Err(String::new()),
        }
    }

    /// Allocation and element replacement of arrays.
    fn check_array(&self, env: TypeEnv, expr: &Expr) -> (r: Result<(Type, TypeEnv), String>)
        requires
            expr is ArrayAlloc || expr is ArraySwap,
        ensures
            check_matches(r, check_spec(env@, expr@)),
        decreases expr, 0nat,
    {
        match expr {
            Expr::ArrayAlloc { size, init_val } => {
                let (st, env1) = match self.check(env, size) {
                    Ok(x) => x,
                    Err(e) => return Err(e),
                };
                let (it, env2) = match self.check(env1, init_val) {
                    Ok(x) => x,
                    Err(e) => return Err(e),
                };
                if is_int(&st) {
                    Ok((Type::Array(Box::new(it)), env2))
                } else {
                    Err(String::from_str("Type Error: Array size must be Int"))
                }
            },
            Expr::ArraySwap { array, index, new_val } => {
                let (at, env1) = match self.check(env, array) {
                    Ok(x) => x,
                    Err(e) => return Err(e),
                };
                let (xt, env2) = match self.check(env1, index) {
                    Ok(x) => x,
                    Err(e) => return Err(e),
                };
                let (vt, env3) = match self.check(env2, new_val) {
                    Ok(x) => x,
                    Err(e) => return Err(e),
                };
                let elem_ok = match &at {
                    Type::Array(inner) => inner.same(&vt),
                    _ => false,
                };
                if elem_ok && is_int(&xt) {
                    Ok((Type::Pair(Box::new(vt), Box::new(at)), env3))
                } else {
                    Err(
                        String::from_str(
                            "Type Error: array_swap requires an Array, an Int index and an element",
                        ),
                    )
                }
            },
            _ => Err(String::new()),
        }
    }
}

} // verus!
