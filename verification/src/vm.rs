//! The evaluator of the untyped IR.
use vstd::prelude::*;
use crate::ir::{IrNode, SpecIr};

verus! {

/// A runtime value.
#[derive(Debug)]
pub enum Value {
    Int(i64),
    Pair(Box<Value>, Box<Value>),
    Array(Vec<Value>),
    Closure(String, IrNode, ValueEnv),
    /// A closure that can call itself: the first name is the name it is bound to.
    RecClosure(String, String, IrNode, ValueEnv),
    /// The left injection into a sum.
    Left(Box<Value>),
    /// The right injection into a sum.
    Right(Box<Value>),
}

/// An environment of runtime values: a list of bindings in which a later
/// binding of a name hides an earlier one.
#[derive(Debug)]
pub struct ValueEnv {
    pub entries: Vec<(String, Value)>,
}

/// The model of a runtime value.
pub enum SpecValue {
    Int(i64),
    Pair(Box<SpecValue>, Box<SpecValue>),
    Array(Seq<SpecValue>),
    Closure(Seq<char>, SpecIr, Map<Seq<char>, SpecValue>),
    RecClosure(Seq<char>, Seq<char>, SpecIr, Map<Seq<char>, SpecValue>),
    Left(Box<SpecValue>),
    Right(Box<SpecValue>),
}

pub open spec fn value_view(v: Value) -> SpecValue
    decreases v,
{
    match v {
        Value::Int(n) => SpecValue::Int(n),
        Value::Pair(a, b) => SpecValue::Pair(Box::new(value_view(*a)), Box::new(value_view(*b))),
        Value::Left(a) => SpecValue::Left(Box::new(value_view(*a))),
        Value::Right(a) => SpecValue::Right(Box::new(value_view(*a))),
        Value::Array(vs) => {
            proof {
                assert(decreases_to!(vs => vs@));
            }
            SpecValue::Array(values_view(vs@))
        },
        Value::Closure(x, body, env) => {
            proof {
                assert(decreases_to!(env.entries => env.entries@));
            }
            SpecValue::Closure(x@, body@, entries_view(env.entries@))
        },
        Value::RecClosure(f, x, body, env) => {
            proof {
                assert(decreases_to!(env.entries => env.entries@));
            }
            SpecValue::RecClosure(f@, x@, body@, entries_view(env.entries@))
        },
    }
}

pub open spec fn values_view(vs: Seq<Value>) -> Seq<SpecValue>
    decreases vs,
{
    if vs.len() == 0 {
        Seq::empty()
    } else {
        proof {
            assert(decreases_to!(vs => vs[vs.len() - 1]));
            assert(decreases_to!(vs => vs.subrange(0, vs.len() - 1)));
        }
        values_view(vs.subrange(0, vs.len() - 1)).push(value_view(vs[vs.len() - 1]))
    }
}

pub open spec fn entries_view(es: Seq<(String, Value)>) -> Map<Seq<char>, SpecValue>
    decreases es,
{
    if es.len() == 0 {
        Map::empty()
    } else {
        proof {
            assert(decreases_to!(es => es[es.len() - 1]));
            assert(decreases_to!(es => es.subrange(0, es.len() - 1)));
        }
        entries_view(es.subrange(0, es.len() - 1)).insert(
            es[es.len() - 1].0@,
            value_view(es[es.len() - 1].1),
        )
    }
}

impl View for Value {
    type V = SpecValue;

    open spec fn view(&self) -> SpecValue {
        value_view(*self)
    }
}

impl View for ValueEnv {
    type V = Map<Seq<char>, SpecValue>;

    open spec fn view(&self) -> Map<Seq<char>, SpecValue> {
        entries_view(self.entries@)
    }
}

/// The size of a value's element sequence and each element's model.
pub proof fn lemma_values_view(vs: Seq<Value>)
    ensures
        values_view(vs).len() == vs.len(),
        forall|i: int| 0 <= i < vs.len() ==> #[trigger] values_view(vs)[i] == vs[i]@,
    decreases vs.len(),
{
    if vs.len() > 0 {
        lemma_values_view(vs.subrange(0, vs.len() - 1));
    }
}

/// A name bound nowhere at or after position `i` is looked up in the first `i` bindings.
pub proof fn lemma_entries_lookup(es: Seq<(String, Value)>, i: int, k: Seq<char>)
    requires
        0 <= i <= es.len(),
        forall|j: int| i <= j < es.len() ==> (#[trigger] es[j]).0@ != k,
    ensures
        entries_view(es).contains_key(k) == entries_view(es.subrange(0, i)).contains_key(k),
        entries_view(es).contains_key(k) ==> entries_view(es)[k] == entries_view(
            es.subrange(0, i),
        )[k],
    decreases es.len(),
{
    if i == es.len() {
        assert(es.subrange(0, i) =~= es);
    } else {
        let es2 = es.subrange(0, es.len() - 1);
        assert(es2.subrange(0, i) =~= es.subrange(0, i));
        assert(es[es.len() - 1].0@ != k);
        assert forall|j: int| i <= j < es2.len() implies (#[trigger] es2[j]).0@ != k by {
            assert(es2[j] == es[j]);
        }
        lemma_entries_lookup(es2, i, k);
    }
}

impl ValueEnv {
    /// An environment with no bindings.
    pub fn new() -> (r: ValueEnv)
        ensures
            r@ == Map::<Seq<char>, SpecValue>::empty(),
    {
        ValueEnv { entries: Vec::new() }
    }

    /// Binds `name` to `value`, hiding any earlier binding of `name`.
    pub fn insert(&mut self, name: String, value: Value)
        ensures
            final(self)@ == old(self)@.insert(name@, value@),
    {
        let ghost old_entries = self.entries@;
        self.entries.push((name, value));
        assert(self.entries@.subrange(0, self.entries@.len() - 1) =~= old_entries);
    }

    /// The value bound to `name`, if any.
    pub fn get(&self, name: &String) -> (r: Option<&Value>)
        ensures
            match r {
                Some(v) => self@.contains_key(name@) && self@[name@] == v@,
                None => !self@.contains_key(name@),
            },
    {
        let mut i = self.entries.len();
        while i > 0
            invariant
                i <= self.entries@.len(),
                forall|j: int| i <= j < self.entries@.len() ==> (#[trigger] self.entries@[j]).0@
                    != name@,
            decreases i,
        {
            i = i - 1;
            if self.entries[i].0 == *name {
                proof {
                    let es = self.entries@;
                    lemma_entries_lookup(es, i + 1, name@);
                    let es2 = es.subrange(0, i + 1);
                    assert(es2.subrange(0, es2.len() - 1) =~= es.subrange(0, i as int));
                }
                return Some(&self.entries[i].1);
            }
        }
        proof {
            lemma_entries_lookup(self.entries@, 0, name@);
            assert(self.entries@.subrange(0, 0) =~= Seq::<(String, Value)>::empty());
        }
        None
    }

    /// A copy of the environment, with the same model.
    pub fn duplicate(&self) -> (r: ValueEnv)
        ensures
            r@ == self@,
        decreases self,
    {
        let mut out: Vec<(String, Value)> = Vec::new();
        let n = self.entries.len();
        let mut i: usize = 0;
        while i < n
            invariant
                n == self.entries@.len(),
                i <= n,
                out@.len() == i,
                entries_view(out@) == entries_view(self.entries@.subrange(0, i as int)),
            decreases n - i,
        {
            proof {
                assert(decreases_to!(self => self.entries));
                assert(decreases_to!(self.entries => self.entries@));
                assert(decreases_to!(self.entries@ => self.entries@[i as int]));
            }
            let name = self.entries[i].0.clone();
            let v = self.entries[i].1.duplicate();
            let ghost old_out = out@;
            out.push((name, v));
            proof {
                assert(out@.subrange(0, out@.len() - 1) =~= old_out);
                let s1 = self.entries@.subrange(0, i + 1);
                assert(s1.subrange(0, s1.len() - 1) =~= self.entries@.subrange(0, i as int));
            }
            i = i + 1;
        }
        assert(self.entries@.subrange(0, n as int) =~= self.entries@);
        ValueEnv { entries: out }
    }
}

impl Value {
    /// A copy of the value, with the same model.
    pub fn duplicate(&self) -> (r: Value)
        ensures
            r@ == self@,
        decreases self,
    {
        match self {
            Value::Int(n) => Value::Int(*n),
            Value::Pair(a, b) => Value::Pair(Box::new(a.duplicate()), Box::new(b.duplicate())),
            Value::Left(a) => Value::Left(Box::new(a.duplicate())),
            Value::Right(a) => Value::Right(Box::new(a.duplicate())),
            Value::Array(vs) => {
                let mut out: Vec<Value> = Vec::new();
                let n = vs.len();
                let mut i: usize = 0;
                while i < n
                    invariant
                        n == vs@.len(),
                        i <= n,
                        *self matches Value::Array(w) && w == *vs,
                        values_view(out@) == values_view(vs@.subrange(0, i as int)),
                    decreases n - i,
                {
                    proof {
                        assert(decreases_to!(*self => *vs));
                        assert(decreases_to!(*vs => vs@));
                        assert(decreases_to!(vs@ => vs@[i as int]));
                    }
                    let v = vs[i].duplicate();
                    let ghost old_out = out@;
                    out.push(v);
                    proof {
                        assert(out@.subrange(0, out@.len() - 1) =~= old_out);
                        let s1 = vs@.subrange(0, i + 1);
                        assert(s1.subrange(0, s1.len() - 1) =~= vs@.subrange(0, i as int));
                    }
                    i = i + 1;
                }
                assert(vs@.subrange(0, n as int) =~= vs@);
                Value::Array(out)
            },
            Value::Closure(x, body, env) => Value::Closure(x.clone(), body.duplicate(), env.duplicate()),
            Value::RecClosure(f, x, body, env) => Value::RecClosure(
                f.clone(),
                x.clone(),
                body.duplicate(),
                env.duplicate(),
            ),
        }
    }
}

/// The errors that evaluation reports (as opposed to the inputs on which it cannot go on).
pub enum VmError {
    UndefinedVariable(Seq<char>),
    AddMismatch,
    SubMismatch,
    EqMismatch,
    NotAFunction,
    UnpackNotPair,
    SizeNotInt,
    IndexNotInt,
    SwapNotArray,
    MatchNotInt,
}

impl VmError {
    /// The text of the error.
    pub open spec fn message(self) -> Seq<char> {
        match self {
            VmError::UndefinedVariable(x) => "VM Error: Undefined variable '"@ + x + "'"@,
            VmError::AddMismatch => "VM Error: Type mismatch in Addition"@,
            VmError::SubMismatch => "VM Error: Type mismatch in Subtraction"@,
            VmError::EqMismatch => "VM Error: Type mismatch in Equality"@,
            VmError::NotAFunction => "VM Error: Attempted to call a non-function"@,
            VmError::UnpackNotPair => "VM Error: Expected a Pair for 'Unpack'"@,
            VmError::SizeNotInt => "VM Error: Array size must be an Integer"@,
            VmError::IndexNotInt => "VM Error: Array index must be an Integer"@,
            VmError::SwapNotArray => "VM Error: Expected an Array for 'Swap'"@,
            VmError::MatchNotInt => "VM Error: Match expression must evaluate to an Integer"@,
        }
    }
}

/// How an evaluation ends within a given nesting depth.
pub enum Outcome {
    /// A value or a reported error.
    Done(Result<SpecValue, VmError>),
    /// The evaluation cannot go on: an array is allocated with a negative size,
    /// or an array index is out of range.
    Stuck,
    /// The evaluation needs more nested steps than were allowed.
    OutOfFuel,
}

/// Two's complement wrap-around of an integer into `i64`.
pub open spec fn wrap_i64(x: int) -> i64 {
    if x > i64::MAX {
        (x - 0x1_0000_0000_0000_0000) as i64
    } else if x < i64::MIN {
        (x + 0x1_0000_0000_0000_0000) as i64
    } else {
        x as i64
    }
}

/// The meaning of an ordinary application: the function, then the argument,
/// then the body of the closure in its own environment extended with the argument.
pub open spec fn eval_call(
    f: nat,
    env: Map<Seq<char>, SpecValue>,
    func: SpecIr,
    arg: SpecIr,
) -> Outcome
    decreases f, 1nat,
{
    match eval(f, env, func) {
        Outcome::Done(Ok(fv)) => match eval(f, env, arg) {
            Outcome::Done(Ok(av)) => match fv {
                SpecValue::Closure(p, body, cenv) => eval(f, cenv.insert(p, av), body),
                SpecValue::RecClosure(name, p, body, cenv) => eval(
                    f,
                    cenv.insert(name, SpecValue::RecClosure(name, p, body, cenv)).insert(p, av),
                    body,
                ),
                _ => Outcome::Done(Err(VmError::NotAFunction)),
            },
            o => o,
        },
        o => o,
    }
}

/// The meaning of an IR node in an environment, with at most `fuel` nested steps.
pub open spec fn eval(fuel: nat, env: Map<Seq<char>, SpecValue>, n: SpecIr) -> Outcome
    decreases fuel, 0nat,
{
    if fuel == 0 {
        Outcome::OutOfFuel
    } else {
        let f = (fuel - 1) as nat;
        match n {
            SpecIr::Int(k) => Outcome::Done(Ok(SpecValue::Int(k))),
            SpecIr::Var(x) => if env.contains_key(x) {
                Outcome::Done(Ok(env[x]))
            } else {
                Outcome::Done(Err(VmError::UndefinedVariable(x)))
            },
            SpecIr::Add(l, r) => match eval(f, env, *l) {
                Outcome::Done(Ok(lv)) => match eval(f, env, *r) {
                    Outcome::Done(Ok(rv)) => match (lv, rv) {
                        (SpecValue::Int(a), SpecValue::Int(b)) => Outcome::Done(
                            Ok(SpecValue::Int(wrap_i64(a + b))),
                        ),
                        _ => Outcome::Done(Err(VmError::AddMismatch)),
                    },
                    o => o,
                },
                o => o,
            },
            SpecIr::Sub(l, r) => match eval(f, env, *l) {
                Outcome::Done(Ok(lv)) => match eval(f, env, *r) {
                    Outcome::Done(Ok(rv)) => match (lv, rv) {
                        (SpecValue::Int(a), SpecValue::Int(b)) => Outcome::Done(
                            Ok(SpecValue::Int(wrap_i64(a - b))),
                        ),
                        _ => Outcome::Done(Err(VmError::SubMismatch)),
                    },
                    o => o,
                },
                o => o,
            },
            SpecIr::Eq(l, r) => match eval(f, env, *l) {
                Outcome::Done(Ok(lv)) => match eval(f, env, *r) {
                    Outcome::Done(Ok(rv)) => match (lv, rv) {
                        (SpecValue::Int(a), SpecValue::Int(b)) => Outcome::Done(
                            Ok(SpecValue::Int(if a == b { 1 } else { 0 })),
                        ),
                        _ => Outcome::Done(Err(VmError::EqMismatch)),
                    },
                    o => o,
                },
                o => o,
            },
            SpecIr::Lam(x, body) => Outcome::Done(Ok(SpecValue::Closure(x, *body, env))),
            SpecIr::App(func, arg) => match *func {
                SpecIr::Lam(bind, in_body) => match *arg {
                    SpecIr::Lam(p, fb) => eval(
                        f,
                        env.insert(bind, SpecValue::RecClosure(bind, p, *fb, env)),
                        *in_body,
                    ),
                    _ => eval_call(f, env, *func, *arg),
                },
                _ => eval_call(f, env, *func, *arg),
            },
            SpecIr::MkPair(l, r) => match eval(f, env, *l) {
                Outcome::Done(Ok(lv)) => match eval(f, env, *r) {
                    Outcome::Done(Ok(rv)) => Outcome::Done(
                        Ok(SpecValue::Pair(Box::new(lv), Box::new(rv))),
                    ),
                    o => o,
                },
                o => o,
            },
            SpecIr::Left(p) => match eval(f, env, *p) {
                Outcome::Done(Ok(v)) => Outcome::Done(Ok(SpecValue::Left(Box::new(v)))),
                o => o,
            },
            SpecIr::Right(p) => match eval(f, env, *p) {
                Outcome::Done(Ok(v)) => Outcome::Done(Ok(SpecValue::Right(Box::new(v)))),
                o => o,
            },
            SpecIr::Unpack(v1, v2, p, body) => match eval(f, env, *p) {
                Outcome::Done(Ok(SpecValue::Pair(l, r))) => eval(
                    f,
                    env.insert(v1, *l).insert(v2, *r),
                    *body,
                ),
                Outcome::Done(Ok(_)) => Outcome::Done(Err(VmError::UnpackNotPair)),
                o => o,
            },
            SpecIr::ArrayAlloc(sz, init) => match eval(f, env, *sz) {
                Outcome::Done(Ok(SpecValue::Int(s))) => match eval(f, env, *init) {
                    Outcome::Done(Ok(iv)) => if s < 0 {
                        Outcome::Stuck
                    } else {
                        Outcome::Done(Ok(SpecValue::Array(Seq::new(s as nat, |i: int| iv))))
                    },
                    o => o,
                },
                Outcome::Done(Ok(_)) => Outcome::Done(Err(VmError::SizeNotInt)),
                o => o,
            },
            SpecIr::ArraySwap(arr, idx, val) => match eval(f, env, *arr) {
                Outcome::Done(Ok(av)) => match eval(f, env, *idx) {
                    Outcome::Done(Ok(SpecValue::Int(i))) => match eval(f, env, *val) {
                        Outcome::Done(Ok(nv)) => match av {
                            SpecValue::Array(es) => if 0 <= i < es.len() {
                                Outcome::Done(
                                    Ok(
                                        SpecValue::Pair(
                                            Box::new(es[i as int]),
                                            Box::new(SpecValue::Array(es.update(i as int, nv))),
                                        ),
                                    ),
                                )
                            } else {
                                Outcome::Stuck
                            },
                            _ => Outcome::Done(Err(VmError::SwapNotArray)),
                        },
                        o => o,
                    },
                    Outcome::Done(Ok(_)) => Outcome::Done(Err(VmError::IndexNotInt)),
                    o => o,
                },
                o => o,
            },
            SpecIr::Match(e, lv, lb, rv, rb) => match eval(f, env, *e) {
                Outcome::Done(Ok(SpecValue::Int(v))) => if v != 0 {
                    eval(f, env.insert(lv, SpecValue::Int(v)), *lb)
                } else {
                    eval(f, env.insert(rv, SpecValue::Int(v)), *rb)
                },
                Outcome::Done(Ok(SpecValue::Left(x))) => eval(f, env.insert(lv, *x), *lb),
                Outcome::Done(Ok(SpecValue::Right(x))) => eval(f, env.insert(rv, *x), *rb),
                Outcome::Done(Ok(_)) => Outcome::Done(Err(VmError::MatchNotInt)),
                o => o,
            },
        }
    }
}

/// More depth never changes an evaluation that ends: one that ends (with a
/// value, an error, or stuck) within `f1` nested steps ends the same way
/// within any larger number of steps.
pub proof fn lemma_eval_more_fuel(f1: nat, f2: nat, env: Map<Seq<char>, SpecValue>, n: SpecIr)
    requires
        f1 <= f2,
        !(eval(f1, env, n) is OutOfFuel),
    ensures
        eval(f2, env, n) == eval(f1, env, n),
    decreases f1, 0nat,
{
    if f1 > 0 {
        let g1 = (f1 - 1) as nat;
        let g2 = (f2 - 1) as nat;
        match n {
            SpecIr::Int(_) | SpecIr::Var(_) | SpecIr::Lam(..) => {},
            SpecIr::Add(l, r) | SpecIr::Sub(l, r) | SpecIr::Eq(l, r) | SpecIr::MkPair(l, r) => {
                lemma_eval_more_fuel(g1, g2, env, *l);
                if eval(g1, env, *l) is Done {
                    if !(eval(g1, env, *r) is OutOfFuel) {
                        lemma_eval_more_fuel(g1, g2, env, *r);
                    }
                }
            },
            SpecIr::App(func, arg) => {
                match (*func, *arg) {
                    (SpecIr::Lam(bind, in_body), SpecIr::Lam(p, fb)) => {
                        let rec = SpecValue::RecClosure(bind, p, *fb, env);
                        lemma_eval_more_fuel(g1, g2, env.insert(bind, rec), *in_body);
                    },
                    _ => {
                        lemma_eval_call_more_fuel(g1, g2, env, *func, *arg);
                    },
                }
            },
            SpecIr::Left(p) | SpecIr::Right(p) => {
                lemma_eval_more_fuel(g1, g2, env, *p);
            },
            SpecIr::Unpack(v1, v2, p, body) => {
                lemma_eval_more_fuel(g1, g2, env, *p);
                if let Outcome::Done(Ok(SpecValue::Pair(l, r))) = eval(g1, env, *p) {
                    lemma_eval_more_fuel(g1, g2, env.insert(v1, *l).insert(v2, *r), *body);
                }
            },
            SpecIr::ArrayAlloc(sz, init) => {
                lemma_eval_more_fuel(g1, g2, env, *sz);
                if eval(g1, env, *sz) is Done {
                    if !(eval(g1, env, *init) is OutOfFuel) {
                        lemma_eval_more_fuel(g1, g2, env, *init);
                    }
                }
            },
            SpecIr::ArraySwap(arr, idx, val) => {
                lemma_eval_more_fuel(g1, g2, env, *arr);
                if eval(g1, env, *arr) is Done {
                    if !(eval(g1, env, *idx) is OutOfFuel) {
                        lemma_eval_more_fuel(g1, g2, env, *idx);
                        if eval(g1, env, *idx) is Done {
                            if !(eval(g1, env, *val) is OutOfFuel) {
                                lemma_eval_more_fuel(g1, g2, env, *val);
                            }
                        }
                    }
                }
            },
            SpecIr::Match(e, lv, lb, rv, rb) => {
                lemma_eval_more_fuel(g1, g2, env, *e);
                if let Outcome::Done(Ok(SpecValue::Int(v))) = eval(g1, env, *e) {
                    if v != 0 {
                        lemma_eval_more_fuel(g1, g2, env.insert(lv, SpecValue::Int(v)), *lb);
                    } else {
                        lemma_eval_more_fuel(g1, g2, env.insert(rv, SpecValue::Int(v)), *rb);
                    }
                }
                if let Outcome::Done(Ok(SpecValue::Left(x))) = eval(g1, env, *e) {
                    lemma_eval_more_fuel(g1, g2, env.insert(lv, *x), *lb);
                }
                if let Outcome::Done(Ok(SpecValue::Right(x))) = eval(g1, env, *e) {
                    lemma_eval_more_fuel(g1, g2, env.insert(rv, *x), *rb);
                }
            },
        }
    }
}

/// `lemma_eval_more_fuel` for an ordinary application.
pub proof fn lemma_eval_call_more_fuel(
    f1: nat,
    f2: nat,
    env: Map<Seq<char>, SpecValue>,
    func: SpecIr,
    arg: SpecIr,
)
    requires
        f1 <= f2,
        !(eval_call(f1, env, func, arg) is OutOfFuel),
    ensures
        eval_call(f2, env, func, arg) == eval_call(f1, env, func, arg),
    decreases f1, 1nat,
{
    lemma_eval_more_fuel(f1, f2, env, func);
    if let Outcome::Done(Ok(fv)) = eval(f1, env, func) {
        lemma_eval_more_fuel(f1, f2, env, arg);
        if let Outcome::Done(Ok(av)) = eval(f1, env, arg) {
            match fv {
                SpecValue::Closure(p, body, cenv) => {
                    lemma_eval_more_fuel(f1, f2, cenv.insert(p, av), body);
                },
                SpecValue::RecClosure(name, p, body, cenv) => {
                    lemma_eval_more_fuel(
                        f1,
                        f2,
                        cenv.insert(name, SpecValue::RecClosure(name, p, body, cenv)).insert(p, av),
                        body,
                    );
                },
                _ => {},
            }
        }
    }
}

/// An evaluation that finishes within some depth gives what `evaluate`
/// specifies: the result does not depend on the depth allowed.
pub proof fn lemma_finished_evaluation(fuel: nat, env: Map<Seq<char>, SpecValue>, n: SpecIr)
    requires
        fuel <= u64::MAX,
        eval(fuel, env, n) is Done,
    ensures
        finishes(env, n),
        eval(u64::MAX as nat, env, n) == eval(fuel, env, n),
{
    lemma_eval_more_fuel(fuel, u64::MAX as nat, env, n);
}

/// Arithmetic on integers wraps around; equality gives one or zero.
pub proof fn lemma_eval_arithmetic(f: nat, env: Map<Seq<char>, SpecValue>, a: i64, b: i64)
    ensures
        eval(f + 2, env, SpecIr::Add(Box::new(SpecIr::Int(a)), Box::new(SpecIr::Int(b))))
            == Outcome::Done(Ok(SpecValue::Int(wrap_i64(a + b)))),
        eval(f + 2, env, SpecIr::Sub(Box::new(SpecIr::Int(a)), Box::new(SpecIr::Int(b))))
            == Outcome::Done(Ok(SpecValue::Int(wrap_i64(a - b)))),
        eval(f + 2, env, SpecIr::Eq(Box::new(SpecIr::Int(a)), Box::new(SpecIr::Int(b))))
            == Outcome::Done(Ok(SpecValue::Int(if a == b { 1 } else { 0 }))),
{
    assert(eval(f + 1, env, SpecIr::Int(a)) == Outcome::Done(Ok(SpecValue::Int(a))));
    assert(eval(f + 1, env, SpecIr::Int(b)) == Outcome::Done(Ok(SpecValue::Int(b))));
}

/// Unpacking a pair value binds its first name to the pair's first
/// component and its second name to the second, then evaluates the body.
pub proof fn lemma_eval_unpack_value(
    f: nat,
    env: Map<Seq<char>, SpecValue>,
    p: Seq<char>,
    v1: Seq<char>,
    v2: Seq<char>,
    body: SpecIr,
    a: SpecValue,
    b: SpecValue,
)
    requires
        env.contains_key(p),
        env[p] == SpecValue::Pair(Box::new(a), Box::new(b)),
    ensures
        eval(f + 2, env, SpecIr::Unpack(v1, v2, Box::new(SpecIr::Var(p)), Box::new(body))) == eval(
            f + 1,
            env.insert(v1, a).insert(v2, b),
            body,
        ),
{
    assert(eval(f + 1, env, SpecIr::Var(p)) == Outcome::Done(Ok::<SpecValue, VmError>(env[p])));
}

/// Branching on a sum value takes the branch of its side, with the branch's
/// name bound to the value inside; branching on an integer takes the left
/// branch for a non-zero one and the right branch for zero, with the integer
/// bound.
pub proof fn lemma_eval_match_value(
    f: nat,
    env: Map<Seq<char>, SpecValue>,
    s: Seq<char>,
    lv: Seq<char>,
    lb: SpecIr,
    rv: Seq<char>,
    rb: SpecIr,
)
    requires
        env.contains_key(s),
    ensures
        ({
            let m = SpecIr::Match(Box::new(SpecIr::Var(s)), lv, Box::new(lb), rv, Box::new(rb));
            &&& env[s] matches SpecValue::Left(w) ==> eval(f + 2, env, m) == eval(f + 1, env.insert(lv, *w), lb)
            &&& env[s] matches SpecValue::Right(w) ==> eval(f + 2, env, m) == eval(f + 1, env.insert(rv, *w), rb)
            &&& env[s] matches SpecValue::Int(k) ==> eval(f + 2, env, m) == if k != 0 {
                eval(f + 1, env.insert(lv, SpecValue::Int(k)), lb)
            } else {
                eval(f + 1, env.insert(rv, SpecValue::Int(k)), rb)
            }
        }),
{
    assert(eval(f + 1, env, SpecIr::Var(s)) == Outcome::Done(Ok::<SpecValue, VmError>(env[s])));
}

/// Allocating an array of a non-negative size gives that many copies of the
/// initial value.
pub proof fn lemma_eval_alloc_value(f: nat, env: Map<Seq<char>, SpecValue>, n: i64, x: Seq<char>)
    requires
        0 <= n,
        env.contains_key(x),
    ensures
        eval(f + 2, env, SpecIr::ArrayAlloc(Box::new(SpecIr::Int(n)), Box::new(SpecIr::Var(x))))
            matches Outcome::Done(Ok(SpecValue::Array(es))) && es.len() == n && forall|k: int|
            0 <= k < n ==> #[trigger] es[k] == env[x],
{
    assert(eval(f + 1, env, SpecIr::Int(n)) == Outcome::Done(Ok::<SpecValue, VmError>(SpecValue::Int(n))));
    assert(eval(f + 1, env, SpecIr::Var(x)) == Outcome::Done(Ok::<SpecValue, VmError>(env[x])));
}

/// Calling a closure evaluates its body in the environment it captured, with
/// its parameter bound to the argument.
pub proof fn lemma_eval_call_closure(
    f: nat,
    env: Map<Seq<char>, SpecValue>,
    g: Seq<char>,
    x: Seq<char>,
    p: Seq<char>,
    body: SpecIr,
    cenv: Map<Seq<char>, SpecValue>,
)
    requires
        env.contains_key(g),
        env[g] == SpecValue::Closure(p, body, cenv),
        env.contains_key(x),
    ensures
        eval(f + 2, env, SpecIr::App(Box::new(SpecIr::Var(g)), Box::new(SpecIr::Var(x)))) == eval(
            f + 1,
            cenv.insert(p, env[x]),
            body,
        ),
{
    assert(eval(f + 1, env, SpecIr::Var(g)) == Outcome::Done(Ok::<SpecValue, VmError>(env[g])));
    assert(eval(f + 1, env, SpecIr::Var(x)) == Outcome::Done(Ok::<SpecValue, VmError>(env[x])));
    assert(eval(f + 2, env, SpecIr::App(Box::new(SpecIr::Var(g)), Box::new(SpecIr::Var(x))))
        == eval_call(f + 1, env, SpecIr::Var(g), SpecIr::Var(x)));
}

/// Swapping an element of any array gives back the element that was at the
/// index, and the array with the new value at the index and every other
/// element as it was.
pub proof fn lemma_eval_swap(
    f: nat,
    env: Map<Seq<char>, SpecValue>,
    a: Seq<char>,
    x: Seq<char>,
    es: Seq<SpecValue>,
    i: i64,
    v: SpecValue,
)
    requires
        env.contains_key(a),
        env[a] == SpecValue::Array(es),
        env.contains_key(x),
        env[x] == v,
        0 <= i < es.len(),
    ensures
        eval(
            f + 2,
            env,
            SpecIr::ArraySwap(Box::new(SpecIr::Var(a)), Box::new(SpecIr::Int(i)), Box::new(SpecIr::Var(x))),
        ) == Outcome::Done(
            Ok::<SpecValue, VmError>(
                SpecValue::Pair(
                    Box::new(es[i as int]),
                    Box::new(SpecValue::Array(es.update(i as int, v))),
                ),
            ),
        ),
{
    assert(eval(f + 1, env, SpecIr::Var(a)) == Outcome::Done(Ok::<SpecValue, VmError>(SpecValue::Array(es))));
    assert(eval(f + 1, env, SpecIr::Int(i)) == Outcome::Done(Ok::<SpecValue, VmError>(SpecValue::Int(i))));
    assert(eval(f + 1, env, SpecIr::Var(x)) == Outcome::Done(Ok::<SpecValue, VmError>(v)));
}

/// Errors propagate from left to right: where the left operand ends in an
/// error, the operation ends in that error, whatever the right operand.
pub proof fn lemma_eval_error_left_first(
    f: nat,
    env: Map<Seq<char>, SpecValue>,
    l: SpecIr,
    r: SpecIr,
    e: VmError,
)
    requires
        eval(f, env, l) == Outcome::Done(Err::<SpecValue, VmError>(e)),
    ensures
        eval(f + 1, env, SpecIr::Add(Box::new(l), Box::new(r))) == Outcome::Done(
            Err::<SpecValue, VmError>(e),
        ),
        eval(f + 1, env, SpecIr::Sub(Box::new(l), Box::new(r))) == Outcome::Done(
            Err::<SpecValue, VmError>(e),
        ),
        eval(f + 1, env, SpecIr::MkPair(Box::new(l), Box::new(r))) == Outcome::Done(
            Err::<SpecValue, VmError>(e),
        ),
{
}

/// Unpacking a pair gives back its parts: the body runs with the two names
/// bound to the two components.
pub proof fn lemma_eval_unpack_pair(
    f: nat,
    env: Map<Seq<char>, SpecValue>,
    v1: Seq<char>,
    v2: Seq<char>,
    l: SpecIr,
    r: SpecIr,
    body: SpecIr,
    lv: SpecValue,
    rv: SpecValue,
)
    requires
        eval(f, env, l) == Outcome::Done(Ok::<SpecValue, VmError>(lv)),
        eval(f, env, r) == Outcome::Done(Ok::<SpecValue, VmError>(rv)),
    ensures
        eval(f + 2, env, SpecIr::Unpack(v1, v2, Box::new(SpecIr::MkPair(Box::new(l), Box::new(r))), Box::new(body)))
            == eval(f + 1, env.insert(v1, lv).insert(v2, rv), body),
{
    assert(eval(f + 1, env, SpecIr::MkPair(Box::new(l), Box::new(r))) == Outcome::Done(
        Ok::<SpecValue, VmError>(SpecValue::Pair(Box::new(lv), Box::new(rv))),
    ));
}

/// A lambda applied to an argument that is not a lambda is a binding: the
/// body runs with the parameter bound to the argument's value.
pub proof fn lemma_eval_let(
    f: nat,
    env: Map<Seq<char>, SpecValue>,
    x: Seq<char>,
    body: SpecIr,
    arg: SpecIr,
    av: SpecValue,
)
    requires
        !(arg is Lam),
        eval(f + 1, env, arg) == Outcome::Done(Ok::<SpecValue, VmError>(av)),
    ensures
        eval(f + 2, env, SpecIr::App(Box::new(SpecIr::Lam(x, Box::new(body))), Box::new(arg)))
            == eval(f + 1, env.insert(x, av), body),
{
    let lam = SpecIr::Lam(x, Box::new(body));
    assert(eval(f + 1, env, lam) == Outcome::Done(
        Ok::<SpecValue, VmError>(SpecValue::Closure(x, body, env)),
    ));
    assert(eval(f + 2, env, SpecIr::App(Box::new(lam), Box::new(arg))) == eval_call(f + 1, env, lam, arg));
}

/// Swapping an element of a freshly allocated array gives back the initial
/// value and the array with the new element in place.
pub proof fn lemma_eval_alloc_swap(f: nat, env: Map<Seq<char>, SpecValue>, n: i64, init: i64, i: i64, v: i64)
    requires
        0 <= i < n,
    ensures
        eval(
            f + 3,
            env,
            SpecIr::ArraySwap(
                Box::new(SpecIr::ArrayAlloc(Box::new(SpecIr::Int(n)), Box::new(SpecIr::Int(init)))),
                Box::new(SpecIr::Int(i)),
                Box::new(SpecIr::Int(v)),
            ),
        ) == Outcome::Done(
            Ok::<SpecValue, VmError>(
                SpecValue::Pair(
                    Box::new(SpecValue::Int(init)),
                    Box::new(
                        SpecValue::Array(
                            Seq::new(n as nat, |k: int| SpecValue::Int(init)).update(i as int, SpecValue::Int(v)),
                        ),
                    ),
                ),
            ),
        ),
{
    assert(eval(f + 1, env, SpecIr::Int(n)) == Outcome::Done(Ok::<SpecValue, VmError>(SpecValue::Int(n))));
    assert(eval(f + 1, env, SpecIr::Int(init)) == Outcome::Done(
        Ok::<SpecValue, VmError>(SpecValue::Int(init)),
    ));
    assert(eval(f + 2, env, SpecIr::ArrayAlloc(Box::new(SpecIr::Int(n)), Box::new(SpecIr::Int(init))))
        == Outcome::Done(
        Ok::<SpecValue, VmError>(SpecValue::Array(Seq::new(n as nat, |k: int| SpecValue::Int(init)))),
    ));
    assert(eval(f + 2, env, SpecIr::Int(i)) == Outcome::Done(Ok::<SpecValue, VmError>(SpecValue::Int(i))));
    assert(eval(f + 2, env, SpecIr::Int(v)) == Outcome::Done(Ok::<SpecValue, VmError>(SpecValue::Int(v))));
}

/// An executable result stands for a finished evaluation.
pub open spec fn result_matches(r: Result<Value, String>, res: Result<SpecValue, VmError>) -> bool {
    match (r, res) {
        (Ok(v), Ok(sv)) => v@ == sv,
        (Err(m), Err(e)) => m@ == e.message(),
        _ => false,
    }
}

/// An executable answer stands for an outcome: `None` for the outcomes that produce no result.
pub open spec fn outcome_matches(r: Option<Result<Value, String>>, o: Outcome) -> bool {
    match o {
        Outcome::Done(res) => r matches Some(x) && result_matches(x, res),
        _ => r is None,
    }
}

/// Whether an IR node is a lambda does not change in its model.
pub proof fn lemma_lam_view(n: IrNode)
    ensures
        (n@ is Lam) == (n is Lam),
{
}

/// Evaluation finishes, with a value or a reported error, within the nesting depth
/// that a `u64` counts.
pub open spec fn finishes(env: Map<Seq<char>, SpecValue>, node: SpecIr) -> bool {
    eval(u64::MAX as nat, env, node) is Done
}

/// The evaluator of IR programs.
pub struct VirtualMachine {}

/// The message for a variable that no binding defines.
fn undefined_variable_message(name: &String) -> (r: String)
    ensures
        r@ == VmError::UndefinedVariable(name@).message(),
{
    let mut s = String::from_str("VM Error: Undefined variable '");
    s.append(name.as_str());
    s.append("'");
    s
}

/// `n` copies of a value.
fn repeat_value(v: &Value, n: i64) -> (r: Vec<Value>)
    requires
        n >= 0,
    ensures
        values_view(r@) == Seq::new(n as nat, |i: int| v@),
{
    let mut vs: Vec<Value> = Vec::new();
    let mut i: i64 = 0;
    while i < n
        invariant
            0 <= i <= n,
            values_view(vs@) == Seq::new(i as nat, |j: int| v@),
        decreases n - i,
    {
        let ghost old_vs = vs@;
        vs.push(v.duplicate());
        assert(vs@.subrange(0, vs@.len() - 1) =~= old_vs);
        assert(values_view(vs@) =~= Seq::new((i + 1) as nat, |j: int| v@));
        i = i + 1;
    }
    vs
}

impl VirtualMachine {
    pub fn new() -> (r: Self)
        ensures
            r == (VirtualMachine {}),
    {
        VirtualMachine {}
    }

    /// Evaluates `node` in `env`. The evaluation must finish, with a value or a
    /// reported error, within the nesting depth that a `u64` counts.
    pub fn evaluate(&mut self, env: &ValueEnv, node: &IrNode) -> (r: Result<Value, String>)
        requires
            finishes(env@, node@),
        ensures
            eval(u64::MAX as nat, env@, node@) matches Outcome::Done(res) && result_matches(r, res),
    {
        match self.evaluate_within(env, node, u64::MAX) {
            Some(r) => r,
            None => {
                proof {
                    assert(false);
                }
                Err(String::new())
            },
        }
    }

    /// Evaluates `node` in `env` with at most `fuel` nested steps.
    /// `None` where the evaluation needs more steps, or where it cannot go on
    /// (see `Outcome::Stuck`).
    pub fn evaluate_within(&mut self, env: &ValueEnv, node: &IrNode, fuel: u64) -> (r: Option<
        Result<Value, String>,
    >)
        ensures
            outcome_matches(r, eval(fuel as nat, env@, node@)),
        decreases fuel, 1nat,
    {
        if fuel == 0 {
            return None;
        }
        match node {
            IrNode::Int(n) => Some(Ok(Value::Int(*n))),
            IrNode::Var(name) => match env.get(name) {
                Some(v) => Some(Ok(v.duplicate())),
                None => Some(Err(undefined_variable_message(name))),
            },
            IrNode::Lam(param, body) => Some(
                Ok(Value::Closure(param.clone(), body.duplicate(), env.duplicate())),
            ),
            IrNode::Add(..) | IrNode::Sub(..) | IrNode::Eq(..) => self.eval_arith(env, node, fuel),
            IrNode::App(..) => self.eval_app(env, node, fuel),
            IrNode::MkPair(..) | IrNode::Left(..) | IrNode::Right(..) | IrNode::Unpack(..) => {
                self.eval_pairs(env, node, fuel)
            },
            IrNode::ArrayAlloc(..) => self.eval_alloc(env, node, fuel),
            IrNode::ArraySwap(..) => self.eval_swap(env, node, fuel),
            IrNode::Match(..) => self.eval_match(env, node, fuel),
        }
    }

    /// Addition, subtraction and equality of integers.
    fn eval_arith(&mut self, env: &ValueEnv, node: &IrNode, fuel: u64) -> (r: Option<Result<Value, String>>)
        requires
            fuel > 0,
            node is Add || node is Sub || node is Eq,
        ensures
            outcome_matches(r, eval(fuel as nat, env@, node@)),
        decreases fuel, 0nat,
    {
        let f = fuel - 1;
        match node {
            IrNode::Add(l, r) => {
                let lv = match self.evaluate_within(env, l, f) {
                    Some(Ok(v)) => v,
                    other => return other,
                };
                let rv = match self.evaluate_within(env, r, f) {
                    Some(Ok(v)) => v,
                    other => return other,
                };
                match (lv, rv) {
                    (Value::Int(a), Value::Int(b)) => Some(Ok(Value::Int(a.wrapping_add(b)))),
                    _ => Some(Err(String::from_str("VM Error: Type mismatch in Addition"))),
                }
            },
            IrNode::Sub(l, r) => {
                let lv = match self.evaluate_within(env, l, f) {
                    Some(Ok(v)) => v,
                    other => return other,
                };
                let rv = match self.evaluate_within(env, r, f) {
                    Some(Ok(v)) => v,
                    other => return other,
                };
                match (lv, rv) {
                    (Value::Int(a), Value::Int(b)) => Some(Ok(Value::Int(a.wrapping_sub(b)))),
                    _ => Some(Err(String::from_str("VM Error: Type mismatch in Subtraction"))),
                }
            },
            IrNode::Eq(l, r) => {
                let lv = match self.evaluate_within(env, l, f) {
                    Some(Ok(v)) => v,
                    other => return other,
                };
                let rv = match self.evaluate_within(env, r, f) {
                    Some(Ok(v)) => v,
                    other => return other,
                };
                match (lv, rv) {
                    (Value::Int(a), Value::Int(b)) => Some(
                        Ok(
                            Value::Int(
                                if a == b {
                                    1
                                } else {
                                    0
                                },
                            ),
                        ),
                    ),
                    _ => Some(Err(String::from_str("VM Error: Type mismatch in Equality"))),
                }
            },
            _ => None,
        }
    }

    /// Application, with recursive binding of a lambda applied to a lambda.
    fn eval_app(&mut self, env: &ValueEnv, node: &IrNode, fuel: u64) -> (r: Option<Result<Value, String>>)
        requires
            fuel > 0,
            node is App,
        ensures
            outcome_matches(r, eval(fuel as nat, env@, node@)),
        decreases fuel, 0nat,
    {
        let f = fuel - 1;
        match node {
            IrNode::App(func, arg) => {
                // A lambda applied to a lambda binds the argument recursively:
                // the bound function can call itself by the lambda's parameter name.
                if let IrNode::Lam(bind_name, in_body) = &**func {
                    if let IrNode::Lam(fn_param, fn_body) = &**arg {
                        let rec_closure = Value::RecClosure(
                            bind_name.clone(),
                            fn_param.clone(),
                            fn_body.duplicate(),
                            env.duplicate(),
                        );
                        let mut local_env = env.duplicate();
                        local_env.insert(bind_name.clone(), rec_closure);
                        proof {
                            assert((**func)@ == SpecIr::Lam(bind_name@, Box::new((**in_body)@)));
                            assert((**arg)@ == SpecIr::Lam(fn_param@, Box::new((**fn_body)@)));
                        }
                        return self.evaluate_within(&local_env, in_body, f);
                    }
                }
                proof {
                    lemma_lam_view(**func);
                    lemma_lam_view(**arg);
                    assert(eval(fuel as nat, env@, node@) == eval_call(f as nat, env@, (**func)@, (**arg)@));
                }
                let fv = match self.evaluate_within(env, func, f) {
                    Some(Ok(v)) => v,
                    other => return other,
                };
                let av = match self.evaluate_within(env, arg, f) {
                    Some(Ok(v)) => v,
                    other => return other,
                };
                match fv {
                    Value::Closure(param, body, mut closure_env) => {
                        closure_env.insert(param, av);
                        self.evaluate_within(&closure_env, &body, f)
                    },
                    Value::RecClosure(fn_name, param, body, mut closure_env) => {
                        let self_ref = Value::RecClosure(
                            fn_name.clone(),
                            param.clone(),
                            body.duplicate(),
                            closure_env.duplicate(),
                        );
                        closure_env.insert(fn_name, self_ref);
                        closure_env.insert(param, av);
                        self.evaluate_within(&closure_env, &body, f)
                    },
                    _ => Some(Err(String::from_str("VM Error: Attempted to call a non-function"))),
                }
            },
            _ => None,
        }
    }

    /// Building and taking apart pairs, and injecting into sums.
    fn eval_pairs(&mut self, env: &ValueEnv, node: &IrNode, fuel: u64) -> (r: Option<Result<Value, String>>)
        requires
            fuel > 0,
            node is MkPair || node is Left || node is Right || node is Unpack,
        ensures
            outcome_matches(r, eval(fuel as nat, env@, node@)),
        decreases fuel, 0nat,
    {
        let f = fuel - 1;
        match node {
            IrNode::MkPair(l, r) => {
                let lv = match self.evaluate_within(env, l, f) {
                    Some(Ok(v)) => v,
                    other => return other,
                };
                let rv = match self.evaluate_within(env, r, f) {
                    Some(Ok(v)) => v,
                    other => return other,
                };
                Some(Ok(Value::Pair(Box::new(lv), Box::new(rv))))
            },
            IrNode::Left(p) => match self.evaluate_within(env, p, f) {
                Some(Ok(v)) => Some(Ok(Value::Left(Box::new(v)))),
                other => other,
            },
            IrNode::Right(p) => match self.evaluate_within(env, p, f) {
                Some(Ok(v)) => Some(Ok(Value::Right(Box::new(v)))),
                other => other,
            },
            IrNode::Unpack(v1, v2, p, body) => match self.evaluate_within(env, p, f) {
                Some(Ok(Value::Pair(l, r))) => {
                    let mut local_env = env.duplicate();
                    local_env.insert(v1.clone(), *l);
                    local_env.insert(v2.clone(), *r);
                    self.evaluate_within(&local_env, body, f)
                },
                Some(Ok(_)) => Some(Err(String::from_str("VM Error: Expected a Pair for 'Unpack'"))),
                other => other,
            },
            _ => None,
        }
    }

    /// Allocation of an array.
    fn eval_alloc(&mut self, env: &ValueEnv, node: &IrNode, fuel: u64) -> (r: Option<Result<Value, String>>)
        requires
            fuel > 0,
            node is ArrayAlloc,
        ensures
            outcome_matches(r, eval(fuel as nat, env@, node@)),
        decreases fuel, 0nat,
    {
        let f = fuel - 1;
        match node {
            IrNode::ArrayAlloc(sz, init) => {
                let size = match self.evaluate_within(env, sz, f) {
                    Some(Ok(Value::Int(s))) => s,
                    Some(Ok(_)) => return Some(
                        Err(String::from_str("VM Error: Array size must be an Integer")),
                    ),
                    other => return other,
                };
                let init_val = match self.evaluate_within(env, init, f) {
                    Some(Ok(v)) => v,
                    other => return other,
                };
                if size < 0 {
                    return None;
                }
                Some(Ok(Value::Array(repeat_value(&init_val, size))))
            },
            _ => None,
        }
    }

    /// Replacement of an array element, giving back the old element and the array.
    fn eval_swap(&mut self, env: &ValueEnv, node: &IrNode, fuel: u64) -> (r: Option<Result<Value, String>>)
        requires
            fuel > 0,
            node is ArraySwap,
        ensures
            outcome_matches(r, eval(fuel as nat, env@, node@)),
        decreases fuel, 0nat,
    {
        let f = fuel - 1;
        match node {
            IrNode::ArraySwap(arr, idx, val) => {
                let av = match self.evaluate_within(env, arr, f) {
                    Some(Ok(v)) => v,
                    other => return other,
                };
                let index = match self.evaluate_within(env, idx, f) {
                    Some(Ok(Value::Int(i))) => i,
                    Some(Ok(_)) => return Some(
                        Err(String::from_str("VM Error: Array index must be an Integer")),
                    ),
                    other => return other,
                };
                let new_val = match self.evaluate_within(env, val, f) {
                    Some(Ok(v)) => v,
                    other => return other,
                };
                match av {
                    Value::Array(mut elements) => {
                        proof {
                            lemma_values_view(elements@);
                        }
                        if index < 0 || index as u64 >= elements.len() as u64 {
                            return None;
                        }
                        let i = index as usize;
                        let ghost old_elements = elements@;
                        let old_val = elements[i].duplicate();
                        let ghost nv = new_val@;
                        elements.set(i, new_val);
                        proof {
                            lemma_values_view(old_elements);
                            lemma_values_view(elements@);
                            assert(values_view(elements@) =~= values_view(old_elements).update(
                                i as int,
                                nv,
                            ));
                        }
                        assert(old_val@ == values_view(old_elements)[i as int]);
                        let arr = Value::Array(elements);
                        assert(arr@ == SpecValue::Array(values_view(old_elements).update(i as int, nv)));
                        let res = Value::Pair(Box::new(old_val), Box::new(arr));
                        assert(res@ == SpecValue::Pair(
                            Box::new(values_view(old_elements)[i as int]),
                            Box::new(SpecValue::Array(values_view(old_elements).update(i as int, nv))),
                        ));
                        Some(Ok(res))
                    },
                    _ => Some(Err(String::from_str("VM Error: Expected an Array for 'Swap'"))),
                }
            },
            _ => None,
        }
    }

    /// Branching on a sum, or on an integer: non-zero is the left branch.
    fn eval_match(&mut self, env: &ValueEnv, node: &IrNode, fuel: u64) -> (r: Option<Result<Value, String>>)
        requires
            fuel > 0,
            node is Match,
        ensures
            outcome_matches(r, eval(fuel as nat, env@, node@)),
        decreases fuel, 0nat,
    {
        let f = fuel - 1;
        match node {
            IrNode::Match(e, l_var, l_body, r_var, r_body) => match self.evaluate_within(env, e, f) {
                Some(Ok(Value::Int(v))) => {
                    let mut local_env = env.duplicate();
                    if v != 0 {
                        // Non-zero is the left branch.
                        local_env.insert(l_var.clone(), Value::Int(v));
                        self.evaluate_within(&local_env, l_body, f)
                    } else {
                        local_env.insert(r_var.clone(), Value::Int(v));
                        self.evaluate_within(&local_env, r_body, f)
                    }
                },
                Some(Ok(Value::Left(x))) => {
                    let mut local_env = env.duplicate();
                    local_env.insert(l_var.clone(), *x);
                    self.evaluate_within(&local_env, l_body, f)
                },
                Some(Ok(Value::Right(x))) => {
                    let mut local_env = env.duplicate();
                    local_env.insert(r_var.clone(), *x);
                    self.evaluate_within(&local_env, r_body, f)
                },
                Some(Ok(_)) => Some(
                    Err(String::from_str("VM Error: Match expression must evaluate to an Integer")),
                ),
                other => other,
            },
            _ => None,
        }
    }
}

impl Clone for Value {
    fn clone(&self) -> (r: Self)
        ensures
            r@ == self@,
    {
        self.duplicate()
    }
}

} // verus!
