//! Generation of LLVM IR from the untyped IR.
//!
//! The LLVM values themselves are opaque here: what is specified is which IR
//! the generator accepts, the kind (integer or pointer) of the value that each
//! node compiles to, which names must be bound, how many lambda functions are
//! emitted, and of the instructions inserted: that generation only adds to
//! them, and which instructions compute an arithmetic node.
use vstd::prelude::*;
use inkwell::basic_block::BasicBlock;
use inkwell::builder::Builder;
use inkwell::context::Context;
use inkwell::module::Module;
use inkwell::types::{PointerType, StructType};
use inkwell::values::{FunctionValue, IntValue, PointerValue};
use crate::ir::{IrNode, SpecIr};
use crate::bindings::{bindings, lemma_bindings_lookup};
use crate::vm::{eval, wrap_i64, Outcome, SpecValue};
use crate::llvm::{
    add_function, add_incoming, append_basic_block, basic_ptr_type, basic_type_size, block_parent,
    build_alloca, build_call, build_conditional_branch, build_int_add, build_int_compare,
    build_int_mul, build_int_sub, build_int_to_ptr, build_load, build_phi, build_pointer_cast,
    build_ptr_to_int, build_return, build_store, build_struct_gep, build_unconditional_branch,
    builder_error_text, call_result, callable_function, callable_pointer, const_i64,
    create_builder, create_module, fn_ptr_type, function_global, get_insert_block, global_pointer,
    i64_type, i8_type, int_basic_type, int_fn_type, int_fn_type_no_params, int_param,
    int_ptr_type, phi_value, position_at_end, ptr_basic_type, ptr_fn_type, set_int_name,
    set_tail_call, struct_ptr_type, struct_size, struct_type, type_of, Instr, built,
    insert_block_of, module_name_of, global_names_of, function_name_of, block_parent_of,
    constant_of,
};

verus! {

/// A value of generated code: an integer or a pointer.
#[derive(Clone, Copy)]
pub enum CgValue<'ctx> {
    Int(IntValue<'ctx>),
    Ptr(PointerValue<'ctx>),
}

/// The integer comparisons that code generation emits.
#[derive(Clone, Copy)]
pub enum Comparison {
    Equal,
    UnsignedLess,
}

/// The kind of a generated value.
pub enum CgKind {
    Int,
    Ptr,
}

pub open spec fn kind_of(v: CgValue) -> CgKind {
    match v {
        CgValue::Int(_) => CgKind::Int,
        CgValue::Ptr(_) => CgKind::Ptr,
    }
}

/// An environment of generated values: a list of bindings in which a later
/// binding of a name hides an earlier one.
pub struct CgEnv<'ctx> {
    pub entries: Vec<(String, CgValue<'ctx>)>,
}

/// The kinds of the values that a list of bindings binds.
pub open spec fn cg_entries_view(es: Seq<(String, CgValue)>) -> Map<Seq<char>, CgKind>
    decreases es.len(),
{
    if es.len() == 0 {
        Map::empty()
    } else {
        cg_entries_view(es.subrange(0, es.len() - 1)).insert(
            es[es.len() - 1].0@,
            kind_of(es[es.len() - 1].1),
        )
    }
}

impl<'ctx> CgEnv<'ctx> {
    /// The values bound to the names (the view keeps only their kinds).
    pub open spec fn values(&self) -> Map<Seq<char>, CgValue<'ctx>> {
        bindings(self.entries@)
    }
}

impl<'ctx> View for CgEnv<'ctx> {
    type V = Map<Seq<char>, CgKind>;

    open spec fn view(&self) -> Map<Seq<char>, CgKind> {
        cg_entries_view(self.entries@)
    }
}

proof fn lemma_cg_entries_lookup(es: Seq<(String, CgValue)>, i: int, k: Seq<char>)
    requires
        0 <= i <= es.len(),
        forall|j: int| i <= j < es.len() ==> (#[trigger] es[j]).0@ != k,
    ensures
        cg_entries_view(es).contains_key(k) == cg_entries_view(es.subrange(0, i)).contains_key(k),
        cg_entries_view(es).contains_key(k) ==> cg_entries_view(es)[k] == cg_entries_view(
            es.subrange(0, i),
        )[k],
    decreases es.len(),
{
    if i == es.len() {
        assert(es.subrange(0, i) =~= es);
    } else {
        let es2 = es.subrange(0, es.len() - 1);
        assert(es2.subrange(0, i) =~= es.subrange(0, i));
        assert(es[es.len() - 1].0@ != k);
        assert forall|j: int| i <= j < es2.len() implies (#[trigger] es2[j]).0@ != k by {
            assert(es2[j] == es[j]);
        }
        lemma_cg_entries_lookup(es2, i, k);
    }
}

impl<'ctx> CgEnv<'ctx> {
    pub fn new() -> (r: Self)
        ensures
            r@ == Map::<Seq<char>, CgKind>::empty(),
            r.values() == Map::<Seq<char>, CgValue<'ctx>>::empty(),
    {
        CgEnv { entries: Vec::new() }
    }

    /// Binds `name` to `v`, hiding any earlier binding of `name`.
    pub fn insert(&mut self, name: String, v: CgValue<'ctx>)
        ensures
            final(self)@ == old(self)@.insert(name@, kind_of(v)),
            final(self).values() == old(self).values().insert(name@, v),
    {
        let ghost old_entries = self.entries@;
        self.entries.push((name, v));
        assert(self.entries@.subrange(0, self.entries@.len() - 1) =~= old_entries);
    }

    /// The value bound to `name`, if any.
    pub fn get(&self, name: &String) -> (r: Option<CgValue<'ctx>>)
        ensures
            match r {
                Some(v) => self@.contains_key(name@) && self@[name@] == kind_of(v)
                    && self.values().contains_key(name@) && self.values()[name@] == v,
                None => !self@.contains_key(name@) && !self.values().contains_key(name@),
            },
    {
        let mut i = self.entries.len();
        while i > 0
            invariant
                i <= self.entries@.len(),
                forall|j: int| i <= j < self.entries@.len() ==> (#[trigger] self.entries@[j]).0@
                    != name@,
            decreases i,
        {
            i = i - 1;
            if self.entries[i].0 == *name {
                proof {
                    let es = self.entries@;
                    lemma_cg_entries_lookup(es, i + 1, name@);
                    lemma_bindings_lookup(es, i + 1, name@);
                    let es2 = es.subrange(0, i + 1);
                    assert(es2.subrange(0, es2.len() - 1) =~= es.subrange(0, i as int));
                }
                return Some(self.entries[i].1);
            }
        }
        proof {
            lemma_cg_entries_lookup(self.entries@, 0, name@);
            lemma_bindings_lookup(self.entries@, 0, name@);
            assert(self.entries@.subrange(0, 0) =~= Seq::<(String, CgValue)>::empty());
        }
        None
    }

    /// A copy of the environment, with the same model.
    pub fn duplicate(&self) -> (r: Self)
        ensures
            r@ == self@,
            r.values() == self.values(),
    {
        let mut out: Vec<(String, CgValue<'ctx>)> = Vec::new();
        let n = self.entries.len();
        let mut i: usize = 0;
        while i < n
            invariant
                n == self.entries@.len(),
                i <= n,
                cg_entries_view(out@) == cg_entries_view(self.entries@.subrange(0, i as int)),
                bindings(out@) == bindings(self.entries@.subrange(0, i as int)),
            decreases n - i,
        {
            let name = self.entries[i].0.clone();
            let v = self.entries[i].1;
            let ghost old_out = out@;
            out.push((name, v));
            proof {
                assert(out@.subrange(0, out@.len() - 1) =~= old_out);
                let s1 = self.entries@.subrange(0, i + 1);
                assert(s1.subrange(0, s1.len() - 1) =~= self.entries@.subrange(0, i as int));
            }
            i = i + 1;
        }
        assert(self.entries@.subrange(0, n as int) =~= self.entries@);
        CgEnv { entries: out }
    }
}

/// What generating code for a node gives.
pub enum CgOutcome {
    /// A value of this kind.
    Kind(CgKind),
    /// The name is used where nothing binds it.
    Undefined(Seq<char>),
    /// A pointer is used where an integer is needed (the generator cannot go on).
    Stuck,
}

/// What generating code for `n` gives, with names bound to values of the kinds in `kenv`.
/// Sub-nodes are generated in order, and the first one that fails decides.
pub open spec fn cg(kenv: Map<Seq<char>, CgKind>, n: SpecIr) -> CgOutcome
    decreases n,
{
    match n {
        SpecIr::Int(_) => CgOutcome::Kind(CgKind::Int),
        SpecIr::Var(x) => if kenv.contains_key(x) {
            CgOutcome::Kind(kenv[x])
        } else {
            CgOutcome::Undefined(x)
        },
        SpecIr::Add(l, r) | SpecIr::Sub(l, r) | SpecIr::Eq(l, r) => match cg(kenv, *l) {
            CgOutcome::Kind(CgKind::Int) => match cg(kenv, *r) {
                CgOutcome::Kind(CgKind::Int) => CgOutcome::Kind(CgKind::Int),
                CgOutcome::Kind(CgKind::Ptr) => CgOutcome::Stuck,
                o => o,
            },
            CgOutcome::Kind(CgKind::Ptr) => CgOutcome::Stuck,
            o => o,
        },
        SpecIr::Lam(x, body) => match cg(kenv.insert(x, CgKind::Int), *body) {
            CgOutcome::Kind(_) => CgOutcome::Kind(CgKind::Ptr),
            o => o,
        },
        SpecIr::App(func, arg) => match (*func, *arg) {
            (SpecIr::Lam(bind, in_body), SpecIr::Lam(p, fb)) => match cg(
                kenv.insert(bind, CgKind::Ptr).insert(p, CgKind::Int),
                *fb,
            ) {
                CgOutcome::Kind(_) => cg(kenv.insert(bind, CgKind::Ptr), *in_body),
                o => o,
            },
            _ => match cg(kenv, *func) {
                CgOutcome::Kind(_) => match cg(kenv, *arg) {
                    CgOutcome::Kind(_) => CgOutcome::Kind(CgKind::Int),
                    o => o,
                },
                o => o,
            },
        },
        SpecIr::MkPair(l, r) => match cg(kenv, *l) {
            CgOutcome::Kind(_) => match cg(kenv, *r) {
                CgOutcome::Kind(_) => CgOutcome::Kind(CgKind::Ptr),
                o => o,
            },
            o => o,
        },
        SpecIr::Left(p) | SpecIr::Right(p) => match cg(kenv, *p) {
            CgOutcome::Kind(_) => CgOutcome::Kind(CgKind::Int),
            o => o,
        },
        SpecIr::Unpack(v1, v2, p, body) => match cg(kenv, *p) {
            CgOutcome::Kind(_) => cg(kenv.insert(v1, CgKind::Int).insert(v2, CgKind::Int), *body),
            o => o,
        },
        SpecIr::ArrayAlloc(sz, init) => match cg(kenv, *sz) {
            CgOutcome::Kind(CgKind::Int) => match cg(kenv, *init) {
                CgOutcome::Kind(_) => CgOutcome::Kind(CgKind::Ptr),
                o => o,
            },
            CgOutcome::Kind(CgKind::Ptr) => CgOutcome::Stuck,
            o => o,
        },
        SpecIr::ArraySwap(arr, idx, val) => match cg(kenv, *arr) {
            CgOutcome::Kind(_) => match cg(kenv, *idx) {
                CgOutcome::Kind(CgKind::Int) => match cg(kenv, *val) {
                    CgOutcome::Kind(_) => CgOutcome::Kind(CgKind::Ptr),
                    o => o,
                },
                CgOutcome::Kind(CgKind::Ptr) => CgOutcome::Stuck,
                o => o,
            },
            o => o,
        },
        SpecIr::Match(e, lv, lb, rv, rb) => match cg(kenv, *e) {
            CgOutcome::Kind(CgKind::Int) => match cg(kenv.insert(lv, CgKind::Int), *lb) {
                CgOutcome::Kind(k) => match cg(kenv.insert(rv, CgKind::Int), *rb) {
                    CgOutcome::Kind(_) => CgOutcome::Kind(k),
                    o => o,
                },
                o => o,
            },
            CgOutcome::Kind(CgKind::Ptr) => CgOutcome::Stuck,
            o => o,
        },
    }
}

/// The number of `lambda_N` functions that generating code for `n` emits: one
/// for each lambda, except a lambda applied to a lambda, which becomes a
/// recursive function of its own.
pub open spec fn lambda_count(n: SpecIr) -> nat
    decreases n,
{
    match n {
        SpecIr::Int(_) | SpecIr::Var(_) => 0,
        SpecIr::Lam(_, body) => 1 + lambda_count(*body),
        SpecIr::App(func, arg) => match (*func, *arg) {
            (SpecIr::Lam(_, in_body), SpecIr::Lam(_, fb)) => lambda_count(*fb) + lambda_count(
                *in_body,
            ),
            _ => lambda_count(*func) + lambda_count(*arg),
        },
        SpecIr::Add(l, r) | SpecIr::Sub(l, r) | SpecIr::Eq(l, r) | SpecIr::MkPair(l, r)
        | SpecIr::ArrayAlloc(l, r) => lambda_count(*l) + lambda_count(*r),
        SpecIr::Left(p) | SpecIr::Right(p) => lambda_count(*p),
        SpecIr::Unpack(_, _, p, body) => lambda_count(*p) + lambda_count(*body),
        SpecIr::ArraySwap(a, i, v) => lambda_count(*a) + lambda_count(*i) + lambda_count(*v),
        SpecIr::Match(e, _, lb, _, rb) => lambda_count(*e) + lambda_count(*lb) + lambda_count(*rb),
    }
}

/// The decimal digits of `n`.
pub open spec fn decimal(n: nat) -> Seq<char>
    decreases n,
{
    if n < 10 {
        seq![digit_char(n)]
    } else {
        decimal(n / 10).push(digit_char(n % 10))
    }
}

pub open spec fn digit_char(d: nat) -> char {
    if d == 0 {
        '0'
    } else if d == 1 {
        '1'
    } else if d == 2 {
        '2'
    } else if d == 3 {
        '3'
    } else if d == 4 {
        '4'
    } else if d == 5 {
        '5'
    } else if d == 6 {
        '6'
    } else if d == 7 {
        '7'
    } else if d == 8 {
        '8'
    } else {
        '9'
    }
}

/// Appends the decimal digits of `n` to `out`.
pub fn push_decimal(out: &mut String, n: usize)
    ensures
        final(out)@ == old(out)@ + decimal(n as nat),
    decreases n,
{
    if n >= 10 {
        push_decimal(out, n / 10);
    }
    let d = n % 10;
    let s = if d == 0 {
        "0"
    } else if d == 1 {
        "1"
    } else if d == 2 {
        "2"
    } else if d == 3 {
        "3"
    } else if d == 4 {
        "4"
    } else if d == 5 {
        "5"
    } else if d == 6 {
        "6"
    } else if d == 7 {
        "7"
    } else if d == 8 {
        "8"
    } else {
        "9"
    };
    proof {
        reveal_strlit("0");
        reveal_strlit("1");
        reveal_strlit("2");
        reveal_strlit("3");
        reveal_strlit("4");
        reveal_strlit("5");
        reveal_strlit("6");
        reveal_strlit("7");
        reveal_strlit("8");
        reveal_strlit("9");
    }
    out.append(s);
    proof {
        assert(s@ == seq![digit_char(d as nat)]);
        if n >= 10 {
            assert(old(out)@ + decimal(n as nat) =~= old(out)@ + decimal((n / 10) as nat) + s@);
        } else {
            assert(old(out)@ + decimal(n as nat) =~= old(out)@ + s@);
        }
    }
}

/// A list of name-kind bindings in which a later binding of a name hides an earlier one.
pub struct KindEnv {
    pub entries: Vec<(String, CgKind)>,
}

impl View for KindEnv {
    type V = Map<Seq<char>, CgKind>;

    open spec fn view(&self) -> Map<Seq<char>, CgKind> {
        bindings(self.entries@)
    }
}

fn copy_kind(k: &CgKind) -> (r: CgKind)
    ensures
        r == *k,
{
    match k {
        CgKind::Int => CgKind::Int,
        CgKind::Ptr => CgKind::Ptr,
    }
}

impl KindEnv {
    pub fn new() -> (r: Self)
        ensures
            r@ == Map::<Seq<char>, CgKind>::empty(),
    {
        KindEnv { entries: Vec::new() }
    }

    /// The environment with `name` bound to `k`, hiding any earlier binding of `name`.
    pub fn with(&self, name: &String, k: CgKind) -> (r: Self)
        ensures
            r@ == self@.insert(name@, k),
    {
        let mut out: Vec<(String, CgKind)> = Vec::new();
        let n = self.entries.len();
        let mut i: usize = 0;
        while i < n
            invariant
                n == self.entries@.len(),
                i <= n,
                bindings(out@) == bindings(self.entries@.subrange(0, i as int)),
            decreases n - i,
        {
            let ghost old_out = out@;
            out.push((self.entries[i].0.clone(), copy_kind(&self.entries[i].1)));
            proof {
                assert(out@.subrange(0, out@.len() - 1) =~= old_out);
                let s1 = self.entries@.subrange(0, i + 1);
                assert(s1.subrange(0, s1.len() - 1) =~= self.entries@.subrange(0, i as int));
            }
            i = i + 1;
        }
        assert(self.entries@.subrange(0, n as int) =~= self.entries@);
        let ghost old_out = out@;
        out.push((name.clone(), k));
        assert(out@.subrange(0, out@.len() - 1) =~= old_out);
        KindEnv { entries: out }
    }

    /// The kind bound to `name`, if any.
    pub fn get(&self, name: &String) -> (r: Option<CgKind>)
        ensures
            match r {
                Some(k) => self@.contains_key(name@) && self@[name@] == k,
                None => !self@.contains_key(name@),
            },
    {
        let mut i = self.entries.len();
        while i > 0
            invariant
                i <= self.entries@.len(),
                forall|j: int| i <= j < self.entries@.len() ==> (#[trigger] self.entries@[j]).0@
                    != name@,
            decreases i,
        {
            i = i - 1;
            if self.entries[i].0 == *name {
                proof {
                    let es = self.entries@;
                    lemma_bindings_lookup(es, i + 1, name@);
                    let es2 = es.subrange(0, i + 1);
                    assert(es2.subrange(0, es2.len() - 1) =~= es.subrange(0, i as int));
                }
                return Some(copy_kind(&self.entries[i].1));
            }
        }
        proof {
            lemma_bindings_lookup(self.entries@, 0, name@);
            assert(self.entries@.subrange(0, 0) =~= Seq::<(String, CgKind)>::empty());
        }
        None
    }
}

/// What generating code for a node gives (executable form of `CgOutcome`).
pub enum Generation {
    Kind(CgKind),
    Undefined(String),
    Stuck,
}

impl View for Generation {
    type V = CgOutcome;

    open spec fn view(&self) -> CgOutcome {
        match self {
            Generation::Kind(k) => CgOutcome::Kind(*k),
            Generation::Undefined(x) => CgOutcome::Undefined(x@),
            Generation::Stuck => CgOutcome::Stuck,
        }
    }
}

/// What generating code for `ir` gives, with names bound to values of the
/// kinds in `kenv`, found without generating any code.
pub fn generation_outcome(ir: &IrNode, kenv: &KindEnv) -> (r: Generation)
    ensures
        r@ == cg(kenv@, ir@),
    decreases ir,
{
    match ir {
        IrNode::Int(_) => Generation::Kind(CgKind::Int),
        IrNode::Var(x) => match kenv.get(x) {
            Some(k) => Generation::Kind(k),
            None => Generation::Undefined(x.clone()),
        },
        IrNode::Add(l, r) | IrNode::Sub(l, r) | IrNode::Eq(l, r) => match generation_outcome(l, kenv) {
            Generation::Kind(CgKind::Int) => match generation_outcome(r, kenv) {
                Generation::Kind(CgKind::Int) => Generation::Kind(CgKind::Int),
                Generation::Kind(CgKind::Ptr) => Generation::Stuck,
                o => o,
            },
            Generation::Kind(CgKind::Ptr) => Generation::Stuck,
            o => o,
        },
        IrNode::Lam(x, body) => match generation_outcome(body, &kenv.with(x, CgKind::Int)) {
            Generation::Kind(_) => Generation::Kind(CgKind::Ptr),
            o => o,
        },
        IrNode::App(func, arg) => {
            if let IrNode::Lam(bind, in_body) = &**func {
                if let IrNode::Lam(p, fb) = &**arg {
                    let bound = kenv.with(bind, CgKind::Ptr);
                    return match generation_outcome(fb, &bound.with(p, CgKind::Int)) {
                        Generation::Kind(_) => generation_outcome(in_body, &bound),
                        o => o,
                    };
                }
            }
            proof {
                crate::vm::lemma_lam_view(**func);
                crate::vm::lemma_lam_view(**arg);
            }
            match generation_outcome(func, kenv) {
                Generation::Kind(_) => match generation_outcome(arg, kenv) {
                    Generation::Kind(_) => Generation::Kind(CgKind::Int),
                    o => o,
                },
                o => o,
            }
        },
        IrNode::MkPair(l, r) => match generation_outcome(l, kenv) {
            Generation::Kind(_) => match generation_outcome(r, kenv) {
                Generation::Kind(_) => Generation::Kind(CgKind::Ptr),
                o => o,
            },
            o => o,
        },
        IrNode::Left(p) | IrNode::Right(p) => match generation_outcome(p, kenv) {
            Generation::Kind(_) => Generation::Kind(CgKind::Int),
            o => o,
        },
        IrNode::Unpack(v1, v2, p, body) => match generation_outcome(p, kenv) {
            Generation::Kind(_) => generation_outcome(body, &kenv.with(v1, CgKind::Int).with(v2, CgKind::Int)),
            o => o,
        },
        IrNode::ArrayAlloc(sz, init) => match generation_outcome(sz, kenv) {
            Generation::Kind(CgKind::Int) => match generation_outcome(init, kenv) {
                Generation::Kind(_) => Generation::Kind(CgKind::Ptr),
                o => o,
            },
            Generation::Kind(CgKind::Ptr) => Generation::Stuck,
            o => o,
        },
        IrNode::ArraySwap(arr, idx, val) => match generation_outcome(arr, kenv) {
            Generation::Kind(_) => match generation_outcome(idx, kenv) {
                Generation::Kind(CgKind::Int) => match generation_outcome(val, kenv) {
                    Generation::Kind(_) => Generation::Kind(CgKind::Ptr),
                    o => o,
                },
                Generation::Kind(CgKind::Ptr) => Generation::Stuck,
                o => o,
            },
            o => o,
        },
        IrNode::Match(e, lv, lb, rv, rb) => match generation_outcome(e, kenv) {
            Generation::Kind(CgKind::Int) => match generation_outcome(lb, &kenv.with(lv, CgKind::Int)) {
                Generation::Kind(k) => match generation_outcome(rb, &kenv.with(rv, CgKind::Int)) {
                    Generation::Kind(_) => Generation::Kind(k),
                    o => o,
                },
                o => o,
            },
            Generation::Kind(CgKind::Ptr) => Generation::Stuck,
            o => o,
        },
    }
}

/// The number of `lambda_N` functions that generating code for `ir` emits, where it fits in `usize`.
pub fn count_lambdas(ir: &IrNode) -> (r: Option<usize>)
    ensures
        match r {
            Some(n) => n == lambda_count(ir@),
            None => lambda_count(ir@) > usize::MAX,
        },
    decreases ir,
{
    match ir {
        IrNode::Int(_) | IrNode::Var(_) => Some(0),
        IrNode::Lam(_, body) => match count_lambdas(body) {
            Some(n) => n.checked_add(1),
            None => None,
        },
        IrNode::App(func, arg) => {
            if let IrNode::Lam(bind, in_body) = &**func {
                if let IrNode::Lam(p, fb) = &**arg {
                    proof {
                        assert((**func)@ == SpecIr::Lam(bind@, Box::new((**in_body)@)));
                        assert((**arg)@ == SpecIr::Lam(p@, Box::new((**fb)@)));
                    }
                    return match (count_lambdas(fb), count_lambdas(in_body)) {
                        (Some(a), Some(b)) => a.checked_add(b),
                        _ => None,
                    };
                }
            }
            proof {
                crate::vm::lemma_lam_view(**func);
                crate::vm::lemma_lam_view(**arg);
            }
            match (count_lambdas(func), count_lambdas(arg)) {
                (Some(a), Some(b)) => a.checked_add(b),
                _ => None,
            }
        },
        IrNode::Add(l, r) | IrNode::Sub(l, r) | IrNode::Eq(l, r) | IrNode::MkPair(l, r)
        | IrNode::ArrayAlloc(l, r) | IrNode::Unpack(_, _, l, r) => match (count_lambdas(l), count_lambdas(r)) {
            (Some(a), Some(b)) => a.checked_add(b),
            _ => None,
        },
        IrNode::Left(p) | IrNode::Right(p) => count_lambdas(p),
        IrNode::ArraySwap(a, i, v) | IrNode::Match(a, _, i, _, v) => match (
            count_lambdas(a),
            count_lambdas(i),
            count_lambdas(v),
        ) {
            (Some(x), Some(y), Some(z)) => match x.checked_add(y) {
                Some(xy) => xy.checked_add(z),
                None => None,
            },
            _ => None,
        },
    }
}

/// The code generator: an LLVM module being filled through one builder.
pub struct Compiler<'ctx> {
    pub context: &'ctx Context,
    pub builder: Builder<'ctx>,
    pub module: Module<'ctx>,
    /// The number of `lambda_N` functions emitted so far.
    pub lambda_counter: usize,
    /// The declaration of `malloc` in the module.
    pub malloc: FunctionValue<'ctx>,
}

/// The message for a name that no binding defines.
pub open spec fn undefined_message(x: Seq<char>) -> Seq<char> {
    "LLVM Error: Undefined variable '"@ + x + "'"@
}

/// Every instruction of `before` is still in its place in `after`.
pub open spec fn extends<'ctx>(after: Seq<Instr<'ctx>>, before: Seq<Instr<'ctx>>) -> bool {
    &&& before.len() <= after.len()
    &&& forall|i: int| 0 <= i < before.len() ==> after[i] == before[i]
}

/// `after` is `before` having generated more code: the same context and
/// `malloc`, the same module (its name kept, its globals kept), and every
/// instruction built before still there.
pub open spec fn continues(after: Compiler, before: Compiler) -> bool {
    &&& after.context == before.context
    &&& after.malloc == before.malloc
    &&& module_name_of(after.module) == module_name_of(before.module)
    &&& global_names_of(before.module).subset_of(global_names_of(after.module))
    &&& extends(built(after.builder), built(before.builder))
}

/// The IR nodes of integer arithmetic: literals, names, sums, differences and
/// comparisons.
pub open spec fn arithmetic(n: SpecIr) -> bool
    decreases n,
{
    match n {
        SpecIr::Int(_) | SpecIr::Var(_) => true,
        SpecIr::Add(l, r) | SpecIr::Sub(l, r) | SpecIr::Eq(l, r) => arithmetic(*l) && arithmetic(
            *r,
        ),
        _ => false,
    }
}

/// Whether the instructions `code` compute the integer `v` as the arithmetic
/// node `n`, with names bound to the values in `env`: a literal is the constant
/// of its value, a name its bound value, and a sum, a difference or a
/// comparison for equality is the result of an instruction of that operation
/// in `code` whose operands, left then right, compute the two sides.
pub open spec fn computes<'ctx>(
    code: Seq<Instr<'ctx>>,
    env: Map<Seq<char>, CgValue<'ctx>>,
    n: SpecIr,
    v: IntValue<'ctx>,
) -> bool
    decreases n,
{
    match n {
        SpecIr::Int(k) => constant_of(v) == Some(k),
        SpecIr::Var(x) => env.contains_key(x) && env[x] == CgValue::Int(v),
        SpecIr::Add(l, r) => exists|i: int|
            0 <= i < code.len() && (#[trigger] code[i] matches Instr::IntAdd(a, b, w) && w == v
                && computes(code, env, *l, a) && computes(code, env, *r, b)),
        SpecIr::Sub(l, r) => exists|i: int|
            0 <= i < code.len() && (#[trigger] code[i] matches Instr::IntSub(a, b, w) && w == v
                && computes(code, env, *l, a) && computes(code, env, *r, b)),
        SpecIr::Eq(l, r) => exists|i: int|
            0 <= i < code.len() && (#[trigger] code[i] matches Instr::IntCompare(
                Comparison::Equal,
                a,
                b,
                w,
            ) && w == v && computes(code, env, *l, a) && computes(code, env, *r, b)),
        SpecIr::Unpack(v1, v2, p, body) => match *p {
            SpecIr::MkPair(l, r) => exists|
                pp: PointerValue<'ctx>,
                sa: IntValue<'ctx>,
                sb: IntValue<'ctx>,
                q: PointerValue<'ctx>,
                a: IntValue<'ctx>,
                b: IntValue<'ctx>,
            |
                #![trigger stores_field(code, pp, 0, sa), stores_field(code, pp, 1, sb), casts_to(code, pp, q), loads_field(code, q, 0, a), loads_field(code, q, 1, b)]
                stores_field(code, pp, 0, sa) && stores_field(code, pp, 1, sb) && computes(
                    code,
                    env,
                    *l,
                    sa,
                ) && computes(code, env, *r, sb) && casts_to(code, pp, q) && loads_field(
                    code,
                    q,
                    0,
                    a,
                ) && loads_field(code, q, 1, b) && computes(
                    code,
                    env.insert(v1, CgValue::Int(a)).insert(v2, CgValue::Int(b)),
                    *body,
                    v,
                ),
            _ => false,
        },
        _ => false,
    }
}

/// The instructions `code` store the integer `x` at field `field` of the
/// struct that `pp` points to: the address of the field is taken, and `x`
/// stored there.
pub open spec fn stores_field<'ctx>(code: Seq<Instr<'ctx>>, pp: PointerValue<'ctx>, field: u32, x: IntValue<'ctx>) -> bool {
    exists|i: int, j: int|
        #![trigger code[i], code[j]]
        0 <= i < code.len() && 0 <= j < code.len() && (code[i] matches Instr::StructGep(p, n, g)
            && p == pp && n == field && code[j] == Instr::Store(g, CgValue::Int(x)))
}

/// The instructions `code` load the integer `x` from field `field` of the
/// struct that `q` points to.
pub open spec fn loads_field<'ctx>(code: Seq<Instr<'ctx>>, q: PointerValue<'ctx>, field: u32, x: IntValue<'ctx>) -> bool {
    exists|i: int, j: int|
        #![trigger code[i], code[j]]
        0 <= i < code.len() && 0 <= j < code.len() && (code[i] matches Instr::StructGep(p, n, g)
            && p == q && n == field && code[j] == Instr::Load(g, CgValue::Int(x)))
}

/// The instructions `code` cast the pointer `pp` to `q`.
pub open spec fn casts_to<'ctx>(code: Seq<Instr<'ctx>>, pp: PointerValue<'ctx>, q: PointerValue<'ctx>) -> bool {
    exists|i: int| 0 <= i < code.len() && #[trigger] code[i] == Instr::PointerCast(pp, q)
}

/// The instructions `code` hold the pair `(l, r)` at `pp`: integers that
/// compute `l` and `r` are stored at its field 0 and field 1.
pub open spec fn pair_stored<'ctx>(
    code: Seq<Instr<'ctx>>,
    env: Map<Seq<char>, CgValue<'ctx>>,
    l: SpecIr,
    r: SpecIr,
    pp: PointerValue<'ctx>,
) -> bool {
    exists|sa: IntValue<'ctx>, sb: IntValue<'ctx>|
        #![trigger stores_field(code, pp, 0, sa), stores_field(code, pp, 1, sb)]
        stores_field(code, pp, 0, sa) && stores_field(code, pp, 1, sb) && computes(code, env, l, sa)
            && computes(code, env, r, sb)
}

/// The nodes whose integer value the generated instructions are specified to
/// compute, with names bound to values of the kinds in `kenv`: integer
/// literals, names bound to integers, sums, differences, comparisons, and the
/// unpacking of a pair built in place into two names.
pub open spec fn int_fragment(kenv: Map<Seq<char>, CgKind>, n: SpecIr) -> bool
    decreases n,
{
    match n {
        SpecIr::Int(_) => true,
        SpecIr::Var(x) => kenv.contains_key(x) && kenv[x] == CgKind::Int,
        SpecIr::Add(l, r) | SpecIr::Sub(l, r) | SpecIr::Eq(l, r) => int_fragment(kenv, *l)
            && int_fragment(kenv, *r),
        SpecIr::Unpack(v1, v2, p, body) => match *p {
            SpecIr::MkPair(l, r) => int_fragment(kenv, *l) && int_fragment(kenv, *r) && int_fragment(
                kenv.insert(v1, CgKind::Int).insert(v2, CgKind::Int),
                *body,
            ),
            _ => false,
        },
        _ => false,
    }
}

/// Unpacking a pair gives its first name the left component: where the
/// instructions compute `unpack (l, r) into v1, v2 in v1` as `v`, `v` is loaded
/// from field 0 of a struct, through a cast of a pointer at whose field 0 an
/// integer computing `l` is stored; and its second name the right one, from
/// field 1, where an integer computing `r` is stored.
pub proof fn lemma_unpack_reads_fields<'ctx>(
    code: Seq<Instr<'ctx>>,
    env: Map<Seq<char>, CgValue<'ctx>>,
    v1: Seq<char>,
    v2: Seq<char>,
    l: SpecIr,
    r: SpecIr,
    v: IntValue<'ctx>,
)
    requires
        v1 != v2,
    ensures
        computes(
            code,
            env,
            SpecIr::Unpack(v1, v2, Box::new(SpecIr::MkPair(Box::new(l), Box::new(r))), Box::new(SpecIr::Var(v1))),
            v,
        ) ==> exists|pp: PointerValue<'ctx>, q: PointerValue<'ctx>, sa: IntValue<'ctx>|
            #![trigger stores_field(code, pp, 0, sa), casts_to(code, pp, q), loads_field(code, q, 0, v)]
            stores_field(code, pp, 0, sa) && computes(code, env, l, sa) && casts_to(code, pp, q)
                && loads_field(code, q, 0, v),
        computes(
            code,
            env,
            SpecIr::Unpack(v1, v2, Box::new(SpecIr::MkPair(Box::new(l), Box::new(r))), Box::new(SpecIr::Var(v2))),
            v,
        ) ==> exists|pp: PointerValue<'ctx>, q: PointerValue<'ctx>, sb: IntValue<'ctx>|
            #![trigger stores_field(code, pp, 1, sb), casts_to(code, pp, q), loads_field(code, q, 1, v)]
            stores_field(code, pp, 1, sb) && computes(code, env, r, sb) && casts_to(code, pp, q)
                && loads_field(code, q, 1, v),
{
    let pair = SpecIr::MkPair(Box::new(l), Box::new(r));
    {
        let body = SpecIr::Var(v1);
        if computes(code, env, SpecIr::Unpack(v1, v2, Box::new(pair), Box::new(body)), v) {
            let (pp, sa, sb, q, a, b) = choose|
                pp: PointerValue<'ctx>,
                sa: IntValue<'ctx>,
                sb: IntValue<'ctx>,
                q: PointerValue<'ctx>,
                a: IntValue<'ctx>,
                b: IntValue<'ctx>,
            |
                #![trigger stores_field(code, pp, 0, sa), stores_field(code, pp, 1, sb), casts_to(code, pp, q), loads_field(code, q, 0, a), loads_field(code, q, 1, b)]
                stores_field(code, pp, 0, sa) && stores_field(code, pp, 1, sb) && computes(
                    code,
                    env,
                    l,
                    sa,
                ) && computes(code, env, r, sb) && casts_to(code, pp, q) && loads_field(
                    code,
                    q,
                    0,
                    a,
                ) && loads_field(code, q, 1, b) && computes(
                    code,
                    env.insert(v1, CgValue::Int(a)).insert(v2, CgValue::Int(b)),
                    body,
                    v,
                );
            assert(a == v);
            assert(stores_field(code, pp, 0, sa) && casts_to(code, pp, q) && loads_field(code, q, 0, v));
        }
    }
    {
        let body = SpecIr::Var(v2);
        if computes(code, env, SpecIr::Unpack(v1, v2, Box::new(pair), Box::new(body)), v) {
            let (pp, sa, sb, q, a, b) = choose|
                pp: PointerValue<'ctx>,
                sa: IntValue<'ctx>,
                sb: IntValue<'ctx>,
                q: PointerValue<'ctx>,
                a: IntValue<'ctx>,
                b: IntValue<'ctx>,
            |
                #![trigger stores_field(code, pp, 0, sa), stores_field(code, pp, 1, sb), casts_to(code, pp, q), loads_field(code, q, 0, a), loads_field(code, q, 1, b)]
                stores_field(code, pp, 0, sa) && stores_field(code, pp, 1, sb) && computes(
                    code,
                    env,
                    l,
                    sa,
                ) && computes(code, env, r, sb) && casts_to(code, pp, q) && loads_field(
                    code,
                    q,
                    0,
                    a,
                ) && loads_field(code, q, 1, b) && computes(
                    code,
                    env.insert(v1, CgValue::Int(a)).insert(v2, CgValue::Int(b)),
                    body,
                    v,
                );
            assert(b == v);
            assert(stores_field(code, pp, 1, sb) && casts_to(code, pp, q) && loads_field(code, q, 1, v));
        }
    }
}

/// A node of the integer fragment generates an integer.
proof fn lemma_int_fragment_kind(kenv: Map<Seq<char>, CgKind>, n: SpecIr)
    requires
        int_fragment(kenv, n),
    ensures
        cg(kenv, n) == CgOutcome::Kind(CgKind::Int),
    decreases n,
{
    match n {
        SpecIr::Add(l, r) | SpecIr::Sub(l, r) | SpecIr::Eq(l, r) => {
            lemma_int_fragment_kind(kenv, *l);
            lemma_int_fragment_kind(kenv, *r);
        },
        SpecIr::Unpack(v1, v2, p, body) => {
            if let SpecIr::MkPair(l, r) = *p {
                lemma_int_fragment_kind(kenv, *l);
                lemma_int_fragment_kind(kenv, *r);
                lemma_int_fragment_kind(kenv.insert(v1, CgKind::Int).insert(v2, CgKind::Int), *body);
                assert(cg(kenv, *p) == CgOutcome::Kind(CgKind::Ptr));
            }
        },
        _ => {},
    }
}

proof fn lemma_fields_extend<'ctx>(code: Seq<Instr<'ctx>>, more: Seq<Instr<'ctx>>, pp: PointerValue<'ctx>, q: PointerValue<'ctx>, field: u32, x: IntValue<'ctx>)
    requires
        extends(more, code),
    ensures
        stores_field(code, pp, field, x) ==> stores_field(more, pp, field, x),
        loads_field(code, q, field, x) ==> loads_field(more, q, field, x),
        casts_to(code, pp, q) ==> casts_to(more, pp, q),
{
    if stores_field(code, pp, field, x) {
        let (i, j) = choose|i: int, j: int|
            #![trigger code[i], code[j]]
            0 <= i < code.len() && 0 <= j < code.len() && (code[i] matches Instr::StructGep(p, n, g)
                && p == pp && n == field && code[j] == Instr::Store(g, CgValue::Int(x)));
        assert(more[i] == code[i] && more[j] == code[j]);
    }
    if loads_field(code, q, field, x) {
        let (i, j) = choose|i: int, j: int|
            #![trigger code[i], code[j]]
            0 <= i < code.len() && 0 <= j < code.len() && (code[i] matches Instr::StructGep(p, n, g)
                && p == q && n == field && code[j] == Instr::Load(g, CgValue::Int(x)));
        assert(more[i] == code[i] && more[j] == code[j]);
    }
    if casts_to(code, pp, q) {
        let i = choose|i: int| 0 <= i < code.len() && #[trigger] code[i] == Instr::PointerCast(pp, q);
        assert(more[i] == code[i]);
    }
}

/// What instructions compute stays computed as more are built.
pub proof fn lemma_computes_extends<'ctx>(
    code: Seq<Instr<'ctx>>,
    more: Seq<Instr<'ctx>>,
    env: Map<Seq<char>, CgValue<'ctx>>,
    n: SpecIr,
    v: IntValue<'ctx>,
)
    requires
        extends(more, code),
        computes(code, env, n, v),
    ensures
        computes(more, env, n, v),
    decreases n,
{
    match n {
        SpecIr::Add(l, r) => {
            let i = choose|i: int|
                0 <= i < code.len() && (#[trigger] code[i] matches Instr::IntAdd(a, b, w) && w == v
                    && computes(code, env, *l, a) && computes(code, env, *r, b));
            if let Instr::IntAdd(a, b, _) = code[i] {
                lemma_computes_extends(code, more, env, *l, a);
                lemma_computes_extends(code, more, env, *r, b);
                assert(more[i] == code[i]);
            }
        },
        SpecIr::Sub(l, r) => {
            let i = choose|i: int|
                0 <= i < code.len() && (#[trigger] code[i] matches Instr::IntSub(a, b, w) && w == v
                    && computes(code, env, *l, a) && computes(code, env, *r, b));
            if let Instr::IntSub(a, b, _) = code[i] {
                lemma_computes_extends(code, more, env, *l, a);
                lemma_computes_extends(code, more, env, *r, b);
                assert(more[i] == code[i]);
            }
        },
        SpecIr::Eq(l, r) => {
            let i = choose|i: int|
                0 <= i < code.len() && (#[trigger] code[i] matches Instr::IntCompare(
                    Comparison::Equal,
                    a,
                    b,
                    w,
                ) && w == v && computes(code, env, *l, a) && computes(code, env, *r, b));
            if let Instr::IntCompare(_, a, b, _) = code[i] {
                lemma_computes_extends(code, more, env, *l, a);
                lemma_computes_extends(code, more, env, *r, b);
                assert(more[i] == code[i]);
            }
        },
        SpecIr::Unpack(v1, v2, p, body) => {
            if let SpecIr::MkPair(l, r) = *p {
                let (pp, sa, sb, q, a, b) = choose|
                    pp: PointerValue<'ctx>,
                    sa: IntValue<'ctx>,
                    sb: IntValue<'ctx>,
                    q: PointerValue<'ctx>,
                    a: IntValue<'ctx>,
                    b: IntValue<'ctx>,
                |
                    #![trigger stores_field(code, pp, 0, sa), stores_field(code, pp, 1, sb), casts_to(code, pp, q), loads_field(code, q, 0, a), loads_field(code, q, 1, b)]
                    stores_field(code, pp, 0, sa) && stores_field(code, pp, 1, sb) && computes(
                        code,
                        env,
                        *l,
                        sa,
                    ) && computes(code, env, *r, sb) && casts_to(code, pp, q) && loads_field(
                        code,
                        q,
                        0,
                        a,
                    ) && loads_field(code, q, 1, b) && computes(
                        code,
                        env.insert(v1, CgValue::Int(a)).insert(v2, CgValue::Int(b)),
                        *body,
                        v,
                    );
                lemma_fields_extend(code, more, pp, q, 0, sa);
                lemma_fields_extend(code, more, pp, q, 1, sb);
                lemma_fields_extend(code, more, pp, q, 0, a);
                lemma_fields_extend(code, more, pp, q, 1, b);
                lemma_computes_extends(code, more, env, *l, sa);
                lemma_computes_extends(code, more, env, *r, sb);
                lemma_computes_extends(
                    code,
                    more,
                    env.insert(v1, CgValue::Int(a)).insert(v2, CgValue::Int(b)),
                    *body,
                    v,
                );
            }
        },
        _ => {},
    }
}

/// The value of a tree of integer literals, sums and differences in 64-bit
/// two's complement arithmetic, which wraps around as LLVM's `add` and `sub`
/// on `i64` do; `None` for a tree with anything else in it.
pub open spec fn wrapping_value(n: SpecIr) -> Option<i64>
    decreases n,
{
    match n {
        SpecIr::Int(k) => Some(k),
        SpecIr::Add(l, r) => match (wrapping_value(*l), wrapping_value(*r)) {
            (Some(a), Some(b)) => Some(wrap_i64(a + b)),
            _ => None,
        },
        SpecIr::Sub(l, r) => match (wrapping_value(*l), wrapping_value(*r)) {
            (Some(a), Some(b)) => Some(wrap_i64(a - b)),
            _ => None,
        },
        _ => None,
    }
}

/// The nesting depth of a tree of sums and differences.
pub open spec fn arith_depth(n: SpecIr) -> nat
    decreases n,
{
    match n {
        SpecIr::Add(l, r) | SpecIr::Sub(l, r) => 1 + if arith_depth(*l) < arith_depth(*r) {
            arith_depth(*r)
        } else {
            arith_depth(*l)
        },
        _ => 1,
    }
}

/// The evaluator and the generated code agree on integer arithmetic: a tree
/// of literals, sums and differences, which code generation turns into
/// `add` and `sub` instructions on `i64` mirroring the tree (see `computes`),
/// evaluates, in any environment and with as many nested steps as the tree is
/// deep, to its 64-bit wrapping value.
pub proof fn lemma_eval_wrapping(fuel: nat, env: Map<Seq<char>, SpecValue>, n: SpecIr)
    requires
        wrapping_value(n) is Some,
        arith_depth(n) <= fuel,
    ensures
        eval(fuel, env, n) == Outcome::Done(Ok(SpecValue::Int(wrapping_value(n)->Some_0))),
    decreases n,
{
    match n {
        SpecIr::Add(l, r) | SpecIr::Sub(l, r) => {
            lemma_eval_wrapping((fuel - 1) as nat, env, *l);
            lemma_eval_wrapping((fuel - 1) as nat, env, *r);
        },
        _ => {},
    }
}

/// The name of the function that the lambda numbered `k` becomes.
pub open spec fn lambda_name(k: nat) -> Seq<char> {
    "lambda_"@ + decimal(k)
}

/// The name bound by a lambda applied to a lambda, which becomes a recursive
/// function of its own; `None` for any other node.
pub open spec fn rec_binding(n: SpecIr) -> Option<Seq<char>> {
    match n {
        SpecIr::App(f, a) => match (*f, *a) {
            (SpecIr::Lam(bind, _), SpecIr::Lam(_, _)) => Some(bind),
            _ => None,
        },
        _ => None,
    }
}

/// The name of the recursive function that binds `bind`.
pub open spec fn rec_name(bind: Seq<char>) -> Seq<char> {
    "rec_"@ + bind
}

/// The decimal digits of a number hold no NUL.
proof fn lemma_decimal_no_nul(n: nat)
    ensures
        forall|i: int| 0 <= i < decimal(n).len() ==> #[trigger] decimal(n)[i] != '\0',
    decreases n,
{
    if n >= 10 {
        lemma_decimal_no_nul(n / 10);
        let d = decimal(n);
        assert forall|i: int| 0 <= i < d.len() implies #[trigger] d[i] != '\0' by {
            if i < d.len() - 1 {
                assert(d[i] == decimal(n / 10)[i]);
            }
        }
    }
}

/// The name of a lambda's function holds no NUL.
proof fn lemma_lambda_name_no_nul(k: nat)
    ensures
        !lambda_name(k).contains('\0'),
{
    reveal_strlit("lambda_");
    lemma_decimal_no_nul(k);
    let s = lambda_name(k);
    assert forall|i: int| 0 <= i < s.len() implies #[trigger] s[i] != '\0' by {
        if i >= 7 {
            assert(s[i] == decimal(k)[i - 7]);
        }
    }
}

/// The result of generating code for a node stands for what is specified: on
/// success, a value of the specified kind.
pub open spec fn cg_matches(r: Result<CgValue, String>, o: CgOutcome) -> bool {
    &&& r matches Ok(v) ==> o == CgOutcome::Kind(kind_of(v))
    &&& o is Undefined ==> r is Err
}

impl<'ctx> Compiler<'ctx> {
    /// A compiler over a new module named `module_name`, whose only global is
    /// the declaration of `malloc` (taking an `i64`, returning a pointer), and
    /// a builder that is positioned nowhere and has built nothing.
    pub fn new(context: &'ctx Context, module_name: &str) -> (r: Self)
        ensures
            r.context == context,
            r.lambda_counter == 0,
            !module_name@.contains('\0') ==> module_name_of(r.module) == module_name@,
            global_names_of(r.module) == Set::<Seq<char>>::empty().insert("malloc"@),
            function_name_of(r.malloc) == "malloc"@,
            built(r.builder) == Seq::<Instr<'ctx>>::empty(),
            insert_block_of(r.builder) is None,
    {
        let mut module = create_module(context, module_name);
        let builder = create_builder(context);
        let i64t = i64_type(context);
        let ptr_t = int_ptr_type(i8_type(context));
        let malloc_fn_type = ptr_fn_type(ptr_t, i64t);
        proof {
            reveal_strlit("malloc");
            assert("malloc"@[0] != '\0');
        }
        let malloc = add_function(&mut module, "malloc", malloc_fn_type);
        Compiler { context, builder, module, lambda_counter: 0, malloc }
    }

    /// Adds a function `name` that takes nothing and returns an `i64`, with an
    /// entry block at whose end the builder is positioned, and builds nothing.
    /// The function is named `name` where no global of the module has that
    /// name (and `name` holds no NUL).
    pub fn create_main_function(&mut self, name: &str) -> (f: FunctionValue<'ctx>)
        ensures
            final(self).context == old(self).context,
            final(self).malloc == old(self).malloc,
            final(self).lambda_counter == old(self).lambda_counter,
            module_name_of(final(self).module) == module_name_of(old(self).module),
            global_names_of(final(self).module) == global_names_of(old(self).module).insert(
                function_name_of(f),
            ),
            !global_names_of(old(self).module).contains(name@) && !name@.contains('\0')
                ==> function_name_of(f) == name@,
            built(final(self).builder) == built(old(self).builder),
            insert_block_of(final(self).builder) matches Some(b) && block_parent_of(b) == Some(f),
    {
        let i64t = i64_type(self.context);
        let fn_type = int_fn_type_no_params(i64t);
        let function = add_function(&mut self.module, name, fn_type);
        let basic_block = append_basic_block(self.context, function, "entry");
        position_at_end(&mut self.builder, basic_block);
        function
    }

    /// Generates code for `ir` in the empty environment and returns its value,
    /// as an integer, from the current function: where it succeeds, the last
    /// instruction built is a return, of a value that computes `ir` where `ir`
    /// is arithmetic. A name, which nothing binds, gives the undefined-variable
    /// error and builds nothing.
    pub fn compile_and_return(&mut self, ir: &IrNode) -> (r: Result<(), String>)
        requires
            !(cg(Map::empty(), ir@) is Stuck),
            old(self).lambda_counter + lambda_count(ir@) <= usize::MAX,
        ensures
            continues(*final(self), *old(self)),
            r is Ok ==> {
                &&& built(final(self).builder).len() > 0
                &&& built(final(self).builder).last() matches Instr::Return(v)
                &&& arithmetic(ir@) ==> computes(built(final(self).builder), Map::empty(), ir@, v)
            },
            ir is Var ==> *final(self) == *old(self),
            arithmetic(ir@) && cg(Map::empty(), ir@) is Kind && insert_block_of(old(self).builder) is Some
                ==> r is Ok,
            r is Ok ==> cg(Map::empty(), ir@) is Kind && final(self).lambda_counter
                == old(self).lambda_counter + lambda_count(ir@),
            cg(Map::empty(), ir@) is Undefined ==> r is Err,
            ir@ matches SpecIr::Var(x) ==> r matches Err(m) && m@ == undefined_message(x),
    {
        let env = CgEnv::new();
        let return_value = match self.compile_ir(ir, &env) {
            Ok(v) => v,
            Err(e) => return Err(e),
        };
        let ghost mid = built(self.builder);
        let ret_int = match self.as_int(return_value, "ret_cast") {
            Ok(v) => v,
            Err(e) => return Err(e),
        };
        let res = build_return(&mut self.builder, ret_int);
        proof {
            if res is Ok && arithmetic(ir@) {
                lemma_computes_extends(mid, built(self.builder), env.values(), ir@, ret_int);
            }
        }
        match res {
            Ok(()) => Ok(()),
            Err(e) => Err(builder_error_text(e)),
        }
    }

    /// Generates code for `ir` with names bound as in `env`: the value it computes.
    /// An integer literal is the constant of its value and a name its bound
    /// value (or the undefined-variable error), and neither changes anything.
    /// An arithmetic node is computed by the instructions built, in the block
    /// the builder is in, and succeeds there when its names are bound to
    /// integers. A lambda becomes a function `lambda_N`, with `N` the counter,
    /// and leaves the builder in the block it was in; a lambda applied to a
    /// lambda becomes a function `rec_` and the bound name; any other
    /// application ends in a call. Which other instructions are built is not
    /// stated, beyond that every one built before stays.
    pub fn compile_ir(&mut self, ir: &IrNode, env: &CgEnv<'ctx>) -> (r: Result<CgValue<'ctx>, String>)
        requires
            !(cg(env@, ir@) is Stuck),
            old(self).lambda_counter + lambda_count(ir@) <= usize::MAX,
        ensures
            continues(*final(self), *old(self)),
            cg_matches(r, cg(env@, ir@)),
            r is Ok ==> final(self).lambda_counter == old(self).lambda_counter + lambda_count(ir@),
            ir@ matches SpecIr::Int(n) ==> r matches Ok(CgValue::Int(v)) && constant_of(v) == Some(n),
            ir is Int || ir is Var ==> *final(self) == *old(self),
            arithmetic(ir@) ==> insert_block_of(final(self).builder) == insert_block_of(old(self).builder),
            arithmetic(ir@) && cg(env@, ir@) is Kind && insert_block_of(old(self).builder) is Some
                ==> r is Ok,
            ir is App && r is Ok ==> match rec_binding(ir@) {
                Some(bind) => !global_names_of(old(self).module).contains(rec_name(bind))
                    && !bind.contains('\0') ==> global_names_of(final(self).module).contains(
                    rec_name(bind),
                ),
                None => built(final(self).builder).len() > 0 && built(final(self).builder).last() is Call,
            },
            r matches Ok(CgValue::Int(v)) ==> (arithmetic(ir@) ==> computes(
                built(final(self).builder),
                env.values(),
                ir@,
                v,
            )),
            ir is Lam && r is Ok ==> insert_block_of(final(self).builder) == insert_block_of(
                old(self).builder,
            ) && (!global_names_of(old(self).module).contains(lambda_name(old(self).lambda_counter as nat))
                ==> global_names_of(final(self).module).contains(lambda_name(old(self).lambda_counter as nat))),
            ir@ matches SpecIr::Var(x) ==> if env.values().contains_key(x) {
                r == Ok::<CgValue<'ctx>, String>(env.values()[x])
            } else {
                r matches Err(m) && m@ == undefined_message(x)
            },
            r matches Ok(CgValue::Int(v)) ==> (int_fragment(env@, ir@) ==> computes(
                built(final(self).builder),
                env.values(),
                ir@,
                v,
            )),
            ir@ matches SpecIr::MkPair(pl, pr) ==> (r matches Ok(CgValue::Ptr(pp)) ==> (int_fragment(
                env@,
                *pl,
            ) && int_fragment(env@, *pr) ==> pair_stored(built(final(self).builder), env.values(), *pl, *pr, pp))),
        decreases ir, 1nat,
    {
        match ir {
            IrNode::Int(n) => Ok(CgValue::Int(const_i64(self.context, *n))),
            IrNode::Var(name) => match env.get(name) {
                Some(v) => Ok(v),
                None => {
                    let mut m = String::from_str("LLVM Error: Undefined variable '");
                    m.append(name.as_str());
                    m.append("'");
                    Err(m)
                },
            },
            IrNode::Add(..) | IrNode::Sub(..) | IrNode::Eq(..) => self.compile_arith(ir, env),
            IrNode::Lam(..) => self.compile_lambda(ir, env),
            IrNode::App(..) => self.compile_app(ir, env),
            IrNode::MkPair(..) => self.compile_pair(ir, env),
            IrNode::Left(..) | IrNode::Right(..) | IrNode::Unpack(..) => self.compile_projection(ir, env),
            IrNode::ArrayAlloc(..) => self.compile_alloc(ir, env),
            IrNode::ArraySwap(..) => self.compile_swap(ir, env),
            IrNode::Match(..) => self.compile_match(ir, env),
        }
    }

    /// Integer addition, subtraction and comparison for equality.
    fn compile_arith(&mut self, ir: &IrNode, env: &CgEnv<'ctx>) -> (r: Result<CgValue<'ctx>, String>)
        requires
            !(cg(env@, ir@) is Stuck),
            old(self).lambda_counter + lambda_count(ir@) <= usize::MAX,
            ir is Add || ir is Sub || ir is Eq,
        ensures
            continues(*final(self), *old(self)),
            cg_matches(r, cg(env@, ir@)),
            r is Ok ==> final(self).lambda_counter == old(self).lambda_counter + lambda_count(ir@),
            arithmetic(ir@) ==> insert_block_of(final(self).builder) == insert_block_of(old(self).builder),
            arithmetic(ir@) && cg(env@, ir@) is Kind && insert_block_of(old(self).builder) is Some
                ==> r is Ok,
            r matches Ok(CgValue::Int(v)) ==> (arithmetic(ir@) ==> computes(
                built(final(self).builder),
                env.values(),
                ir@,
                v,
            )),
            r matches Ok(CgValue::Int(v)) ==> (int_fragment(env@, ir@) ==> computes(
                built(final(self).builder),
                env.values(),
                ir@,
                v,
            )),
        decreases ir, 0nat,
    {
        match ir {
            IrNode::Add(left, right) | IrNode::Sub(left, right) | IrNode::Eq(left, right) => {
                let lv = match self.compile_ir(left, env) {
                    Ok(v) => v,
                    Err(e) => return Err(e),
                };
                let lhs = match lv {
                    CgValue::Int(i) => i,
                    CgValue::Ptr(_) => return Err(String::new()),
                };
                let ghost code1 = built(self.builder);
                let rv = match self.compile_ir(right, env) {
                    Ok(v) => v,
                    Err(e) => return Err(e),
                };
                let rhs = match rv {
                    CgValue::Int(i) => i,
                    CgValue::Ptr(_) => return Err(String::new()),
                };
                let ghost code2 = built(self.builder);
                let res = match ir {
                    IrNode::Add(..) => build_int_add(&mut self.builder, lhs, rhs, "addtmp"),
                    IrNode::Sub(..) => build_int_sub(&mut self.builder, lhs, rhs, "subtmp"),
                    _ => build_int_compare(&mut self.builder, Comparison::Equal, lhs, rhs, "eqtmp"),
                };
                proof {
                    if res is Ok && int_fragment(env@, ir@) {
                        let code3 = built(self.builder);
                        lemma_computes_extends(code1, code2, env.values(), (**left)@, lhs);
                        lemma_computes_extends(code2, code3, env.values(), (**left)@, lhs);
                        lemma_computes_extends(code2, code3, env.values(), (**right)@, rhs);
                        assert(code3[code2.len() as int] == code3.last());
                    }
                    if res is Ok && arithmetic(ir@) {
                        let code3 = built(self.builder);
                        lemma_computes_extends(code1, code2, env.values(), (**left)@, lhs);
                        lemma_computes_extends(code2, code3, env.values(), (**left)@, lhs);
                        lemma_computes_extends(code2, code3, env.values(), (**right)@, rhs);
                        assert(code3[code2.len() as int] == code3.last());
                    }
                }
                match res {
                    Ok(v) => Ok(CgValue::Int(v)),
                    Err(e) => Err(builder_error_text(e)),
                }
            },
            _ => Err(String::new()),
        }
    }

    /// A lambda: a new function `lambda_N` whose address is the value.
    fn compile_lambda(&mut self, ir: &IrNode, env: &CgEnv<'ctx>) -> (r: Result<CgValue<'ctx>, String>)
        requires
            !(cg(env@, ir@) is Stuck),
            old(self).lambda_counter + lambda_count(ir@) <= usize::MAX,
            ir is Lam,
        ensures
            continues(*final(self), *old(self)),
            cg_matches(r, cg(env@, ir@)),
            r is Ok ==> final(self).lambda_counter == old(self).lambda_counter + lambda_count(ir@),
            r is Ok ==> insert_block_of(final(self).builder) == insert_block_of(old(self).builder)
                && (!global_names_of(old(self).module).contains(lambda_name(old(self).lambda_counter as nat))
                ==> global_names_of(final(self).module).contains(lambda_name(old(self).lambda_counter as nat))),
        decreases ir, 0nat,
    {
        match ir {
            IrNode::Lam(param, body) => {
                let count = self.lambda_counter;
                self.lambda_counter = count + 1;
                let mut fn_name = String::from_str("lambda_");
                push_decimal(&mut fn_name, count);
                let i64t = i64_type(self.context);
                let fn_type = int_fn_type(i64t, i64t);
                proof {
                    lemma_lambda_name_no_nul(count as nat);
                }
                let function = add_function(&mut self.module, fn_name.as_str(), fn_type);
                let current = match self.current_block() {
                    Ok(v) => v,
                    Err(e) => return Err(e),
                };
                let basic_block = append_basic_block(self.context, function, "entry");
                position_at_end(&mut self.builder, basic_block);
                let arg = match int_param(function, 0) {
                    Some(a) => a,
                    None => return Err(String::from_str("LLVM Error: the function has no parameter")),
                };
                set_int_name(arg, param.as_str());
                let mut local_env = env.duplicate();
                local_env.insert(param.clone(), CgValue::Int(arg));
                let return_val = match self.compile_ir(body, &local_env) {
                    Ok(v) => v,
                    Err(e) => return Err(e),
                };
                let ret_int = match self.as_int(return_val, "ret_cast") {
                    Ok(v) => v,
                    Err(e) => return Err(e),
                };
                match build_return(&mut self.builder, ret_int) {
                    Ok(()) => {},
                    Err(e) => return Err(builder_error_text(e)),
                }
                position_at_end(&mut self.builder, current);
                Ok(CgValue::Ptr(global_pointer(function_global(function))))
            },
            _ => Err(String::new()),
        }
    }

    /// Application: a call through a function pointer, or a recursive binding.
    fn compile_app(&mut self, ir: &IrNode, env: &CgEnv<'ctx>) -> (r: Result<CgValue<'ctx>, String>)
        requires
            !(cg(env@, ir@) is Stuck),
            old(self).lambda_counter + lambda_count(ir@) <= usize::MAX,
            ir is App,
        ensures
            continues(*final(self), *old(self)),
            cg_matches(r, cg(env@, ir@)),
            r is Ok ==> final(self).lambda_counter == old(self).lambda_counter + lambda_count(ir@),
            r is Ok ==> match rec_binding(ir@) {
                Some(bind) => !global_names_of(old(self).module).contains(rec_name(bind))
                    && !bind.contains('\0') ==> global_names_of(final(self).module).contains(
                    rec_name(bind),
                ),
                None => built(final(self).builder).len() > 0 && built(final(self).builder).last() is Call,
            },
        decreases ir, 0nat,
    {
        match ir {
            IrNode::App(func, arg) => {
                // A lambda applied to a lambda binds a function that can call itself.
                if let IrNode::Lam(bind_name, in_body) = &**func {
                    if let IrNode::Lam(fn_param, fn_body) = &**arg {
                        let i64t = i64_type(self.context);
                        let fn_type = int_fn_type(i64t, i64t);
                        let mut rec_fn_name = String::from_str("rec_");
                        rec_fn_name.append(bind_name.as_str());
                        proof {
                            reveal_strlit("rec_");
                            if !bind_name@.contains('\0') {
                                let n = rec_fn_name@;
                                assert forall|i: int| 0 <= i < n.len() implies #[trigger] n[i] != '\0' by {
                                    if i >= 4 {
                                        assert(n[i] == bind_name@[i - 4]);
                                    }
                                }
                            }
                        }
                        let fn_val = add_function(&mut self.module, rec_fn_name.as_str(), fn_type);
                        let mut rec_env = env.duplicate();
                        rec_env.insert(bind_name.clone(), CgValue::Ptr(global_pointer(function_global(fn_val))));
                        let current = match self.current_block() {
                            Ok(v) => v,
                            Err(e) => return Err(e),
                        };
                        let basic_block = append_basic_block(self.context, fn_val, "entry");
                        position_at_end(&mut self.builder, basic_block);
                        let arg_val = match int_param(fn_val, 0) {
                            Some(a) => a,
                            None => return Err(String::from_str("LLVM Error: the function has no parameter")),
                        };
                        set_int_name(arg_val, fn_param.as_str());
                        let mut fn_env = rec_env.duplicate();
                        fn_env.insert(fn_param.clone(), CgValue::Int(arg_val));
                        let ret_val = match self.compile_ir(fn_body, &fn_env) {
                            Ok(v) => v,
                            Err(e) => return Err(e),
                        };
                        let ret_int = match self.as_int(ret_val, "ret_cast") {
                            Ok(v) => v,
                            Err(e) => return Err(e),
                        };
                        match build_return(&mut self.builder, ret_int) {
                            Ok(()) => {},
                            Err(e) => return Err(builder_error_text(e)),
                        }
                        position_at_end(&mut self.builder, current);
                        return self.compile_ir(in_body, &rec_env);
                    }
                }
                let compiled_func = match self.compile_ir(func, env) {
                    Ok(v) => v,
                    Err(e) => return Err(e),
                };
                let compiled_arg = match self.compile_ir(arg, env) {
                    Ok(v) => v,
                    Err(e) => return Err(e),
                };
                let i64t = i64_type(self.context);
                let fn_ptr_t = fn_ptr_type(int_fn_type(i64t, i64t));
                let func_ptr = match self.as_ptr(compiled_func, fn_ptr_t, "fn_cast") {
                    Ok(v) => v,
                    Err(e) => return Err(e),
                };
                let arg_int = match self.as_int(compiled_arg, "arg_cast") {
                    Ok(v) => v,
                    Err(e) => return Err(e),
                };
                let callee = match callable_pointer(func_ptr) {
                    Some(c) => c,
                    None => return Err(String::from_str("LLVM Error: the callee is not a function pointer")),
                };
                let call_site = match build_call(&mut self.builder, callee, arg_int, "calltmp") {
                    Ok(v) => v,
                    Err(e) => return Err(builder_error_text(e)),
                };
                // A tail call.
                set_tail_call(call_site, true);
                match call_result(call_site) {
                    Some(CgValue::Int(v)) => Ok(CgValue::Int(v)),
                    _ => Err(String::from_str("LLVM Error: the call did not return an integer")),
                }
            },
            _ => Err(String::new()),
        }
    }

    /// A pair: a `{ i64, i64 }` allocated with `malloc`.
    fn compile_pair(&mut self, ir: &IrNode, env: &CgEnv<'ctx>) -> (r: Result<CgValue<'ctx>, String>)
        requires
            !(cg(env@, ir@) is Stuck),
            old(self).lambda_counter + lambda_count(ir@) <= usize::MAX,
            ir is MkPair,
        ensures
            continues(*final(self), *old(self)),
            cg_matches(r, cg(env@, ir@)),
            r is Ok ==> final(self).lambda_counter == old(self).lambda_counter + lambda_count(ir@),
            ir@ matches SpecIr::MkPair(pl, pr) ==> (r matches Ok(CgValue::Ptr(pp)) ==> (int_fragment(
                env@,
                *pl,
            ) && int_fragment(env@, *pr) ==> pair_stored(built(final(self).builder), env.values(), *pl, *pr, pp))),
        decreases ir, 0nat,
    {
        match ir {
            IrNode::MkPair(left, right) => {
                let lhs = match self.compile_ir(left, env) {
                    Ok(v) => v,
                    Err(e) => return Err(e),
                };
                let ghost code_l = built(self.builder);
                let rhs = match self.compile_ir(right, env) {
                    Ok(v) => v,
                    Err(e) => return Err(e),
                };
                let ghost code_r = built(self.builder);
                let lhs_int = match self.as_int(lhs, "l_cast") {
                    Ok(v) => v,
                    Err(e) => return Err(e),
                };
                let rhs_int = match self.as_int(rhs, "r_cast") {
                    Ok(v) => v,
                    Err(e) => return Err(e),
                };
                let struct_t = self.pair_type();
                let size = match struct_size(struct_t) {
                    Some(s) => s,
                    None => return Err(String::from_str("LLVM Error: the pair type has no size")),
                };
                let pair_ptr = match self.allocate(size, struct_ptr_type(struct_t), "malloc_pair") {
                    Ok(v) => v,
                    Err(e) => return Err(e),
                };
                let ghost code_a = built(self.builder);
                let ptr_0 = match build_struct_gep(&mut self.builder, pair_ptr, 0, "p0") {
                    Ok(v) => v,
                    Err(e) => return Err(builder_error_text(e)),
                };
                match build_store(&mut self.builder, ptr_0, CgValue::Int(lhs_int)) {
                    Ok(()) => {},
                    Err(e) => return Err(builder_error_text(e)),
                }
                let ptr_1 = match build_struct_gep(&mut self.builder, pair_ptr, 1, "p1") {
                    Ok(v) => v,
                    Err(e) => return Err(builder_error_text(e)),
                };
                match build_store(&mut self.builder, ptr_1, CgValue::Int(rhs_int)) {
                    Ok(()) => {},
                    Err(e) => return Err(builder_error_text(e)),
                }
                proof {
                    let code = built(self.builder);
                    let k = code_a.len() as int;
                    assert(code.len() == k + 4);
                    assert(code[k] == Instr::StructGep(pair_ptr, 0, ptr_0));
                    assert(code[k + 1] == Instr::Store(ptr_0, CgValue::Int(lhs_int)));
                    assert(code[k + 2] == Instr::StructGep(pair_ptr, 1, ptr_1));
                    assert(code[k + 3] == Instr::Store(ptr_1, CgValue::Int(rhs_int)));
                    assert(stores_field(code, pair_ptr, 0, lhs_int));
                    assert(stores_field(code, pair_ptr, 1, rhs_int));
                    if int_fragment(env@, (**left)@) && int_fragment(env@, (**right)@) {
                        lemma_int_fragment_kind(env@, (**left)@);
                        lemma_int_fragment_kind(env@, (**right)@);
                        lemma_computes_extends(code_l, code, env.values(), (**left)@, lhs_int);
                        lemma_computes_extends(code_r, code, env.values(), (**right)@, rhs_int);
                    }
                }
                Ok(CgValue::Ptr(pair_ptr))
            },
            _ => Err(String::new()),
        }
    }

    /// The fields of a pair.
    fn compile_projection(&mut self, ir: &IrNode, env: &CgEnv<'ctx>) -> (r: Result<CgValue<'ctx>, String>)
        requires
            !(cg(env@, ir@) is Stuck),
            old(self).lambda_counter + lambda_count(ir@) <= usize::MAX,
            ir is Left || ir is Right || ir is Unpack,
        ensures
            continues(*final(self), *old(self)),
            cg_matches(r, cg(env@, ir@)),
            r is Ok ==> final(self).lambda_counter == old(self).lambda_counter + lambda_count(ir@),
            r matches Ok(CgValue::Int(v)) ==> (int_fragment(env@, ir@) ==> computes(
                built(final(self).builder),
                env.values(),
                ir@,
                v,
            )),
        decreases ir, 0nat,
    {
        let struct_ptr_t = struct_ptr_type(self.pair_type());
        match ir {
            IrNode::Left(pair) | IrNode::Right(pair) => {
                let c_pair = match self.compile_ir(pair, env) {
                    Ok(v) => v,
                    Err(e) => return Err(e),
                };
                let pair_ptr = match self.as_ptr(c_pair, struct_ptr_t, "pcast") {
                    Ok(v) => v,
                    Err(e) => return Err(e),
                };
                let index: u32 = if let IrNode::Left(..) = ir {
                    0
                } else {
                    1
                };
                let field = match build_struct_gep(&mut self.builder, pair_ptr, index, "gep") {
                    Ok(v) => v,
                    Err(e) => return Err(builder_error_text(e)),
                };
                let loaded = match build_load(&mut self.builder, field, "val") {
                    Ok(v) => v,
                    Err(e) => return Err(builder_error_text(e)),
                };
                match loaded {
                    Some(CgValue::Int(v)) => Ok(CgValue::Int(v)),
                    _ => Err(String::from_str("LLVM Error: a pair field is not an integer")),
                }
            },
            IrNode::Unpack(v1, v2, pair, body) => {
                let c_pair = match self.compile_ir(pair, env) {
                    Ok(v) => v,
                    Err(e) => return Err(e),
                };
                let ghost code_p = built(self.builder);
                let pair_ptr = match self.as_ptr(c_pair, struct_ptr_t, "pcast") {
                    Ok(v) => v,
                    Err(e) => return Err(e),
                };
                let p0 = match build_struct_gep(&mut self.builder, pair_ptr, 0, "u0") {
                    Ok(v) => v,
                    Err(e) => return Err(builder_error_text(e)),
                };
                let p1 = match build_struct_gep(&mut self.builder, pair_ptr, 1, "u1") {
                    Ok(v) => v,
                    Err(e) => return Err(builder_error_text(e)),
                };
                let mut local_env = env.duplicate();
                let first = match build_load(&mut self.builder, p0, "v1") {
                    Ok(v) => v,
                    Err(e) => return Err(builder_error_text(e)),
                };
                match first {
                    Some(CgValue::Int(v)) => local_env.insert(v1.clone(), CgValue::Int(v)),
                    _ => return Err(String::from_str("LLVM Error: a pair field is not an integer")),
                }
                let second = match build_load(&mut self.builder, p1, "v2") {
                    Ok(v) => v,
                    Err(e) => return Err(builder_error_text(e)),
                };
                match second {
                    Some(CgValue::Int(v)) => local_env.insert(v2.clone(), CgValue::Int(v)),
                    _ => return Err(String::from_str("LLVM Error: a pair field is not an integer")),
                }
                let ghost code_b = built(self.builder);
                let res = self.compile_ir(body, &local_env);
                let ghost gres = res;
                proof {
                    if let (SpecIr::MkPair(l, r), Ok(CgValue::Int(v)), Some(CgValue::Int(a)), Some(CgValue::Int(b)))
                        = ((**pair)@, gres, first, second) {
                        if int_fragment(env@, ir@) {
                            let code = built(self.builder);
                            let k = code_p.len() as int;
                            let pp = c_pair->Ptr_0;
                            assert(code_b.len() == k + 5);
                            assert(code_b[k] == Instr::PointerCast(pp, pair_ptr));
                            assert(code_b[k + 1] == Instr::StructGep(pair_ptr, 0, p0));
                            assert(code_b[k + 2] == Instr::StructGep(pair_ptr, 1, p1));
                            assert(code_b[k + 3] == Instr::Load(p0, CgValue::Int(a)));
                            assert(code_b[k + 4] == Instr::Load(p1, CgValue::Int(b)));
                            assert(casts_to(code_b, pp, pair_ptr));
                            assert(loads_field(code_b, pair_ptr, 0, a));
                            assert(loads_field(code_b, pair_ptr, 1, b));
                            lemma_fields_extend(code_b, code, pp, pair_ptr, 0, a);
                            lemma_fields_extend(code_b, code, pp, pair_ptr, 1, b);
                            let (sa, sb) = choose|sa: IntValue<'ctx>, sb: IntValue<'ctx>|
                                #![trigger stores_field(code_p, pp, 0, sa), stores_field(code_p, pp, 1, sb)]
                                stores_field(code_p, pp, 0, sa) && stores_field(code_p, pp, 1, sb)
                                    && computes(code_p, env.values(), *l, sa) && computes(
                                    code_p,
                                    env.values(),
                                    *r,
                                    sb,
                                );
                            assert(extends(code, code_p));
                            lemma_fields_extend(code_p, code, pp, pair_ptr, 0, sa);
                            lemma_fields_extend(code_p, code, pp, pair_ptr, 1, sb);
                            lemma_computes_extends(code_p, code, env.values(), *l, sa);
                            lemma_computes_extends(code_p, code, env.values(), *r, sb);
                            assert(local_env.values() == env.values().insert(v1@, CgValue::Int(a)).insert(
                                v2@,
                                CgValue::Int(b),
                            ));
                            assert(computes(
                                code,
                                env.values().insert(v1@, CgValue::Int(a)).insert(v2@, CgValue::Int(b)),
                                (**body)@,
                                v,
                            ));
                            assert(stores_field(code, pp, 0, sa) && stores_field(code, pp, 1, sb)
                                && casts_to(code, pp, pair_ptr) && loads_field(code, pair_ptr, 0, a)
                                && loads_field(code, pair_ptr, 1, b));
                        }
                    }
                }
                res
            },
            _ => Err(String::new()),
        }
    }

    /// An array: `malloc` and a loop that stores the initial value in each element.
    fn compile_alloc(&mut self, ir: &IrNode, env: &CgEnv<'ctx>) -> (r: Result<CgValue<'ctx>, String>)
        requires
            !(cg(env@, ir@) is Stuck),
            old(self).lambda_counter + lambda_count(ir@) <= usize::MAX,
            ir is ArrayAlloc,
        ensures
            continues(*final(self), *old(self)),
            cg_matches(r, cg(env@, ir@)),
            r is Ok ==> final(self).lambda_counter == old(self).lambda_counter + lambda_count(ir@),
        decreases ir, 0nat,
    {
        match ir {
            IrNode::ArrayAlloc(sz, init) => {
                let sv = match self.compile_ir(sz, env) {
                    Ok(v) => v,
                    Err(e) => return Err(e),
                };
                let size_val = match sv {
                    CgValue::Int(i) => i,
                    CgValue::Ptr(_) => return Err(String::new()),
                };
                let init_val = match self.compile_ir(init, env) {
                    Ok(v) => v,
                    Err(e) => return Err(e),
                };
                let element_type = type_of(init_val);
                let elem_size = match basic_type_size(element_type) {
                    Some(s) => s,
                    None => return Err(String::from_str("LLVM Error: the element type has no size")),
                };
                let elem_ptr_t = basic_ptr_type(element_type);
                let total_size = match build_int_mul(&mut self.builder, size_val, elem_size, "bytes") {
                    Ok(v) => v,
                    Err(e) => return Err(builder_error_text(e)),
                };
                let array_ptr = match self.allocate(total_size, elem_ptr_t, "m_arr") {
                    Ok(v) => v,
                    Err(e) => return Err(e),
                };
                let cur_fn = match self.current_function() {
                    Ok(v) => v,
                    Err(e) => return Err(e),
                };
                let cond_b = append_basic_block(self.context, cur_fn, "cond");
                let body_b = append_basic_block(self.context, cur_fn, "body");
                let end_b = append_basic_block(self.context, cur_fn, "end");
                let i64t = i64_type(self.context);
                let c_ptr = match build_alloca(&mut self.builder, i64t, "i") {
                    Ok(v) => v,
                    Err(e) => return Err(builder_error_text(e)),
                };
                match build_store(&mut self.builder, c_ptr, CgValue::Int(const_i64(self.context, 0))) {
                    Ok(()) => {},
                    Err(e) => return Err(builder_error_text(e)),
                }
                match build_unconditional_branch(&mut self.builder, cond_b) {
                    Ok(()) => {},
                    Err(e) => return Err(builder_error_text(e)),
                }
                position_at_end(&mut self.builder, cond_b);
                let loaded = match build_load(&mut self.builder, c_ptr, "i_ld") {
                    Ok(v) => v,
                    Err(e) => return Err(builder_error_text(e)),
                };
                let i = match loaded {
                    Some(CgValue::Int(v)) => v,
                    _ => return Err(String::from_str("LLVM Error: the counter is not an integer")),
                };
                let cond = match build_int_compare(&mut self.builder, Comparison::UnsignedLess, i, size_val, "chk") {
                    Ok(v) => v,
                    Err(e) => return Err(builder_error_text(e)),
                };
                match build_conditional_branch(&mut self.builder, cond, body_b, end_b) {
                    Ok(()) => {},
                    Err(e) => return Err(builder_error_text(e)),
                }
                position_at_end(&mut self.builder, body_b);
                let base = match build_ptr_to_int(&mut self.builder, array_ptr, i64t, "base") {
                    Ok(v) => v,
                    Err(e) => return Err(builder_error_text(e)),
                };
                let offset = match build_int_mul(&mut self.builder, i, elem_size, "offset") {
                    Ok(v) => v,
                    Err(e) => return Err(builder_error_text(e)),
                };
                let addr = match build_int_add(&mut self.builder, base, offset, "addr") {
                    Ok(v) => v,
                    Err(e) => return Err(builder_error_text(e)),
                };
                let slot = match build_int_to_ptr(&mut self.builder, addr, elem_ptr_t, "idx") {
                    Ok(v) => v,
                    Err(e) => return Err(builder_error_text(e)),
                };
                match build_store(&mut self.builder, slot, init_val) {
                    Ok(()) => {},
                    Err(e) => return Err(builder_error_text(e)),
                }
                let next = match build_int_add(&mut self.builder, i, const_i64(self.context, 1), "next") {
                    Ok(v) => v,
                    Err(e) => return Err(builder_error_text(e)),
                };
                match build_store(&mut self.builder, c_ptr, CgValue::Int(next)) {
                    Ok(()) => {},
                    Err(e) => return Err(builder_error_text(e)),
                }
                match build_unconditional_branch(&mut self.builder, cond_b) {
                    Ok(()) => {},
                    Err(e) => return Err(builder_error_text(e)),
                }
                position_at_end(&mut self.builder, end_b);
                Ok(CgValue::Ptr(array_ptr))
            },
            _ => Err(String::new()),
        }
    }

    /// Replacement of an array element: a `malloc`ed struct of the old element and the array.
    fn compile_swap(&mut self, ir: &IrNode, env: &CgEnv<'ctx>) -> (r: Result<CgValue<'ctx>, String>)
        requires
            !(cg(env@, ir@) is Stuck),
            old(self).lambda_counter + lambda_count(ir@) <= usize::MAX,
            ir is ArraySwap,
        ensures
            continues(*final(self), *old(self)),
            cg_matches(r, cg(env@, ir@)),
            r is Ok ==> final(self).lambda_counter == old(self).lambda_counter + lambda_count(ir@),
        decreases ir, 0nat,
    {
        match ir {
            IrNode::ArraySwap(arr, idx, val) => {
                let c_arr = match self.compile_ir(arr, env) {
                    Ok(v) => v,
                    Err(e) => return Err(e),
                };
                let iv = match self.compile_ir(idx, env) {
                    Ok(v) => v,
                    Err(e) => return Err(e),
                };
                let i = match iv {
                    CgValue::Int(i) => i,
                    CgValue::Ptr(_) => return Err(String::new()),
                };
                let v = match self.compile_ir(val, env) {
                    Ok(v) => v,
                    Err(e) => return Err(e),
                };
                let el_t = type_of(v);
                let el_ptr_t = basic_ptr_type(el_t);
                let ptr = match self.as_ptr(c_arr, el_ptr_t, "acast") {
                    Ok(v) => v,
                    Err(e) => return Err(e),
                };
                let elem_size = match basic_type_size(el_t) {
                    Some(s) => s,
                    None => return Err(String::from_str("LLVM Error: the element type has no size")),
                };
                let i64t = i64_type(self.context);
                let base = match build_ptr_to_int(&mut self.builder, ptr, i64t, "base") {
                    Ok(v) => v,
                    Err(e) => return Err(builder_error_text(e)),
                };
                let offset = match build_int_mul(&mut self.builder, i, elem_size, "offset") {
                    Ok(v) => v,
                    Err(e) => return Err(builder_error_text(e)),
                };
                let addr = match build_int_add(&mut self.builder, base, offset, "addr") {
                    Ok(v) => v,
                    Err(e) => return Err(builder_error_text(e)),
                };
                let slot = match build_int_to_ptr(&mut self.builder, addr, el_ptr_t, "s_gep") {
                    Ok(v) => v,
                    Err(e) => return Err(builder_error_text(e)),
                };
                let loaded = match build_load(&mut self.builder, slot, "old") {
                    Ok(v) => v,
                    Err(e) => return Err(builder_error_text(e)),
                };
                let old_val = match loaded {
                    Some(o) => o,
                    None => return Err(String::from_str("LLVM Error: the element is neither an integer nor a pointer")),
                };
                match build_store(&mut self.builder, slot, v) {
                    Ok(()) => {},
                    Err(e) => return Err(builder_error_text(e)),
                }
                let st = struct_type(self.context, el_t, ptr_basic_type(el_ptr_t));
                let size = match struct_size(st) {
                    Some(s) => s,
                    None => return Err(String::from_str("LLVM Error: the result type has no size")),
                };
                let res = match self.allocate(size, struct_ptr_type(st), "res") {
                    Ok(v) => v,
                    Err(e) => return Err(e),
                };
                let r0 = match build_struct_gep(&mut self.builder, res, 0, "r0") {
                    Ok(v) => v,
                    Err(e) => return Err(builder_error_text(e)),
                };
                let r1 = match build_struct_gep(&mut self.builder, res, 1, "r1") {
                    Ok(v) => v,
                    Err(e) => return Err(builder_error_text(e)),
                };
                match build_store(&mut self.builder, r0, old_val) {
                    Ok(()) => {},
                    Err(e) => return Err(builder_error_text(e)),
                }
                match build_store(&mut self.builder, r1, CgValue::Ptr(ptr)) {
                    Ok(()) => {},
                    Err(e) => return Err(builder_error_text(e)),
                }
                Ok(CgValue::Ptr(res))
            },
            _ => Err(String::new()),
        }
    }

    /// Branching on an integer, joined by a phi.
    fn compile_match(&mut self, ir: &IrNode, env: &CgEnv<'ctx>) -> (r: Result<CgValue<'ctx>, String>)
        requires
            !(cg(env@, ir@) is Stuck),
            old(self).lambda_counter + lambda_count(ir@) <= usize::MAX,
            ir is Match,
        ensures
            continues(*final(self), *old(self)),
            cg_matches(r, cg(env@, ir@)),
            r is Ok ==> final(self).lambda_counter == old(self).lambda_counter + lambda_count(ir@),
        decreases ir, 0nat,
    {
        match ir {
            IrNode::Match(e, l_var, l_body, r_var, r_body) => {
                let mv = match self.compile_ir(e, env) {
                    Ok(v) => v,
                    Err(e) => return Err(e),
                };
                let match_val = match mv {
                    CgValue::Int(i) => i,
                    CgValue::Ptr(_) => return Err(String::new()),
                };
                let parent_fn = match self.current_function() {
                    Ok(v) => v,
                    Err(e) => return Err(e),
                };
                let left_bb = append_basic_block(self.context, parent_fn, "left_branch");
                let right_bb = append_basic_block(self.context, parent_fn, "right_branch");
                let merge_bb = append_basic_block(self.context, parent_fn, "match_cont");
                match build_conditional_branch(&mut self.builder, match_val, left_bb, right_bb) {
                    Ok(()) => {},
                    Err(e) => return Err(builder_error_text(e)),
                }
                position_at_end(&mut self.builder, left_bb);
                let mut left_env = env.duplicate();
                left_env.insert(l_var.clone(), CgValue::Int(match_val));
                let left_res = match self.compile_ir(l_body, &left_env) {
                    Ok(v) => v,
                    Err(e) => return Err(e),
                };
                match build_unconditional_branch(&mut self.builder, merge_bb) {
                    Ok(()) => {},
                    Err(e) => return Err(builder_error_text(e)),
                }
                let new_left_bb = match self.current_block() {
                    Ok(v) => v,
                    Err(e) => return Err(e),
                };
                position_at_end(&mut self.builder, right_bb);
                let mut right_env = env.duplicate();
                right_env.insert(r_var.clone(), CgValue::Int(match_val));
                let right_res = match self.compile_ir(r_body, &right_env) {
                    Ok(v) => v,
                    Err(e) => return Err(e),
                };
                match build_unconditional_branch(&mut self.builder, merge_bb) {
                    Ok(()) => {},
                    Err(e) => return Err(builder_error_text(e)),
                }
                let new_right_bb = match self.current_block() {
                    Ok(v) => v,
                    Err(e) => return Err(e),
                };
                position_at_end(&mut self.builder, merge_bb);
                let phi = match build_phi(&mut self.builder, type_of(left_res), "matchtmp") {
                    Ok(v) => v,
                    Err(e) => return Err(builder_error_text(e)),
                };
                add_incoming(phi, left_res, new_left_bb, right_res, new_right_bb);
                match (phi_value(phi), left_res) {
                    (Some(CgValue::Int(p)), CgValue::Int(_)) => Ok(CgValue::Int(p)),
                    (Some(CgValue::Ptr(p)), CgValue::Ptr(_)) => Ok(CgValue::Ptr(p)),
                    _ => Err(String::from_str("LLVM Error: the phi is not of its branches' kind")),
                }
            },
            _ => Err(String::new()),
        }
    }

    /// The value as an integer: a pointer is converted to an `i64`.
    fn as_int(&mut self, v: CgValue<'ctx>, name: &str) -> (r: Result<IntValue<'ctx>, String>)
        ensures
            continues(*final(self), *old(self)),
            final(self).lambda_counter == old(self).lambda_counter,
            insert_block_of(final(self).builder) == insert_block_of(old(self).builder),
            v matches CgValue::Int(i) ==> r == Ok::<IntValue<'ctx>, String>(i) && *final(self)
                == *old(self),
    {
        match v {
            CgValue::Int(i) => Ok(i),
            CgValue::Ptr(p) => match build_ptr_to_int(&mut self.builder, p, i64_type(self.context), name) {
                Ok(i) => Ok(i),
                Err(e) => Err(builder_error_text(e)),
            },
        }
    }

    /// The value as a pointer of type `t`: an integer is converted, a pointer is cast.
    fn as_ptr(&mut self, v: CgValue<'ctx>, t: PointerType<'ctx>, name: &str) -> (r: Result<
        PointerValue<'ctx>,
        String,
    >)
        ensures
            continues(*final(self), *old(self)),
            final(self).lambda_counter == old(self).lambda_counter,
            insert_block_of(final(self).builder) == insert_block_of(old(self).builder),
            v matches CgValue::Ptr(p) ==> (r matches Ok(q) ==> built(final(self).builder) == built(
                old(self).builder,
            ).push(Instr::PointerCast(p, q))),
    {
        let res = match v {
            CgValue::Int(i) => build_int_to_ptr(&mut self.builder, i, t, name),
            CgValue::Ptr(p) => build_pointer_cast(&mut self.builder, p, t, name),
        };
        match res {
            Ok(p) => Ok(p),
            Err(e) => Err(builder_error_text(e)),
        }
    }

    /// The type `{ i64, i64 }` of a pair.
    fn pair_type(&self) -> StructType<'ctx> {
        let i64t = int_basic_type(i64_type(self.context));
        struct_type(self.context, i64t, i64t)
    }

    /// A call of `malloc` for `size` bytes, cast to a pointer of type `t`.
    fn allocate(&mut self, size: IntValue<'ctx>, t: PointerType<'ctx>, name: &str) -> (r: Result<
        PointerValue<'ctx>,
        String,
    >)
        ensures
            continues(*final(self), *old(self)),
            final(self).lambda_counter == old(self).lambda_counter,
            insert_block_of(final(self).builder) == insert_block_of(old(self).builder),
    {
        let call = match build_call(&mut self.builder, callable_function(self.malloc), size, name) {
            Ok(c) => c,
            Err(e) => return Err(builder_error_text(e)),
        };
        let raw = match call_result(call) {
            Some(CgValue::Ptr(p)) => p,
            _ => return Err(String::from_str("LLVM Error: malloc did not return a pointer")),
        };
        match build_pointer_cast(&mut self.builder, raw, t, "alloc_cast") {
            Ok(p) => Ok(p),
            Err(e) => Err(builder_error_text(e)),
        }
    }

    /// The block the builder is positioned in.
    fn current_block(&self) -> (r: Result<BasicBlock<'ctx>, String>)
        ensures
            r matches Ok(b) ==> insert_block_of(self.builder) == Some(b),
    {
        match get_insert_block(&self.builder) {
            Some(b) => Ok(b),
            None => Err(String::from_str("No current block")),
        }
    }

    /// The function whose block the builder is positioned in.
    fn current_function(&self) -> (r: Result<FunctionValue<'ctx>, String>) {
        let block = match self.current_block() {
            Ok(b) => b,
            Err(e) => return Err(e),
        };
        match block_parent(block) {
            Some(f) => Ok(f),
            None => Err(String::from_str("LLVM Error: the current block has no function")),
        }
    }
}

} // verus!
