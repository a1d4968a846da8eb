//! The untyped intermediate representation, and the erasure of types that produces it.
use vstd::prelude::*;
use crate::ast::{Expr, SpecExpr};

verus! {

/// The untyped intermediate representation (IR).
/// Type annotations are gone: what remains is what runs.
#[derive(Debug)]
pub enum IrNode {
    Int(i64),
    Var(String),
    Lam(String, Box<IrNode>),
    App(Box<IrNode>, Box<IrNode>),
    Add(Box<IrNode>, Box<IrNode>),
    Sub(Box<IrNode>, Box<IrNode>),
    Eq(Box<IrNode>, Box<IrNode>),
    MkPair(Box<IrNode>, Box<IrNode>),
    Unpack(String, String, Box<IrNode>, Box<IrNode>),
    Left(Box<IrNode>),
    Right(Box<IrNode>),
    Match(Box<IrNode>, String, Box<IrNode>, String, Box<IrNode>),
    ArrayAlloc(Box<IrNode>, Box<IrNode>),
    ArraySwap(Box<IrNode>, Box<IrNode>, Box<IrNode>),
}

/// The mathematical model of an IR node: names are character sequences.
pub enum SpecIr {
    Int(i64),
    Var(Seq<char>),
    Lam(Seq<char>, Box<SpecIr>),
    App(Box<SpecIr>, Box<SpecIr>),
    Add(Box<SpecIr>, Box<SpecIr>),
    Sub(Box<SpecIr>, Box<SpecIr>),
    Eq(Box<SpecIr>, Box<SpecIr>),
    MkPair(Box<SpecIr>, Box<SpecIr>),
    Unpack(Seq<char>, Seq<char>, Box<SpecIr>, Box<SpecIr>),
    Left(Box<SpecIr>),
    Right(Box<SpecIr>),
    Match(Box<SpecIr>, Seq<char>, Box<SpecIr>, Seq<char>, Box<SpecIr>),
    ArrayAlloc(Box<SpecIr>, Box<SpecIr>),
    ArraySwap(Box<SpecIr>, Box<SpecIr>, Box<SpecIr>),
}

/// The model of an IR node.
pub open spec fn ir_view(n: IrNode) -> SpecIr
    decreases n,
{
    match n {
        IrNode::Int(k) => SpecIr::Int(k),
        IrNode::Var(x) => SpecIr::Var(x@),
        IrNode::Lam(x, b) => SpecIr::Lam(x@, Box::new(ir_view(*b))),
        IrNode::App(f, a) => SpecIr::App(Box::new(ir_view(*f)), Box::new(ir_view(*a))),
        IrNode::Add(l, r) => SpecIr::Add(Box::new(ir_view(*l)), Box::new(ir_view(*r))),
        IrNode::Sub(l, r) => SpecIr::Sub(Box::new(ir_view(*l)), Box::new(ir_view(*r))),
        IrNode::Eq(l, r) => SpecIr::Eq(Box::new(ir_view(*l)), Box::new(ir_view(*r))),
        IrNode::MkPair(l, r) => SpecIr::MkPair(Box::new(ir_view(*l)), Box::new(ir_view(*r))),
        IrNode::Unpack(v1, v2, p, b) => SpecIr::Unpack(
            v1@,
            v2@,
            Box::new(ir_view(*p)),
            Box::new(ir_view(*b)),
        ),
        IrNode::Left(p) => SpecIr::Left(Box::new(ir_view(*p))),
        IrNode::Right(p) => SpecIr::Right(Box::new(ir_view(*p))),
        IrNode::Match(e, lv, lb, rv, rb) => SpecIr::Match(
            Box::new(ir_view(*e)),
            lv@,
            Box::new(ir_view(*lb)),
            rv@,
            Box::new(ir_view(*rb)),
        ),
        IrNode::ArrayAlloc(s, i) => SpecIr::ArrayAlloc(Box::new(ir_view(*s)), Box::new(ir_view(*i))),
        IrNode::ArraySwap(a, i, v) => SpecIr::ArraySwap(
            Box::new(ir_view(*a)),
            Box::new(ir_view(*i)),
            Box::new(ir_view(*v)),
        ),
    }
}

impl View for IrNode {
    type V = SpecIr;

    open spec fn view(&self) -> SpecIr {
        ir_view(*self)
    }
}

impl IrNode {
    /// A copy of the node, equal to it.
    pub fn duplicate(&self) -> (r: IrNode)
        ensures
            r == *self,
        decreases self,
    {
        match self {
            IrNode::Int(k) => IrNode::Int(*k),
            IrNode::Var(x) => IrNode::Var(x.clone()),
            IrNode::Lam(x, b) => IrNode::Lam(x.clone(), Box::new(b.duplicate())),
            IrNode::App(f, a) => IrNode::App(Box::new(f.duplicate()), Box::new(a.duplicate())),
            IrNode::Add(l, r) => IrNode::Add(Box::new(l.duplicate()), Box::new(r.duplicate())),
            IrNode::Sub(l, r) => IrNode::Sub(Box::new(l.duplicate()), Box::new(r.duplicate())),
            IrNode::Eq(l, r) => IrNode::Eq(Box::new(l.duplicate()), Box::new(r.duplicate())),
            IrNode::MkPair(l, r) => IrNode::MkPair(Box::new(l.duplicate()), Box::new(r.duplicate())),
            IrNode::Unpack(v1, v2, p, b) => IrNode::Unpack(
                v1.clone(),
                v2.clone(),
                Box::new(p.duplicate()),
                Box::new(b.duplicate()),
            ),
            IrNode::Left(p) => IrNode::Left(Box::new(p.duplicate())),
            IrNode::Right(p) => IrNode::Right(Box::new(p.duplicate())),
            IrNode::Match(e, lv, lb, rv, rb) => IrNode::Match(
                Box::new(e.duplicate()),
                lv.clone(),
                Box::new(lb.duplicate()),
                rv.clone(),
                Box::new(rb.duplicate()),
            ),
            IrNode::ArrayAlloc(s, i) => IrNode::ArrayAlloc(
                Box::new(s.duplicate()),
                Box::new(i.duplicate()),
            ),
            IrNode::ArraySwap(a, i, v) => IrNode::ArraySwap(
                Box::new(a.duplicate()),
                Box::new(i.duplicate()),
                Box::new(v.duplicate()),
            ),
        }
    }
}

impl Clone for IrNode {
    fn clone(&self) -> (r: Self)
        ensures
            r == *self,
    {
        self.duplicate()
    }
}

/// What erasure makes of an expression: the same tree with every type annotation
/// dropped. A split unpacks a pair of two copies of the value; a merge unpacks
/// the pair of the two halves into one name, the left half last, so that the
/// name is bound to it.
pub open spec fn erase(e: SpecExpr) -> SpecIr
    decreases e,
{
    match e {
        SpecExpr::IntLiteral(n) => SpecIr::Int(n),
        SpecExpr::Variable(x) => SpecIr::Var(x),
        SpecExpr::Lambda { param, body, .. } => SpecIr::Lam(param, Box::new(erase(*body))),
        SpecExpr::App { func, arg } => SpecIr::App(Box::new(erase(*func)), Box::new(erase(*arg))),
        SpecExpr::Add(l, r) => SpecIr::Add(Box::new(erase(*l)), Box::new(erase(*r))),
        SpecExpr::Sub(l, r) => SpecIr::Sub(Box::new(erase(*l)), Box::new(erase(*r))),
        SpecExpr::Eq { left, right } => SpecIr::Eq(Box::new(erase(*left)), Box::new(erase(*right))),
        SpecExpr::MkPair(l, r) => SpecIr::MkPair(Box::new(erase(*l)), Box::new(erase(*r))),
        SpecExpr::Unpack { pair, var1, var2, body } => SpecIr::Unpack(
            var1,
            var2,
            Box::new(erase(*pair)),
            Box::new(erase(*body)),
        ),
        SpecExpr::Left(x, _) => SpecIr::Left(Box::new(erase(*x))),
        SpecExpr::Right(x, _) => SpecIr::Right(Box::new(erase(*x))),
        SpecExpr::Match { expr, left_var, left_body, right_var, right_body } => SpecIr::Match(
            Box::new(erase(*expr)),
            left_var,
            Box::new(erase(*left_body)),
            right_var,
            Box::new(erase(*right_body)),
        ),
        SpecExpr::ArrayAlloc { size, init_val } => SpecIr::ArrayAlloc(
            Box::new(erase(*size)),
            Box::new(erase(*init_val)),
        ),
        SpecExpr::ArraySwap { array, index, new_val } => SpecIr::ArraySwap(
            Box::new(erase(*array)),
            Box::new(erase(*index)),
            Box::new(erase(*new_val)),
        ),
        SpecExpr::Split { value, var1, var2, body } => SpecIr::Unpack(
            var1,
            var2,
            Box::new(SpecIr::MkPair(Box::new(erase(*value)), Box::new(erase(*value)))),
            Box::new(erase(*body)),
        ),
        SpecExpr::Merge { left, right, var, body } => SpecIr::Unpack(
            var,
            var,
            Box::new(SpecIr::MkPair(Box::new(SpecIr::Var(right)), Box::new(SpecIr::Var(left)))),
            Box::new(erase(*body)),
        ),
    }
}

/// The names an expression uses without binding them.
pub open spec fn expr_free_vars(e: SpecExpr) -> Set<Seq<char>>
    decreases e,
{
    match e {
        SpecExpr::IntLiteral(_) => Set::empty(),
        SpecExpr::Variable(x) => set![x],
        SpecExpr::Lambda { param, body, .. } => expr_free_vars(*body).remove(param),
        SpecExpr::App { func: l, arg: r } | SpecExpr::Add(l, r) | SpecExpr::Sub(l, r)
        | SpecExpr::Eq { left: l, right: r } | SpecExpr::MkPair(l, r)
        | SpecExpr::ArrayAlloc { size: l, init_val: r } => expr_free_vars(*l).union(
            expr_free_vars(*r),
        ),
        SpecExpr::Unpack { pair, var1, var2, body } => expr_free_vars(*pair).union(
            expr_free_vars(*body).remove(var1).remove(var2),
        ),
        SpecExpr::Left(x, _) | SpecExpr::Right(x, _) => expr_free_vars(*x),
        SpecExpr::Match { expr, left_var, left_body, right_var, right_body } => expr_free_vars(
            *expr,
        ).union(expr_free_vars(*left_body).remove(left_var)).union(
            expr_free_vars(*right_body).remove(right_var),
        ),
        SpecExpr::ArraySwap { array, index, new_val } => expr_free_vars(*array).union(
            expr_free_vars(*index),
        ).union(expr_free_vars(*new_val)),
        SpecExpr::Split { value, var1, var2, body } => expr_free_vars(*value).union(
            expr_free_vars(*body).remove(var1).remove(var2),
        ),
        SpecExpr::Merge { left, right, var, body } => set![left, right].union(
            expr_free_vars(*body).remove(var),
        ),
    }
}

/// The names an IR node uses without binding them.
pub open spec fn ir_free_vars(n: SpecIr) -> Set<Seq<char>>
    decreases n,
{
    match n {
        SpecIr::Int(_) => Set::empty(),
        SpecIr::Var(x) => set![x],
        SpecIr::Lam(x, body) => ir_free_vars(*body).remove(x),
        SpecIr::App(l, r) | SpecIr::Add(l, r) | SpecIr::Sub(l, r) | SpecIr::Eq(l, r)
        | SpecIr::MkPair(l, r) | SpecIr::ArrayAlloc(l, r) => ir_free_vars(*l).union(
            ir_free_vars(*r),
        ),
        SpecIr::Unpack(v1, v2, p, body) => ir_free_vars(*p).union(
            ir_free_vars(*body).remove(v1).remove(v2),
        ),
        SpecIr::Left(x) | SpecIr::Right(x) => ir_free_vars(*x),
        SpecIr::Match(e, lv, lb, rv, rb) => ir_free_vars(*e).union(ir_free_vars(*lb).remove(lv)).union(
            ir_free_vars(*rb).remove(rv),
        ),
        SpecIr::ArraySwap(a, i, v) => ir_free_vars(*a).union(ir_free_vars(*i)).union(
            ir_free_vars(*v),
        ),
    }
}

/// Erasure drops types and nothing else: the erased program uses without
/// binding exactly the names that the expression does.
pub proof fn lemma_erase_keeps_free_vars(e: SpecExpr)
    ensures
        ir_free_vars(erase(e)) == expr_free_vars(e),
    decreases e,
{
    match e {
        SpecExpr::IntLiteral(_) | SpecExpr::Variable(_) => {},
        SpecExpr::Lambda { body, .. } => lemma_erase_keeps_free_vars(*body),
        SpecExpr::App { func: l, arg: r } | SpecExpr::Add(l, r) | SpecExpr::Sub(l, r)
        | SpecExpr::Eq { left: l, right: r } | SpecExpr::MkPair(l, r)
        | SpecExpr::ArrayAlloc { size: l, init_val: r } | SpecExpr::Unpack { pair: l, body: r, .. } => {
            lemma_erase_keeps_free_vars(*l);
            lemma_erase_keeps_free_vars(*r);
        },
        SpecExpr::Left(x, _) | SpecExpr::Right(x, _) => lemma_erase_keeps_free_vars(*x),
        SpecExpr::Match { expr, left_body, right_body, .. } => {
            lemma_erase_keeps_free_vars(*expr);
            lemma_erase_keeps_free_vars(*left_body);
            lemma_erase_keeps_free_vars(*right_body);
        },
        SpecExpr::ArraySwap { array, index, new_val } => {
            lemma_erase_keeps_free_vars(*array);
            lemma_erase_keeps_free_vars(*index);
            lemma_erase_keeps_free_vars(*new_val);
        },
        SpecExpr::Split { value, var1, var2, body } => {
            lemma_erase_keeps_free_vars(*value);
            lemma_erase_keeps_free_vars(*body);
            let ev = erase(*value);
            assert(ir_free_vars(SpecIr::MkPair(Box::new(ev), Box::new(ev))) =~= ir_free_vars(ev));
        },
        SpecExpr::Merge { left, right, var, body } => {
            lemma_erase_keeps_free_vars(*body);
            let p = SpecIr::MkPair(Box::new(SpecIr::Var(right)), Box::new(SpecIr::Var(left)));
            assert(ir_free_vars(SpecIr::Var(left)) == set![left]);
            assert(ir_free_vars(SpecIr::Var(right)) == set![right]);
            assert(ir_free_vars(p) =~= set![left, right]);
            assert(ir_free_vars(erase(*body)).remove(var).remove(var) =~= ir_free_vars(
                erase(*body),
            ).remove(var));
            assert(ir_free_vars(erase(e)) =~= expr_free_vars(e));
        },
    }
}

/// Erasure ignores type annotations: expressions that differ only in the type
/// of a lambda's parameter, or in the other side of an injection, erase alike.
pub proof fn lemma_erase_ignores_annotations(
    x: Seq<char>,
    body: SpecExpr,
    e: SpecExpr,
    t1: crate::ast::Type,
    t2: crate::ast::Type,
)
    ensures
        erase(SpecExpr::Lambda { param: x, param_type: t1, body: Box::new(body) }) == erase(
            SpecExpr::Lambda { param: x, param_type: t2, body: Box::new(body) },
        ),
        erase(SpecExpr::Left(Box::new(e), t1)) == erase(SpecExpr::Left(Box::new(e), t2)),
        erase(SpecExpr::Right(Box::new(e), t1)) == erase(SpecExpr::Right(Box::new(e), t2)),
{
}

/// Recursively traverses the AST and strips all type information.
#[verifier::rlimit(40)]
pub fn erase_proofs(expr: &Expr) -> (r: IrNode)
    ensures
        r@ == erase(expr@),
    decreases expr,
{
    match expr {
        Expr::IntLiteral(n) => IrNode::Int(*n),
        Expr::Variable(name) => IrNode::Var(name.clone()),
        Expr::Lambda { param, body, .. } => IrNode::Lam(param.clone(), Box::new(erase_proofs(body))),
        Expr::App { func, arg } => IrNode::App(
            Box::new(erase_proofs(func)),
            Box::new(erase_proofs(arg)),
        ),
        Expr::Add(l, r) => IrNode::Add(Box::new(erase_proofs(l)), Box::new(erase_proofs(r))),
        Expr::Sub(l, r) => IrNode::Sub(Box::new(erase_proofs(l)), Box::new(erase_proofs(r))),
        Expr::Eq { left, right } => IrNode::Eq(
            Box::new(erase_proofs(left)),
            Box::new(erase_proofs(right)),
        ),
        Expr::MkPair(l, r) => IrNode::MkPair(Box::new(erase_proofs(l)), Box::new(erase_proofs(r))),
        Expr::Unpack { pair, var1, var2, body } => IrNode::Unpack(
            var1.clone(),
            var2.clone(),
            Box::new(erase_proofs(pair)),
            Box::new(erase_proofs(body)),
        ),
        Expr::Left(e, _) => IrNode::Left(Box::new(erase_proofs(e))),
        Expr::Right(e, _) => IrNode::Right(Box::new(erase_proofs(e))),
        Expr::Match { expr, left_var, left_body, right_var, right_body } => IrNode::Match(
            Box::new(erase_proofs(expr)),
            left_var.clone(),
            Box::new(erase_proofs(left_body)),
            right_var.clone(),
            Box::new(erase_proofs(right_body)),
        ),
        Expr::ArrayAlloc { size, init_val } => IrNode::ArrayAlloc(
            Box::new(erase_proofs(size)),
            Box::new(erase_proofs(init_val)),
        ),
        Expr::ArraySwap { array, index, new_val } => IrNode::ArraySwap(
            Box::new(erase_proofs(array)),
            Box::new(erase_proofs(index)),
            Box::new(erase_proofs(new_val)),
        ),
        Expr::Split { value, var1, var2, body } => {
            let v1 = erase_proofs(value);
            let v2 = erase_proofs(value);
            let b = erase_proofs(body);
            let pair = IrNode::MkPair(Box::new(v1), Box::new(v2));
            let r = IrNode::Unpack(var1.clone(), var2.clone(), Box::new(pair), Box::new(b));
            assert(pair@ == SpecIr::MkPair(Box::new(erase((**value)@)), Box::new(erase((**value)@))));
            r
        },
        Expr::Merge { left, right, var, body } => {
            let b = erase_proofs(body);
            let rv = IrNode::Var(right.clone());
            let lv = IrNode::Var(left.clone());
            assert(rv@ == SpecIr::Var(right@));
            assert(lv@ == SpecIr::Var(left@));
            let pair = IrNode::MkPair(Box::new(rv), Box::new(lv));
            assert(pair@ == SpecIr::MkPair(Box::new(SpecIr::Var(right@)), Box::new(SpecIr::Var(left@))));
            IrNode::Unpack(var.clone(), var.clone(), Box::new(pair), Box::new(b))
        },
    }
}

} // verus!
