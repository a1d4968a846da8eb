//! The abstract syntax of Autarky: types and expressions.
use vstd::prelude::*;
use crate::codegen::{decimal, push_decimal};

verus! {

/// The types of the language.
#[derive(Debug, PartialEq)]
pub enum Type {
    Int,
    Pair(Box<Type>, Box<Type>),
    Either(Box<Type>, Box<Type>),
    Func(Box<Type>, Box<Type>),
    Array(Box<Type>),
    /// A linear (full) permission to a value of the type.
    Lin(Box<Type>),
    /// A read-only half of a permission, as `split` makes them.
    Half(Box<Type>),
    /// The universe `Type_n`.
    Universe(usize),
}

/// The expressions of the language.
#[derive(Debug, PartialEq)]
pub enum Expr {
    IntLiteral(i64),
    Variable(String),
    Lambda { param: String, param_type: Type, body: Box<Expr> },
    App { func: Box<Expr>, arg: Box<Expr> },
    Add(Box<Expr>, Box<Expr>),
    Sub(Box<Expr>, Box<Expr>),
    Eq { left: Box<Expr>, right: Box<Expr> },
    MkPair(Box<Expr>, Box<Expr>),
    Unpack { pair: Box<Expr>, var1: String, var2: String, body: Box<Expr> },
    Left(Box<Expr>, Type),
    Right(Box<Expr>, Type),
    Match {
        expr: Box<Expr>,
        left_var: String,
        left_body: Box<Expr>,
        right_var: String,
        right_body: Box<Expr>,
    },
    ArrayAlloc { size: Box<Expr>, init_val: Box<Expr> },
    ArraySwap { array: Box<Expr>, index: Box<Expr>, new_val: Box<Expr> },
    /// `split x into a, b in body`: a full permission split into two halves.
    Split { value: Box<Expr>, var1: String, var2: String, body: Box<Expr> },
    /// `merge a and b into c in body`: two halves merged back into the full permission.
    Merge { left: String, right: String, var: String, body: Box<Expr> },
}

/// The mathematical model of an expression: names are character sequences.
pub enum SpecExpr {
    IntLiteral(i64),
    Variable(Seq<char>),
    Lambda { param: Seq<char>, param_type: Type, body: Box<SpecExpr> },
    App { func: Box<SpecExpr>, arg: Box<SpecExpr> },
    Add(Box<SpecExpr>, Box<SpecExpr>),
    Sub(Box<SpecExpr>, Box<SpecExpr>),
    Eq { left: Box<SpecExpr>, right: Box<SpecExpr> },
    MkPair(Box<SpecExpr>, Box<SpecExpr>),
    Unpack { pair: Box<SpecExpr>, var1: Seq<char>, var2: Seq<char>, body: Box<SpecExpr> },
    Left(Box<SpecExpr>, Type),
    Right(Box<SpecExpr>, Type),
    Match {
        expr: Box<SpecExpr>,
        left_var: Seq<char>,
        left_body: Box<SpecExpr>,
        right_var: Seq<char>,
        right_body: Box<SpecExpr>,
    },
    ArrayAlloc { size: Box<SpecExpr>, init_val: Box<SpecExpr> },
    ArraySwap { array: Box<SpecExpr>, index: Box<SpecExpr>, new_val: Box<SpecExpr> },
    Split { value: Box<SpecExpr>, var1: Seq<char>, var2: Seq<char>, body: Box<SpecExpr> },
    Merge { left: Seq<char>, right: Seq<char>, var: Seq<char>, body: Box<SpecExpr> },
}

/// The model of an expression.
pub open spec fn expr_view(e: Expr) -> SpecExpr
    decreases e,
{
    match e {
        Expr::IntLiteral(n) => SpecExpr::IntLiteral(n),
        Expr::Variable(x) => SpecExpr::Variable(x@),
        Expr::Lambda { param, param_type, body } => SpecExpr::Lambda {
            param: param@,
            param_type,
            body: Box::new(expr_view(*body)),
        },
        Expr::App { func, arg } => SpecExpr::App {
            func: Box::new(expr_view(*func)),
            arg: Box::new(expr_view(*arg)),
        },
        Expr::Add(l, r) => SpecExpr::Add(Box::new(expr_view(*l)), Box::new(expr_view(*r))),
        Expr::Sub(l, r) => SpecExpr::Sub(Box::new(expr_view(*l)), Box::new(expr_view(*r))),
        Expr::Eq { left, right } => SpecExpr::Eq {
            left: Box::new(expr_view(*left)),
            right: Box::new(expr_view(*right)),
        },
        Expr::MkPair(l, r) => SpecExpr::MkPair(Box::new(expr_view(*l)), Box::new(expr_view(*r))),
        Expr::Unpack { pair, var1, var2, body } => SpecExpr::Unpack {
            pair: Box::new(expr_view(*pair)),
            var1: var1@,
            var2: var2@,
            body: Box::new(expr_view(*body)),
        },
        Expr::Left(x, t) => SpecExpr::Left(Box::new(expr_view(*x)), t),
        Expr::Right(x, t) => SpecExpr::Right(Box::new(expr_view(*x)), t),
        Expr::Match { expr, left_var, left_body, right_var, right_body } => SpecExpr::Match {
            expr: Box::new(expr_view(*expr)),
            left_var: left_var@,
            left_body: Box::new(expr_view(*left_body)),
            right_var: right_var@,
            right_body: Box::new(expr_view(*right_body)),
        },
        Expr::ArrayAlloc { size, init_val } => SpecExpr::ArrayAlloc {
            size: Box::new(expr_view(*size)),
            init_val: Box::new(expr_view(*init_val)),
        },
        Expr::ArraySwap { array, index, new_val } => SpecExpr::ArraySwap {
            array: Box::new(expr_view(*array)),
            index: Box::new(expr_view(*index)),
            new_val: Box::new(expr_view(*new_val)),
        },
        Expr::Split { value, var1, var2, body } => SpecExpr::Split {
            value: Box::new(expr_view(*value)),
            var1: var1@,
            var2: var2@,
            body: Box::new(expr_view(*body)),
        },
        Expr::Merge { left, right, var, body } => SpecExpr::Merge {
            left: left@,
            right: right@,
            var: var@,
            body: Box::new(expr_view(*body)),
        },
    }
}

impl View for Expr {
    type V = SpecExpr;

    open spec fn view(&self) -> SpecExpr {
        expr_view(*self)
    }
}

/// How a type is shown in messages: the same text as Rust's derived `Debug`.
pub open spec fn type_text(t: Type) -> Seq<char>
    decreases t,
{
    match t {
        Type::Int => "Int"@,
        Type::Pair(a, b) => "Pair("@ + type_text(*a) + ", "@ + type_text(*b) + ")"@,
        Type::Either(a, b) => "Either("@ + type_text(*a) + ", "@ + type_text(*b) + ")"@,
        Type::Func(a, b) => "Func("@ + type_text(*a) + ", "@ + type_text(*b) + ")"@,
        Type::Array(a) => "Array("@ + type_text(*a) + ")"@,
        Type::Lin(a) => "Lin("@ + type_text(*a) + ")"@,
        Type::Half(a) => "Half("@ + type_text(*a) + ")"@,
        Type::Universe(n) => "Type_"@ + decimal(n as nat),
    }
}

impl Type {
    /// Structural equality of two types.
    pub fn same(&self, other: &Type) -> (r: bool)
        ensures
            r == (*self == *other),
        decreases self,
    {
        match (self, other) {
            (Type::Int, Type::Int) => true,
            (Type::Pair(a1, b1), Type::Pair(a2, b2)) => a1.same(a2) && b1.same(b2),
            (Type::Either(a1, b1), Type::Either(a2, b2)) => a1.same(a2) && b1.same(b2),
            (Type::Func(a1, b1), Type::Func(a2, b2)) => a1.same(a2) && b1.same(b2),
            (Type::Array(a1), Type::Array(a2)) => a1.same(a2),
            (Type::Lin(a1), Type::Lin(a2)) => a1.same(a2),
            (Type::Half(a1), Type::Half(a2)) => a1.same(a2),
            (Type::Universe(n1), Type::Universe(n2)) => *n1 == *n2,
            _ => false,
        }
    }

    /// A copy of the type, equal to it.
    pub fn duplicate(&self) -> (r: Type)
        ensures
            r == *self,
        decreases self,
    {
        match self {
            Type::Int => Type::Int,
            Type::Pair(a, b) => Type::Pair(Box::new(a.duplicate()), Box::new(b.duplicate())),
            Type::Either(a, b) => Type::Either(Box::new(a.duplicate()), Box::new(b.duplicate())),
            Type::Func(a, b) => Type::Func(Box::new(a.duplicate()), Box::new(b.duplicate())),
            Type::Array(a) => Type::Array(Box::new(a.duplicate())),
            Type::Lin(a) => Type::Lin(Box::new(a.duplicate())),
            Type::Half(a) => Type::Half(Box::new(a.duplicate())),
            Type::Universe(n) => Type::Universe(*n),
        }
    }

    /// Appends the text of the type (as `type_text` gives it) to `out`.
    pub fn write_text(&self, out: &mut String)
        ensures
            final(out)@ == old(out)@ + type_text(*self),
        decreases self,
    {
        match self {
            Type::Int => {
                out.append("Int");
            },
            Type::Pair(a, b) => {
                out.append("Pair(");
                a.write_text(out);
                out.append(", ");
                b.write_text(out);
                out.append(")");
            },
            Type::Either(a, b) => {
                out.append("Either(");
                a.write_text(out);
                out.append(", ");
                b.write_text(out);
                out.append(")");
            },
            Type::Func(a, b) => {
                out.append("Func(");
                a.write_text(out);
                out.append(", ");
                b.write_text(out);
                out.append(")");
            },
            Type::Array(a) => {
                out.append("Array(");
                a.write_text(out);
                out.append(")");
            },
            Type::Lin(a) => {
                out.append("Lin(");
                a.write_text(out);
                out.append(")");
            },
            Type::Half(a) => {
                out.append("Half(");
                a.write_text(out);
                out.append(")");
            },
            Type::Universe(n) => {
                out.append("Type_");
                push_decimal(out, *n);
            },
        }
    }

    /// The text of the type, as Rust's derived `Debug` shows it.
    pub fn to_text(&self) -> (r: String)
        ensures
            r@ == type_text(*self),
    {
        let mut s = String::new();
        self.write_text(&mut s);
        s
    }
}

impl Expr {
    /// A copy of the expression, equal to it.
    pub fn duplicate(&self) -> (r: Expr)
        ensures
            r == *self,
        decreases self,
    {
        match self {
            Expr::IntLiteral(n) => Expr::IntLiteral(*n),
            Expr::Variable(x) => Expr::Variable(x.clone()),
            Expr::Lambda { param, param_type, body } => Expr::Lambda {
                param: param.clone(),
                param_type: param_type.duplicate(),
                body: Box::new(body.duplicate()),
            },
            Expr::App { func, arg } => Expr::App {
                func: Box::new(func.duplicate()),
                arg: Box::new(arg.duplicate()),
            },
            Expr::Add(l, r) => Expr::Add(Box::new(l.duplicate()), Box::new(r.duplicate())),
            Expr::Sub(l, r) => Expr::Sub(Box::new(l.duplicate()), Box::new(r.duplicate())),
            Expr::Eq { left, right } => Expr::Eq {
                left: Box::new(left.duplicate()),
                right: Box::new(right.duplicate()),
            },
            Expr::MkPair(l, r) => Expr::MkPair(Box::new(l.duplicate()), Box::new(r.duplicate())),
            Expr::Unpack { pair, var1, var2, body } => Expr::Unpack {
                pair: Box::new(pair.duplicate()),
                var1: var1.clone(),
                var2: var2.clone(),
                body: Box::new(body.duplicate()),
            },
            Expr::Left(e, t) => Expr::Left(Box::new(e.duplicate()), t.duplicate()),
            Expr::Right(e, t) => Expr::Right(Box::new(e.duplicate()), t.duplicate()),
            Expr::Match { expr, left_var, left_body, right_var, right_body } => Expr::Match {
                expr: Box::new(expr.duplicate()),
                left_var: left_var.clone(),
                left_body: Box::new(left_body.duplicate()),
                right_var: right_var.clone(),
                right_body: Box::new(right_body.duplicate()),
            },
            Expr::ArrayAlloc { size, init_val } => Expr::ArrayAlloc {
                size: Box::new(size.duplicate()),
                init_val: Box::new(init_val.duplicate()),
            },
            Expr::ArraySwap { array, index, new_val } => Expr::ArraySwap {
                array: Box::new(array.duplicate()),
                index: Box::new(index.duplicate()),
                new_val: Box::new(new_val.duplicate()),
            },
            Expr::Split { value, var1, var2, body } => Expr::Split {
                value: Box::new(value.duplicate()),
                var1: var1.clone(),
                var2: var2.clone(),
                body: Box::new(body.duplicate()),
            },
            Expr::Merge { left, right, var, body } => Expr::Merge {
                left: left.clone(),
                right: right.clone(),
                var: var.clone(),
                body: Box::new(body.duplicate()),
            },
        }
    }
}

impl Clone for Expr {
    fn clone(&self) -> (r: Self)
        ensures
            r == *self,
    {
        self.duplicate()
    }
}

impl Clone for Type {
    fn clone(&self) -> (r: Self)
        ensures
            r == *self,
    {
        self.duplicate()
    }
}

} // verus!
