//! C expressions.

use crate::ast::types::{CType, Type};
use crate::text::{copy_of, same};
use vstd::prelude::*;

verus! {

/// A binary operator.
#[derive(Debug, Clone, Copy, PartialEq, Eq, Structural)]
pub enum BinaryOp {
    Add,
    Sub,
    Mul,
    Div,
    Mod,
    BitAnd,
    BitOr,
    BitXor,
    Shl,
    Shr,
    And,
    Or,
    Eq,
    Ne,
    Lt,
    Le,
    Gt,
    Ge,
    Assign,
}

/// A unary operator.
#[derive(Debug, Clone, Copy, PartialEq, Eq, Structural)]
pub enum UnaryOp {
    Neg,
    Not,
    BitNot,
}

/// A C expression.
#[derive(Debug)]
pub enum CExpr {
    IntLit(i64),
    UIntLit(u64),
    /// A floating-point literal, by the bits of its double.
    FloatLit(u64),
    StringLit(String),
    CharLit(char),
    Var(String),
    Unary { op: UnaryOp, operand: Box<CExpr> },
    Binary { op: BinaryOp, left: Box<CExpr>, right: Box<CExpr> },
    Ternary { cond: Box<CExpr>, then_expr: Box<CExpr>, else_expr: Box<CExpr> },
    Cast { ty: CType, expr: Box<CExpr> },
    Call { func: Box<CExpr>, args: Vec<CExpr> },
    Subscript { base: Box<CExpr>, index: Box<CExpr> },
    Member { base: Box<CExpr>, member: String },
    PtrMember { base: Box<CExpr>, member: String },
    Sizeof(Box<CExpr>),
    SizeofType(CType),
    AddrOf(Box<CExpr>),
    Deref(Box<CExpr>),
    Comma(Vec<CExpr>),
    Paren(Box<CExpr>),
}

/// A C expression, as a mathematical value.
pub enum Expr {
    IntLit(i64),
    UIntLit(u64),
    FloatLit(u64),
    StringLit(Seq<char>),
    CharLit(char),
    Var(Seq<char>),
    Unary { op: UnaryOp, operand: Box<Expr> },
    Binary { op: BinaryOp, left: Box<Expr>, right: Box<Expr> },
    Ternary { cond: Box<Expr>, then_expr: Box<Expr>, else_expr: Box<Expr> },
    Cast { ty: Type, expr: Box<Expr> },
    Call { func: Box<Expr>, args: Seq<Expr> },
    Subscript { base: Box<Expr>, index: Box<Expr> },
    Member { base: Box<Expr>, member: Seq<char> },
    PtrMember { base: Box<Expr>, member: Seq<char> },
    Sizeof(Box<Expr>),
    SizeofType(Type),
    AddrOf(Box<Expr>),
    Deref(Box<Expr>),
    Comma(Seq<Expr>),
    Paren(Box<Expr>),
}

/// The twins of a list of expressions.
pub open spec fn views(list: Seq<CExpr>) -> Seq<Expr>
    decreases list,
{
    Seq::new(
        list.len(),
        |i: int|
            if 0 <= i < list.len() {
                list[i].view()
            } else {
                arbitrary()
            },
    )
}

impl CExpr {
    pub open spec fn view(&self) -> Expr
        decreases self,
    {
        match *self {
            CExpr::IntLit(v) => Expr::IntLit(v),
            CExpr::UIntLit(v) => Expr::UIntLit(v),
            CExpr::FloatLit(v) => Expr::FloatLit(v),
            CExpr::StringLit(s) => Expr::StringLit(s@),
            CExpr::CharLit(c) => Expr::CharLit(c),
            CExpr::Var(name) => Expr::Var(name@),
            CExpr::Unary { op, operand } => Expr::Unary { op, operand: Box::new(operand.view()) },
            CExpr::Binary { op, left, right } => Expr::Binary {
                op,
                left: Box::new(left.view()),
                right: Box::new(right.view()),
            },
            CExpr::Ternary { cond, then_expr, else_expr } => Expr::Ternary {
                cond: Box::new(cond.view()),
                then_expr: Box::new(then_expr.view()),
                else_expr: Box::new(else_expr.view()),
            },
            CExpr::Cast { ty, expr } => Expr::Cast { ty: ty@, expr: Box::new(expr.view()) },
            CExpr::Call { func, args } => Expr::Call {
                func: Box::new(func.view()),
                args: views(args@),
            },
            CExpr::Subscript { base, index } => Expr::Subscript {
                base: Box::new(base.view()),
                index: Box::new(index.view()),
            },
            CExpr::Member { base, member } => Expr::Member {
                base: Box::new(base.view()),
                member: member@,
            },
            CExpr::PtrMember { base, member } => Expr::PtrMember {
                base: Box::new(base.view()),
                member: member@,
            },
            CExpr::Sizeof(inner) => Expr::Sizeof(Box::new(inner.view())),
            CExpr::SizeofType(ty) => Expr::SizeofType(ty@),
            CExpr::AddrOf(inner) => Expr::AddrOf(Box::new(inner.view())),
            CExpr::Deref(inner) => Expr::Deref(Box::new(inner.view())),
            CExpr::Comma(items) => Expr::Comma(views(items@)),
            CExpr::Paren(inner) => Expr::Paren(Box::new(inner.view())),
        }
    }
}

/// The direct subexpressions, in source order.
pub open spec fn kids(e: Expr) -> Seq<Expr> {
    match e {
        Expr::Unary { op, operand } => seq![*operand],
        Expr::Binary { op, left, right } => seq![*left, *right],
        Expr::Ternary { cond, then_expr, else_expr } => seq![*cond, *then_expr, *else_expr],
        Expr::Cast { ty, expr } => seq![*expr],
        Expr::Call { func, args } => seq![*func] + args,
        Expr::Subscript { base, index } => seq![*base, *index],
        Expr::Member { base, member } => seq![*base],
        Expr::PtrMember { base, member } => seq![*base],
        Expr::Sizeof(inner) => seq![*inner],
        Expr::AddrOf(inner) => seq![*inner],
        Expr::Deref(inner) => seq![*inner],
        Expr::Comma(items) => items,
        Expr::Paren(inner) => seq![*inner],
        _ => Seq::empty(),
    }
}

/// The same expression with other direct subexpressions.
pub open spec fn with_kids(e: Expr, ks: Seq<Expr>) -> Expr {
    match e {
        Expr::Unary { op, operand } => Expr::Unary { op, operand: Box::new(ks[0]) },
        Expr::Binary { op, left, right } => Expr::Binary {
            op,
            left: Box::new(ks[0]),
            right: Box::new(ks[1]),
        },
        Expr::Ternary { cond, then_expr, else_expr } => Expr::Ternary {
            cond: Box::new(ks[0]),
            then_expr: Box::new(ks[1]),
            else_expr: Box::new(ks[2]),
        },
        Expr::Cast { ty, expr } => Expr::Cast { ty, expr: Box::new(ks[0]) },
        Expr::Call { func, args } => Expr::Call { func: Box::new(ks[0]), args: ks.skip(1) },
        Expr::Subscript { base, index } => Expr::Subscript {
            base: Box::new(ks[0]),
            index: Box::new(ks[1]),
        },
        Expr::Member { base, member } => Expr::Member { base: Box::new(ks[0]), member },
        Expr::PtrMember { base, member } => Expr::PtrMember { base: Box::new(ks[0]), member },
        Expr::Sizeof(inner) => Expr::Sizeof(Box::new(ks[0])),
        Expr::AddrOf(inner) => Expr::AddrOf(Box::new(ks[0])),
        Expr::Deref(inner) => Expr::Deref(Box::new(ks[0])),
        Expr::Comma(items) => Expr::Comma(ks),
        Expr::Paren(inner) => Expr::Paren(Box::new(ks[0])),
        _ => e,
    }
}

/// A subexpression is smaller than the expression.
pub broadcast proof fn kid_is_smaller(e: Expr, i: int)
    requires
        0 <= i < kids(e).len(),
    ensures
        #![trigger kids(e)[i]]
        decreases_to!(e => kids(e)[i]),
{
    match e {
        Expr::Call { func, args } => {
            if i > 0 {
                assert(kids(e)[i] == args[i - 1]);
                assert(decreases_to!(e => args));
                assert(decreases_to!(args => args[i - 1]));
            }
        },
        Expr::Comma(items) => {
            assert(decreases_to!(e => items));
            assert(decreases_to!(items => items[i]));
        },
        _ => {},
    }
}

proof fn lemma_views_len(e: CExpr)
    ensures
        e matches CExpr::Call { func, args } ==> views(args@).len() == args@.len(),
        e matches CExpr::Comma(items) ==> views(items@).len() == items@.len(),
{
}

impl CExpr {
    /// A copy of this expression.
    pub fn dup(&self) -> (r: CExpr)
        ensures
            r@ == self@,
        decreases self,
    {
        match self {
            CExpr::IntLit(x) => CExpr::IntLit(*x),
            CExpr::UIntLit(x) => CExpr::UIntLit(*x),
            CExpr::FloatLit(x) => CExpr::FloatLit(*x),
            CExpr::StringLit(x) => CExpr::StringLit(copy_of(x)),
            CExpr::CharLit(x) => CExpr::CharLit(*x),
            CExpr::Var(x) => CExpr::Var(copy_of(x)),
            CExpr::Unary { op, operand } => CExpr::Unary { op: *op, operand: Box::new(operand.dup()) },
            CExpr::Binary { op, left, right } => CExpr::Binary { op: *op, left: Box::new(left.dup()), right: Box::new(right.dup()) },
            CExpr::Ternary { cond, then_expr, else_expr } => CExpr::Ternary { cond: Box::new(cond.dup()), then_expr: Box::new(then_expr.dup()), else_expr: Box::new(else_expr.dup()) },
            CExpr::Cast { ty, expr } => CExpr::Cast { ty: ty.dup(), expr: Box::new(expr.dup()) },
            CExpr::Call { func, args } => CExpr::Call { func: Box::new(func.dup()), args: dup_all(args) },
            CExpr::Subscript { base, index } => CExpr::Subscript { base: Box::new(base.dup()), index: Box::new(index.dup()) },
            CExpr::Member { base, member } => CExpr::Member { base: Box::new(base.dup()), member: copy_of(member) },
            CExpr::PtrMember { base, member } => CExpr::PtrMember { base: Box::new(base.dup()), member: copy_of(member) },
            CExpr::Sizeof(x) => CExpr::Sizeof(Box::new(x.dup())),
            CExpr::SizeofType(x) => CExpr::SizeofType(x.dup()),
            CExpr::AddrOf(x) => CExpr::AddrOf(Box::new(x.dup())),
            CExpr::Deref(x) => CExpr::Deref(Box::new(x.dup())),
            CExpr::Comma(x) => CExpr::Comma(dup_all(x)),
            CExpr::Paren(x) => CExpr::Paren(Box::new(x.dup())),
        }
    }

    /// Are two expressions the same?
    pub fn same(&self, other: &CExpr) -> (r: bool)
        ensures
            r == (self@ == other@),
        decreases self,
    {
        match (self, other) {
            (CExpr::IntLit(a), CExpr::IntLit(b)) => *a == *b,
            (CExpr::UIntLit(a), CExpr::UIntLit(b)) => *a == *b,
            (CExpr::FloatLit(a), CExpr::FloatLit(b)) => *a == *b,
            (CExpr::StringLit(a), CExpr::StringLit(b)) => same(a, b),
            (CExpr::CharLit(a), CExpr::CharLit(b)) => *a == *b,
            (CExpr::Var(a), CExpr::Var(b)) => same(a, b),
            (CExpr::Unary { op: op1, operand: operand1 }, CExpr::Unary { op: op2, operand: operand2 }) => *op1 == *op2 && operand1.same(operand2),
            (CExpr::Binary { op: op1, left: left1, right: right1 }, CExpr::Binary { op: op2, left: left2, right: right2 }) => *op1 == *op2 && left1.same(left2) && right1.same(right2),
            (CExpr::Ternary { cond: cond1, then_expr: then_expr1, else_expr: else_expr1 }, CExpr::Ternary { cond: cond2, then_expr: then_expr2, else_expr: else_expr2 }) => cond1.same(cond2) && then_expr1.same(then_expr2) && else_expr1.same(else_expr2),
            (CExpr::Cast { ty: ty1, expr: expr1 }, CExpr::Cast { ty: ty2, expr: expr2 }) => ty1.same(ty2) && expr1.same(expr2),
            (CExpr::Call { func: func1, args: args1 }, CExpr::Call { func: func2, args: args2 }) => func1.same(func2) && same_all(args1, args2),
            (CExpr::Subscript { base: base1, index: index1 }, CExpr::Subscript { base: base2, index: index2 }) => base1.same(base2) && index1.same(index2),
            (CExpr::Member { base: base1, member: member1 }, CExpr::Member { base: base2, member: member2 }) => base1.same(base2) && same(member1, member2),
            (CExpr::PtrMember { base: base1, member: member1 }, CExpr::PtrMember { base: base2, member: member2 }) => base1.same(base2) && same(member1, member2),
            (CExpr::Sizeof(a), CExpr::Sizeof(b)) => a.same(b),
            (CExpr::SizeofType(a), CExpr::SizeofType(b)) => a.same(b),
            (CExpr::AddrOf(a), CExpr::AddrOf(b)) => a.same(b),
            (CExpr::Deref(a), CExpr::Deref(b)) => a.same(b),
            (CExpr::Comma(a), CExpr::Comma(b)) => same_all(a, b),
            (CExpr::Paren(a), CExpr::Paren(b)) => a.same(b),
            _ => false,
        }
    }

    /// How many direct subexpressions there are.
    pub fn arity(&self) -> (r: u128)
        ensures
            r == kids(self@).len(),
    {
        proof {
            lemma_views_len(*self);
        }
        match self {
            CExpr::IntLit(_)
            | CExpr::UIntLit(_)
            | CExpr::FloatLit(_)
            | CExpr::StringLit(_)
            | CExpr::CharLit(_)
            | CExpr::Var(_)
            | CExpr::SizeofType(_) => 0,
            CExpr::Unary { .. }
            | CExpr::Cast { .. }
            | CExpr::Member { .. }
            | CExpr::PtrMember { .. }
            | CExpr::Sizeof(_)
            | CExpr::AddrOf(_)
            | CExpr::Deref(_)
            | CExpr::Paren(_) => 1,
            CExpr::Binary { .. } | CExpr::Subscript { .. } => 2,
            CExpr::Ternary { .. } => 3,
            CExpr::Call { func, args } => args.len() as u128 + 1,
            CExpr::Comma(items) => items.len() as u128,
        }
    }

    /// The direct subexpression at a place.
    pub fn kid(&self, i: u128) -> (r: &CExpr)
        requires
            i < kids(self@).len(),
        ensures
            r@ == kids(self@)[i as int],
            decreases_to!(self => r),
    {
        proof {
            lemma_views_len(*self);
        }
        match self {
            CExpr::Unary { op, operand } => operand,
            CExpr::Cast { ty, expr } => expr,
            CExpr::Member { base, member } => base,
            CExpr::PtrMember { base, member } => base,
            CExpr::Sizeof(inner) => inner,
            CExpr::AddrOf(inner) => inner,
            CExpr::Deref(inner) => inner,
            CExpr::Paren(inner) => inner,
            CExpr::Binary { op, left, right } => if i == 0 {
                left
            } else {
                right
            },
            CExpr::Subscript { base, index } => if i == 0 {
                base
            } else {
                index
            },
            CExpr::Ternary { cond, then_expr, else_expr } => if i == 0 {
                cond
            } else if i == 1 {
                then_expr
            } else {
                else_expr
            },
            CExpr::Call { func, args } => if i == 0 {
                func
            } else {
                assert(decreases_to!(args => args@[i - 1]));
                assert(views(args@)[i - 1] == args@[i - 1]@);
                let n: usize = args.len();
                let at: usize = (i - 1) as usize;
                assert(at < n);
                &args[at]
            },
            CExpr::Comma(items) => {
                assert(decreases_to!(items => items@[i as int]));
                assert(views(items@)[i as int] == items@[i as int]@);
                let n: usize = items.len();
                let at: usize = i as usize;
                assert(at < n);
                &items[at]
            },
            _ => self,
        }
    }

    /// The same expression with other direct subexpressions.
    pub fn rebuild(&self, mut ks: Vec<CExpr>) -> (r: CExpr)
        requires
            ks@.len() == kids(self@).len(),
        ensures
            r@ == with_kids(self@, views(ks@)),
    {
        let ghost given = ks@;
        match self {
            CExpr::Unary { op, operand } => {
                let a = ks.remove(0);
                CExpr::Unary { op: *op, operand: Box::new(a) }
            },
            CExpr::Cast { ty, expr } => {
                let a = ks.remove(0);
                CExpr::Cast { ty: ty.dup(), expr: Box::new(a) }
            },
            CExpr::Member { base, member } => {
                let a = ks.remove(0);
                CExpr::Member { base: Box::new(a), member: copy_of(member) }
            },
            CExpr::PtrMember { base, member } => {
                let a = ks.remove(0);
                CExpr::PtrMember { base: Box::new(a), member: copy_of(member) }
            },
            CExpr::Sizeof(_) => {
                let a = ks.remove(0);
                CExpr::Sizeof(Box::new(a))
            },
            CExpr::AddrOf(_) => {
                let a = ks.remove(0);
                CExpr::AddrOf(Box::new(a))
            },
            CExpr::Deref(_) => {
                let a = ks.remove(0);
                CExpr::Deref(Box::new(a))
            },
            CExpr::Paren(_) => {
                let a = ks.remove(0);
                CExpr::Paren(Box::new(a))
            },
            CExpr::Binary { op, .. } => {
                let a = ks.remove(0);
                let b = ks.remove(0);
                CExpr::Binary { op: *op, left: Box::new(a), right: Box::new(b) }
            },
            CExpr::Subscript { .. } => {
                let a = ks.remove(0);
                let b = ks.remove(0);
                CExpr::Subscript { base: Box::new(a), index: Box::new(b) }
            },
            CExpr::Ternary { .. } => {
                let a = ks.remove(0);
                let b = ks.remove(0);
                let c = ks.remove(0);
                CExpr::Ternary { cond: Box::new(a), then_expr: Box::new(b), else_expr: Box::new(c) }
            },
            CExpr::Call { .. } => {
                let f = ks.remove(0);
                assert(views(ks@) =~= views(given).skip(1));
                CExpr::Call { func: Box::new(f), args: ks }
            },
            CExpr::Comma(_) => CExpr::Comma(ks),
            _ => self.dup(),
        }
    }

    /// A unary expression.
    pub fn unary(op: UnaryOp, operand: CExpr) -> (r: CExpr)
        ensures
            r@ == unary(op, operand@),
    {
        CExpr::Unary { op, operand: Box::new(operand) }
    }

    /// A binary expression.
    pub fn binary(op: BinaryOp, left: CExpr, right: CExpr) -> (r: CExpr)
        ensures
            r@ == binary(op, left@, right@),
    {
        CExpr::Binary { op, left: Box::new(left), right: Box::new(right) }
    }

    /// An assignment.
    pub fn assign(left: CExpr, right: CExpr) -> (r: CExpr)
        ensures
            r@ == binary(BinaryOp::Assign, left@, right@),
    {
        Self::binary(BinaryOp::Assign, left, right)
    }

    /// A cast.
    pub fn cast(ty: CType, expr: CExpr) -> (r: CExpr)
        ensures
            r@ == cast(ty@, expr@),
    {
        CExpr::Cast { ty, expr: Box::new(expr) }
    }

    /// A call.
    pub fn call(func: CExpr, args: Vec<CExpr>) -> (r: CExpr)
        ensures
            r@ == call(func@, views(args@)),
    {
        CExpr::Call { func: Box::new(func), args }
    }

    /// A variable.
    pub fn var(name: &str) -> (r: CExpr)
        ensures
            r@ == Expr::Var(name@),
    {
        CExpr::Var(copy_of(name))
    }

    /// What an expression points to.
    pub fn deref(inner: CExpr) -> (r: CExpr)
        ensures
            r@ == deref(inner@),
    {
        CExpr::Deref(Box::new(inner))
    }

    /// The address of an expression.
    pub fn addr_of(inner: CExpr) -> (r: CExpr)
        ensures
            r@ == addr_of(inner@),
    {
        CExpr::AddrOf(Box::new(inner))
    }

    /// An array element.
    pub fn subscript(base: CExpr, index: CExpr) -> (r: CExpr)
        ensures
            r@ == subscript(base@, index@),
    {
        CExpr::Subscript { base: Box::new(base), index: Box::new(index) }
    }

    /// Is this a variable of that name?
    pub fn is_var(&self, name: &str) -> (r: bool)
        ensures
            r == (self@ == Expr::Var(name@)),
    {
        match self {
            CExpr::Var(own) => same(own, name),
            _ => false,
        }
    }
}

pub open spec fn unary(op: UnaryOp, operand: Expr) -> Expr {
    Expr::Unary { op, operand: Box::new(operand) }
}

pub open spec fn binary(op: BinaryOp, left: Expr, right: Expr) -> Expr {
    Expr::Binary { op, left: Box::new(left), right: Box::new(right) }
}

pub open spec fn cast(ty: Type, expr: Expr) -> Expr {
    Expr::Cast { ty, expr: Box::new(expr) }
}

pub open spec fn call(func: Expr, args: Seq<Expr>) -> Expr {
    Expr::Call { func: Box::new(func), args }
}

pub open spec fn deref(inner: Expr) -> Expr {
    Expr::Deref(Box::new(inner))
}

pub open spec fn addr_of(inner: Expr) -> Expr {
    Expr::AddrOf(Box::new(inner))
}

pub open spec fn paren(inner: Expr) -> Expr {
    Expr::Paren(Box::new(inner))
}

pub open spec fn subscript(base: Expr, index: Expr) -> Expr {
    Expr::Subscript { base: Box::new(base), index: Box::new(index) }
}

/// Copies of a list of expressions.
pub fn dup_all(list: &Vec<CExpr>) -> (r: Vec<CExpr>)
    ensures
        views(r@) == views(list@),
    decreases list,
{
    let mut out: Vec<CExpr> = Vec::new();
    for i in 0..list.len()
        invariant
            out@.len() == i,
            forall|j: int| 0 <= j < i ==> (#[trigger] out@[j])@ == list@[j]@,
    {
        let copy = list[i].dup();
        out.push(copy);
    }
    assert(views(out@) =~= views(list@));
    out
}

/// Are two lists of expressions the same?
pub fn same_all(a: &Vec<CExpr>, b: &Vec<CExpr>) -> (r: bool)
    ensures
        r == (views(a@) == views(b@)),
    decreases a,
{
    if a.len() != b.len() {
        assert(views(a@).len() != views(b@).len());
        return false;
    }
    for i in 0..a.len()
        invariant
            a@.len() == b@.len(),
            forall|j: int| 0 <= j < i ==> (#[trigger] a@[j])@ == b@[j]@,
    {
        if !a[i].same(&b[i]) {
            assert(views(a@)[i as int] != views(b@)[i as int]);
            return false;
        }
    }
    assert(views(a@) =~= views(b@));
    true
}

/// The twin of an optional expression.
pub open spec fn view_opt(e: Option<CExpr>) -> Option<Expr> {
    match e {
        Some(e) => Some(e@),
        None => None,
    }
}

/// The twin of an optional borrowed expression.
pub open spec fn view_opt_ref(e: Option<&CExpr>) -> Option<Expr> {
    match e {
        Some(e) => Some(e@),
        None => None,
    }
}

/// A copy of an optional expression.
pub fn dup_opt(e: &Option<CExpr>) -> (r: Option<CExpr>)
    ensures
        view_opt(r) == view_opt(*e),
{
    match e {
        Some(e) => Some(e.dup()),
        None => None,
    }
}

/// Rebuilding an expression from its own parts changes nothing.
pub proof fn rebuilding_is_identity(e: Expr)
    ensures
        with_kids(e, kids(e)) == e,
{
    match e {
        Expr::Call { func, args } => {
            assert(kids(e).skip(1) =~= args);
        },
        _ => {},
    }
}

} // verus!
