//! C statements.

use crate::ast::expr::{dup_opt, view_opt, CExpr, Expr};
use crate::ast::types::{CType, Type};
use crate::text::{copy_of, same};
use vstd::prelude::*;

verus! {

/// A C statement.
#[derive(Debug)]
pub enum CStmt {
    Expr(CExpr),
    Decl { ty: CType, name: String, init: Option<CExpr> },
    Block(Vec<CStmt>),
    If { cond: CExpr, then_body: Box<CStmt>, else_body: Option<Box<CStmt>> },
    While { cond: CExpr, body: Box<CStmt> },
    DoWhile { body: Box<CStmt>, cond: CExpr },
    For {
        init: Option<Box<CStmt>>,
        cond: Option<CExpr>,
        update: Option<CExpr>,
        body: Box<CStmt>,
    },
    Switch { expr: CExpr, cases: Vec<SwitchCase>, default: Option<Vec<CStmt>> },
    Return(Option<CExpr>),
    Comment(String),
    Break,
    Continue,
    Goto(String),
    Label(String),
    Empty,
}

/// One case of a switch.
#[derive(Debug)]
pub struct SwitchCase {
    pub value: CExpr,
    pub body: Vec<CStmt>,
}

/// A C statement, as a mathematical value.
pub enum Stmt {
    Expr(Expr),
    Decl { ty: Type, name: Seq<char>, init: Option<Expr> },
    Block(Seq<Stmt>),
    If { cond: Expr, then_body: Box<Stmt>, else_body: Option<Box<Stmt>> },
    While { cond: Expr, body: Box<Stmt> },
    DoWhile { body: Box<Stmt>, cond: Expr },
    For {
        init: Option<Box<Stmt>>,
        cond: Option<Expr>,
        update: Option<Expr>,
        body: Box<Stmt>,
    },
    Switch { expr: Expr, cases: Seq<Case>, default: Option<Seq<Stmt>> },
    Return(Option<Expr>),
    Comment(Seq<char>),
    Break,
    Continue,
    Goto(Seq<char>),
    Label(Seq<char>),
    Empty,
}

/// One case of a switch, as a mathematical value.
pub struct Case {
    pub value: Expr,
    pub body: Seq<Stmt>,
}

/// The twins of a list of statements.
pub open spec fn stmt_views(list: Seq<CStmt>) -> Seq<Stmt>
    decreases list,
{
    Seq::new(
        list.len(),
        |i: int|
            if 0 <= i < list.len() {
                list[i].view()
            } else {
                arbitrary()
            },
    )
}

/// The twins of a list of cases.
pub open spec fn case_views(list: Seq<SwitchCase>) -> Seq<Case>
    decreases list,
{
    Seq::new(
        list.len(),
        |i: int|
            if 0 <= i < list.len() {
                list[i].view()
            } else {
                arbitrary()
            },
    )
}

impl SwitchCase {
    pub open spec fn view(&self) -> Case
        decreases self,
    {
        Case { value: self.value@, body: stmt_views(self.body@) }
    }
}

impl CStmt {
    pub open spec fn view(&self) -> Stmt
        decreases self,
    {
        match *self {
            CStmt::Expr(e) => Stmt::Expr(e@),
            CStmt::Decl { ty, name, init } => Stmt::Decl {
                ty: ty@,
                name: name@,
                init: view_opt(init),
            },
            CStmt::Block(list) => Stmt::Block(stmt_views(list@)),
            CStmt::If { cond, then_body, else_body } => Stmt::If {
                cond: cond@,
                then_body: Box::new(then_body.view()),
                else_body: match else_body {
                    Some(body) => Some(Box::new(body.view())),
                    None => None,
                },
            },
            CStmt::While { cond, body } => Stmt::While { cond: cond@, body: Box::new(body.view()) },
            CStmt::DoWhile { body, cond } => Stmt::DoWhile {
                body: Box::new(body.view()),
                cond: cond@,
            },
            CStmt::For { init, cond, update, body } => Stmt::For {
                init: match init {
                    Some(init) => Some(Box::new(init.view())),
                    None => None,
                },
                cond: view_opt(cond),
                update: view_opt(update),
                body: Box::new(body.view()),
            },
            CStmt::Switch { expr, cases, default } => Stmt::Switch {
                expr: expr@,
                cases: case_views(cases@),
                default: match default {
                    Some(list) => Some(stmt_views(list@)),
                    None => None,
                },
            },
            CStmt::Return(e) => Stmt::Return(view_opt(e)),
            CStmt::Comment(text) => Stmt::Comment(text@),
            CStmt::Break => Stmt::Break,
            CStmt::Continue => Stmt::Continue,
            CStmt::Goto(label) => Stmt::Goto(label@),
            CStmt::Label(label) => Stmt::Label(label@),
            CStmt::Empty => Stmt::Empty,
        }
    }

    /// A comment.
    pub fn comment(text: &str) -> (r: CStmt)
        ensures
            r@ == Stmt::Comment(text@),
    {
        CStmt::Comment(copy_of(text))
    }

    /// A copy of this statement.
    pub fn dup(&self) -> (r: CStmt)
        ensures
            r@ == self@,
        decreases self,
    {
        match self {
            CStmt::Expr(e) => CStmt::Expr(e.dup()),
            CStmt::Decl { ty, name, init } => CStmt::Decl {
                ty: ty.dup(),
                name: copy_of(name),
                init: dup_opt(init),
            },
            CStmt::Block(list) => CStmt::Block(dup_stmts(list)),
            CStmt::If { cond, then_body, else_body } => CStmt::If {
                cond: cond.dup(),
                then_body: Box::new(then_body.dup()),
                else_body: match else_body {
                    Some(body) => Some(Box::new(body.dup())),
                    None => None,
                },
            },
            CStmt::While { cond, body } => CStmt::While {
                cond: cond.dup(),
                body: Box::new(body.dup()),
            },
            CStmt::DoWhile { body, cond } => CStmt::DoWhile {
                body: Box::new(body.dup()),
                cond: cond.dup(),
            },
            CStmt::For { init, cond, update, body } => CStmt::For {
                init: match init {
                    Some(init) => Some(Box::new(init.dup())),
                    None => None,
                },
                cond: dup_opt(cond),
                update: dup_opt(update),
                body: Box::new(body.dup()),
            },
            CStmt::Switch { expr, cases, default } => CStmt::Switch {
                expr: expr.dup(),
                cases: dup_cases(cases),
                default: match default {
                    Some(list) => Some(dup_stmts(list)),
                    None => None,
                },
            },
            CStmt::Return(e) => CStmt::Return(dup_opt(e)),
            CStmt::Comment(text) => CStmt::Comment(copy_of(text)),
            CStmt::Break => CStmt::Break,
            CStmt::Continue => CStmt::Continue,
            CStmt::Goto(label) => CStmt::Goto(copy_of(label)),
            CStmt::Label(label) => CStmt::Label(copy_of(label)),
            CStmt::Empty => CStmt::Empty,
        }
    }

    /// Are two statements the same?
    pub fn same(&self, other: &CStmt) -> (r: bool)
        ensures
            r == (self@ == other@),
        decreases self,
    {
        match (self, other) {
            (CStmt::Expr(a), CStmt::Expr(b)) => a.same(b),
            (
                CStmt::Decl { ty: t, name: n, init: i },
                CStmt::Decl { ty: u, name: m, init: j },
            ) => t.same(u) && same(n, m) && same_opt(i, j),
            (CStmt::Block(a), CStmt::Block(b)) => same_stmts(a, b),
            (
                CStmt::If { cond: c, then_body: t, else_body: e },
                CStmt::If { cond: d, then_body: u, else_body: f },
            ) => c.same(d) && t.same(u) && match (e, f) {
                (Some(a), Some(b)) => a.same(b),
                (None, None) => true,
                _ => false,
            },
            (CStmt::While { cond: c, body: a }, CStmt::While { cond: d, body: b }) => c.same(d)
                && a.same(b),
            (CStmt::DoWhile { body: a, cond: c }, CStmt::DoWhile { body: b, cond: d }) => a.same(b)
                && c.same(d),
            (
                CStmt::For { init: i, cond: c, update: u, body: a },
                CStmt::For { init: j, cond: d, update: v, body: b },
            ) => same_opt(c, d) && same_opt(u, v) && a.same(b) && match (i, j) {
                (Some(x), Some(y)) => x.same(y),
                (None, None) => true,
                _ => false,
            },
            (
                CStmt::Switch { expr: e, cases: c, default: a },
                CStmt::Switch { expr: f, cases: d, default: b },
            ) => e.same(f) && same_cases(c, d) && match (a, b) {
                (Some(x), Some(y)) => same_stmts(x, y),
                (None, None) => true,
                _ => false,
            },
            (CStmt::Return(a), CStmt::Return(b)) => same_opt(a, b),
            (CStmt::Comment(a), CStmt::Comment(b)) => same(a, b),
            (CStmt::Break, CStmt::Break) => true,
            (CStmt::Continue, CStmt::Continue) => true,
            (CStmt::Goto(a), CStmt::Goto(b)) => same(a, b),
            (CStmt::Label(a), CStmt::Label(b)) => same(a, b),
            (CStmt::Empty, CStmt::Empty) => true,
            _ => false,
        }
    }
}

fn same_opt(a: &Option<CExpr>, b: &Option<CExpr>) -> (r: bool)
    ensures
        r == (view_opt(*a) == view_opt(*b)),
{
    match (a, b) {
        (Some(x), Some(y)) => x.same(y),
        (None, None) => true,
        _ => false,
    }
}

/// A copy of a list of statements.
pub fn dup_stmts(list: &Vec<CStmt>) -> (r: Vec<CStmt>)
    ensures
        stmt_views(r@) == stmt_views(list@),
    decreases list,
{
    let mut out: Vec<CStmt> = Vec::new();
    for i in 0..list.len()
        invariant
            out@.len() == i,
            forall|j: int| 0 <= j < i ==> (#[trigger] out@[j])@ == list@[j]@,
    {
        out.push(list[i].dup());
    }
    assert(stmt_views(out@) =~= stmt_views(list@));
    out
}

fn dup_cases(list: &Vec<SwitchCase>) -> (r: Vec<SwitchCase>)
    ensures
        case_views(r@) == case_views(list@),
    decreases list,
{
    let mut out: Vec<SwitchCase> = Vec::new();
    for i in 0..list.len()
        invariant
            out@.len() == i,
            forall|j: int| 0 <= j < i ==> (#[trigger] out@[j])@ == list@[j]@,
    {
        let case = &list[i];
        out.push(SwitchCase { value: case.value.dup(), body: dup_stmts(&case.body) });
    }
    assert(case_views(out@) =~= case_views(list@));
    out
}

/// Are two lists of statements the same?
pub fn same_stmts(a: &Vec<CStmt>, b: &Vec<CStmt>) -> (r: bool)
    ensures
        r == (stmt_views(a@) == stmt_views(b@)),
    decreases a,
{
    if a.len() != b.len() {
        assert(stmt_views(a@).len() != stmt_views(b@).len());
        return false;
    }
    for i in 0..a.len()
        invariant
            a@.len() == b@.len(),
            forall|j: int| 0 <= j < i ==> (#[trigger] a@[j])@ == b@[j]@,
    {
        if !a[i].same(&b[i]) {
            assert(stmt_views(a@)[i as int] != stmt_views(b@)[i as int]);
            return false;
        }
    }
    assert(stmt_views(a@) =~= stmt_views(b@));
    true
}

fn same_cases(a: &Vec<SwitchCase>, b: &Vec<SwitchCase>) -> (r: bool)
    ensures
        r == (case_views(a@) == case_views(b@)),
    decreases a,
{
    if a.len() != b.len() {
        assert(case_views(a@).len() != case_views(b@).len());
        return false;
    }
    for i in 0..a.len()
        invariant
            a@.len() == b@.len(),
            forall|j: int| 0 <= j < i ==> (#[trigger] a@[j])@ == b@[j]@,
    {
        if !(a[i].value.same(&b[i].value) && same_stmts(&a[i].body, &b[i].body)) {
            assert(case_views(a@)[i as int] != case_views(b@)[i as int]);
            return false;
        }
    }
    assert(case_views(a@) =~= case_views(b@));
    true
}

/// The twin of an optional statement.
pub open spec fn view_opt_stmt(s: Option<CStmt>) -> Option<Stmt> {
    match s {
        Some(s) => Some(s@),
        None => None,
    }
}

/// An assignment statement.
pub open spec fn assignment(lhs: Expr, rhs: Expr) -> Stmt {
    Stmt::Expr(crate::ast::expr::binary(crate::ast::expr::BinaryOp::Assign, lhs, rhs))
}

} // verus!
