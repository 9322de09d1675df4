//! Statement trees.

use vstd::prelude::*;
use crate::expr::{Expr, ExprModel};
use crate::token::{tokens_view, clone_tokens, Token, TokenModel};

verus! {

/// A statement of the language.
#[derive(Debug)]
#[allow(inconsistent_fields)]
pub enum Stmt {
    Expression { expression: Box<Expr> },
    Print { expression: Box<Expr> },
    Var { name: Token, initializer: Option<Box<Expr>> },
    Block { statements: Vec<Stmt> },
    If { condition: Box<Expr>, then_branch: Box<Stmt>, else_branch: Option<Box<Stmt>> },
    While { condition: Box<Expr>, body: Box<Stmt> },
    Function { name: Token, params: Vec<Token>, body: Vec<Stmt> },
    Return { keyword: Token, value: Option<Box<Expr>> },
}

/// The mathematical value of a [`Stmt`].
#[allow(inconsistent_fields)]
pub enum StmtModel {
    Expression { expression: ExprModel },
    Print { expression: ExprModel },
    Var { name: TokenModel, initializer: Option<ExprModel> },
    Block { statements: Seq<StmtModel> },
    If { condition: ExprModel, then_branch: Box<StmtModel>, else_branch: Option<Box<StmtModel>> },
    While { condition: ExprModel, body: Box<StmtModel> },
    Function { name: TokenModel, params: Seq<TokenModel>, body: Seq<StmtModel> },
    Return { keyword: TokenModel, value: Option<ExprModel> },
}

/// The view of an optional boxed expression.
pub open spec fn optional_expr_view(e: Option<Box<Expr>>) -> Option<ExprModel> {
    match e {
        Some(e) => Some(e@),
        None => None,
    }
}

impl Stmt {
    /// The mathematical value of this statement.
    pub open spec fn model(self) -> StmtModel
        decreases self,
    {
        match self {
            Stmt::Expression { expression } => StmtModel::Expression { expression: expression@ },
            Stmt::Print { expression } => StmtModel::Print { expression: expression@ },
            Stmt::Var { name, initializer } => StmtModel::Var {
                name: name@,
                initializer: optional_expr_view(initializer),
            },
            Stmt::Block { statements } => StmtModel::Block {
                statements: Seq::new(
                    statements@.len(),
                    |i: int|
                        if 0 <= i < statements@.len() {
                            statements@[i].model()
                        } else {
                            arbitrary()
                        },
                ),
            },
            Stmt::If { condition, then_branch, else_branch } => StmtModel::If {
                condition: condition@,
                then_branch: Box::new(then_branch.model()),
                else_branch: match else_branch {
                    Some(e) => Some(Box::new(e.model())),
                    None => None,
                },
            },
            Stmt::While { condition, body } => StmtModel::While {
                condition: condition@,
                body: Box::new(body.model()),
            },
            Stmt::Function { name, params, body } => StmtModel::Function {
                name: name@,
                params: tokens_view(params@),
                body: Seq::new(
                    body@.len(),
                    |i: int|
                        if 0 <= i < body@.len() {
                            body@[i].model()
                        } else {
                            arbitrary()
                        },
                ),
            },
            Stmt::Return { keyword, value } => StmtModel::Return {
                keyword: keyword@,
                value: optional_expr_view(value),
            },
        }
    }
}

impl View for Stmt {
    type V = StmtModel;

    open spec fn view(&self) -> StmtModel {
        self.model()
    }
}

/// The views of a sequence of statements, in order.
pub open spec fn stmts_view(stmts: Seq<Stmt>) -> Seq<StmtModel> {
    stmts.map_values(|s: Stmt| s@)
}

impl Stmt {
    pub fn expression(expr: Expr) -> (r: Self)
        ensures
            r == (Stmt::Expression { expression: Box::new(expr) }),
    {
        Stmt::Expression { expression: Box::new(expr) }
    }

    pub fn print(expr: Expr) -> (r: Self)
        ensures
            r == (Stmt::Print { expression: Box::new(expr) }),
    {
        Stmt::Print { expression: Box::new(expr) }
    }

    pub fn var(name: Token, initializer: Option<Expr>) -> (r: Self)
        ensures
            r@ == (StmtModel::Var {
                name: name@,
                initializer: match initializer {
                    Some(e) => Some(e@),
                    None => None,
                },
            }),
    {
        let initializer = match initializer {
            Some(e) => Some(Box::new(e)),
            None => None,
        };
        Stmt::Var { name, initializer }
    }

    pub fn block(statements: Vec<Stmt>) -> (r: Self)
        ensures
            r == (Stmt::Block { statements }),
            r@ == (StmtModel::Block { statements: stmts_view(statements@) }),
    {
        let r = Stmt::Block { statements };
        assert(r@->Block_statements =~= stmts_view(statements@));
        r
    }

    pub fn if_stmt(condition: Expr, then_branch: Stmt, else_branch: Option<Stmt>) -> (r: Self)
        ensures
            r@ == (StmtModel::If {
                condition: condition@,
                then_branch: Box::new(then_branch@),
                else_branch: match else_branch {
                    Some(e) => Some(Box::new(e@)),
                    None => None,
                },
            }),
    {
        let else_branch = match else_branch {
            Some(e) => Some(Box::new(e)),
            None => None,
        };
        Stmt::If { condition: Box::new(condition), then_branch: Box::new(then_branch), else_branch }
    }

    pub fn while_stmt(condition: Expr, body: Stmt) -> (r: Self)
        ensures
            r == (Stmt::While { condition: Box::new(condition), body: Box::new(body) }),
    {
        Stmt::While { condition: Box::new(condition), body: Box::new(body) }
    }

    pub fn function(name: Token, params: Vec<Token>, body: Vec<Stmt>) -> (r: Self)
        ensures
            r == (Stmt::Function { name, params, body }),
            r@ == (StmtModel::Function {
                name: name@,
                params: tokens_view(params@),
                body: stmts_view(body@),
            }),
    {
        let r = Stmt::Function { name, params, body };
        assert(r@->Function_body =~= stmts_view(body@));
        r
    }

    pub fn return_stmt(keyword: Token, value: Option<Expr>) -> (r: Self)
        ensures
            r@ == (StmtModel::Return {
                keyword: keyword@,
                value: match value {
                    Some(e) => Some(e@),
                    None => None,
                },
            }),
    {
        let value = match value {
            Some(e) => Some(Box::new(e)),
            None => None,
        };
        Stmt::Return { keyword, value }
    }
}

/// Something that handles each kind of statement in its own way. The
/// statement as a whole comes with its parts.
pub trait StmtVisitor<T>: Sized {
    /// Whether handling `stmt` may turn this visitor into `after` and give
    /// `result`. A visitor that says nothing of itself allows anything.
    open spec fn visited(&self, stmt: StmtModel, after: &Self, result: T) -> bool {
        true
    }

    fn visit_expression_stmt(&mut self, stmt: &Stmt, expression: &Expr) -> (r: T)
        requires
            stmt@ == (StmtModel::Expression { expression: expression@ }),
        ensures
            old(self).visited(stmt@, final(self), r),
    ;

    fn visit_print_stmt(&mut self, stmt: &Stmt, expression: &Expr) -> (r: T)
        requires
            stmt@ == (StmtModel::Print { expression: expression@ }),
        ensures
            old(self).visited(stmt@, final(self), r),
    ;

    fn visit_var_stmt(&mut self, stmt: &Stmt, name: &Token, initializer: &Option<Box<Expr>>) -> (r: T)
        requires
            stmt@ == (StmtModel::Var { name: name@, initializer: optional_expr_view(*initializer) }),
        ensures
            old(self).visited(stmt@, final(self), r),
    ;

    fn visit_block_stmt(&mut self, stmt: &Stmt, statements: &Vec<Stmt>) -> (r: T)
        requires
            stmt@ == (StmtModel::Block { statements: stmts_view(statements@) }),
        ensures
            old(self).visited(stmt@, final(self), r),
    ;

    fn visit_if_stmt(
        &mut self,
        stmt: &Stmt,
        condition: &Expr,
        then_branch: &Stmt,
        else_branch: &Option<Box<Stmt>>,
    ) -> (r: T)
        requires
            stmt@ == (StmtModel::If {
                condition: condition@,
                then_branch: Box::new(then_branch@),
                else_branch: match *else_branch {
                    Some(e) => Some(Box::new(e@)),
                    None => None,
                },
            }),
        ensures
            old(self).visited(stmt@, final(self), r),
    ;

    fn visit_while_stmt(&mut self, stmt: &Stmt, condition: &Expr, body: &Stmt) -> (r: T)
        requires
            stmt@ == (StmtModel::While { condition: condition@, body: Box::new(body@) }),
        ensures
            old(self).visited(stmt@, final(self), r),
    ;

    fn visit_function_stmt(&mut self, stmt: &Stmt, name: &Token, params: &Vec<Token>, body: &Vec<Stmt>) -> (r: T)
        requires
            stmt@ == (StmtModel::Function {
                name: name@,
                params: tokens_view(params@),
                body: stmts_view(body@),
            }),
        ensures
            old(self).visited(stmt@, final(self), r),
    ;

    fn visit_return_stmt(&mut self, stmt: &Stmt, keyword: &Token, value: &Option<Box<Expr>>) -> (r: T)
        requires
            stmt@ == (StmtModel::Return { keyword: keyword@, value: optional_expr_view(*value) }),
        ensures
            old(self).visited(stmt@, final(self), r),
    ;
}

impl Stmt {
    /// Hands the statement to the method of `visitor` that is meant for
    /// its kind, and hands back what that method gives.
    pub fn accept<T, V: StmtVisitor<T>>(&self, visitor: &mut V) -> (r: T)
        ensures
            old(visitor).visited(self@, final(visitor), r),
    {
        match self {
            Stmt::Expression { expression } => visitor.visit_expression_stmt(self, expression),
            Stmt::Print { expression } => visitor.visit_print_stmt(self, expression),
            Stmt::Var { name, initializer } => visitor.visit_var_stmt(self, name, initializer),
            Stmt::Block { statements } => {
                assert(self@->Block_statements =~= stmts_view(statements@));
                visitor.visit_block_stmt(self, statements)
            },
            Stmt::If { condition, then_branch, else_branch } => visitor.visit_if_stmt(
                self,
                condition,
                then_branch,
                else_branch,
            ),
            Stmt::While { condition, body } => visitor.visit_while_stmt(self, condition, body),
            Stmt::Function { name, params, body } => {
                assert(self@->Function_body =~= stmts_view(body@));
                visitor.visit_function_stmt(self, name, params, body)
            },
            Stmt::Return { keyword, value } => visitor.visit_return_stmt(self, keyword, value),
        }
    }
}

/// Copies a list of statements.
pub fn clone_stmts(stmts: &Vec<Stmt>) -> (r: Vec<Stmt>)
    ensures
        stmts_view(r@) == stmts_view(stmts@),
    decreases stmts,
{
    let mut out: Vec<Stmt> = Vec::new();
    let mut i: usize = 0;
    while i < stmts.len()
        invariant
            i <= stmts.len(),
            out@.len() == i,
            forall|j: int| 0 <= j < i ==> out@[j]@ == stmts@[j]@,
        decreases stmts.len() - i,
    {
        out.push(stmts[i].clone());
        i += 1;
    }
    assert(stmts_view(out@) =~= stmts_view(stmts@));
    out
}

impl Clone for Stmt {
    fn clone(&self) -> (r: Self)
        ensures
            r@ == self@,
        decreases self,
    {
        match self {
            Stmt::Expression { expression } => Stmt::Expression {
                expression: Box::new((&**expression).clone()),
            },
            Stmt::Print { expression } => Stmt::Print {
                expression: Box::new((&**expression).clone()),
            },
            Stmt::Var { name, initializer } => {
                let initializer = match initializer {
                    Some(e) => Some(Box::new((&**e).clone())),
                    None => None,
                };
                Stmt::Var { name: name.clone(), initializer }
            },
            Stmt::Block { statements } => {
                let copy = clone_stmts(statements);
                assert(self@->Block_statements =~= stmts_view(statements@));
                Stmt::block(copy)
            },
            Stmt::If { condition, then_branch, else_branch } => {
                let else_branch = match else_branch {
                    Some(e) => Some(Box::new((&**e).clone())),
                    None => None,
                };
                Stmt::If {
                    condition: Box::new((&**condition).clone()),
                    then_branch: Box::new((&**then_branch).clone()),
                    else_branch,
                }
            },
            Stmt::While { condition, body } => Stmt::While {
                condition: Box::new((&**condition).clone()),
                body: Box::new((&**body).clone()),
            },
            Stmt::Function { name, params, body } => {
                let copy = clone_stmts(body);
                assert(self@->Function_body =~= stmts_view(body@));
                Stmt::function(name.clone(), clone_tokens(params), copy)
            },
            Stmt::Return { keyword, value } => {
                let value = match value {
                    Some(e) => Some(Box::new((&**e).clone())),
                    None => None,
                };
                Stmt::Return { keyword: keyword.clone(), value }
            },
        }
    }
}

/// Appending a statement appends its view.
pub proof fn lemma_stmts_view_push(list: Seq<Stmt>, last: Stmt)
    ensures
        stmts_view(list.push(last)) == stmts_view(list).push(last@),
{
    assert(stmts_view(list.push(last)) =~= stmts_view(list).push(last@));
}

} // verus!
