//! Expression trees.

use vstd::prelude::*;
use crate::token::{literal_view, LiteralModel, LiteralValue, Token, TokenModel};

verus! {

/// An expression of the language.
#[derive(Debug)]
#[allow(inconsistent_fields)]
pub enum Expr {
    Binary { left: Box<Expr>, operator: Token, right: Box<Expr> },
    Unary { operator: Token, right: Box<Expr> },
    Literal { value: Option<LiteralValue> },
    Grouping { expression: Box<Expr> },
    Variable { name: Token },
    Assign { name: Token, value: Box<Expr> },
    /// Kept apart from `Binary`: the right operand is evaluated only when
    /// the left one does not decide the result.
    Logical { left: Box<Expr>, operator: Token, right: Box<Expr> },
    Call { callee: Box<Expr>, paren: Token, arguments: Vec<Expr> },
}

/// The mathematical value of an [`Expr`].
#[allow(inconsistent_fields)]
pub enum ExprModel {
    Binary { left: Box<ExprModel>, operator: TokenModel, right: Box<ExprModel> },
    Unary { operator: TokenModel, right: Box<ExprModel> },
    Literal { value: Option<LiteralModel> },
    Grouping { expression: Box<ExprModel> },
    Variable { name: TokenModel },
    Assign { name: TokenModel, value: Box<ExprModel> },
    Logical { left: Box<ExprModel>, operator: TokenModel, right: Box<ExprModel> },
    Call { callee: Box<ExprModel>, paren: TokenModel, arguments: Seq<ExprModel> },
}

impl Expr {
    /// The mathematical value of this expression.
    pub open spec fn model(self) -> ExprModel
        decreases self,
    {
        match self {
            Expr::Binary { left, operator, right } => ExprModel::Binary {
                left: Box::new(left.model()),
                operator: operator@,
                right: Box::new(right.model()),
            },
            Expr::Unary { operator, right } => ExprModel::Unary {
                operator: operator@,
                right: Box::new(right.model()),
            },
            Expr::Literal { value } => ExprModel::Literal { value: literal_view(value) },
            Expr::Grouping { expression } => ExprModel::Grouping {
                expression: Box::new(expression.model()),
            },
            Expr::Variable { name } => ExprModel::Variable { name: name@ },
            Expr::Assign { name, value } => ExprModel::Assign {
                name: name@,
                value: Box::new(value.model()),
            },
            Expr::Logical { left, operator, right } => ExprModel::Logical {
                left: Box::new(left.model()),
                operator: operator@,
                right: Box::new(right.model()),
            },
            Expr::Call { callee, paren, arguments } => ExprModel::Call {
                callee: Box::new(callee.model()),
                paren: paren@,
                arguments: Seq::new(
                    arguments@.len(),
                    |i: int|
                        if 0 <= i < arguments@.len() {
                            arguments@[i].model()
                        } else {
                            arbitrary()
                        },
                ),
            },
        }
    }
}

impl View for Expr {
    type V = ExprModel;

    open spec fn view(&self) -> ExprModel {
        self.model()
    }
}

/// The views of a sequence of expressions, in order.
pub open spec fn exprs_view(exprs: Seq<Expr>) -> Seq<ExprModel> {
    exprs.map_values(|e: Expr| e@)
}

impl Expr {
    pub fn binary(left: Expr, operator: Token, right: Expr) -> (r: Self)
        ensures
            r == (Expr::Binary { left: Box::new(left), operator, right: Box::new(right) }),
    {
        Expr::Binary { left: Box::new(left), operator, right: Box::new(right) }
    }

    pub fn unary(operator: Token, right: Expr) -> (r: Self)
        ensures
            r == (Expr::Unary { operator, right: Box::new(right) }),
    {
        Expr::Unary { operator, right: Box::new(right) }
    }

    pub fn literal(value: Option<LiteralValue>) -> (r: Self)
        ensures
            r == (Expr::Literal { value }),
    {
        Expr::Literal { value }
    }

    pub fn grouping(expression: Expr) -> (r: Self)
        ensures
            r == (Expr::Grouping { expression: Box::new(expression) }),
    {
        Expr::Grouping { expression: Box::new(expression) }
    }

    pub fn variable(name: Token) -> (r: Self)
        ensures
            r == (Expr::Variable { name }),
    {
        Expr::Variable { name }
    }

    pub fn assign(name: Token, value: Expr) -> (r: Self)
        ensures
            r == (Expr::Assign { name, value: Box::new(value) }),
    {
        Expr::Assign { name, value: Box::new(value) }
    }

    pub fn logical(left: Expr, operator: Token, right: Expr) -> (r: Self)
        ensures
            r == (Expr::Logical { left: Box::new(left), operator, right: Box::new(right) }),
    {
        Expr::Logical { left: Box::new(left), operator, right: Box::new(right) }
    }

    pub fn call(callee: Expr, paren: Token, arguments: Vec<Expr>) -> (r: Self)
        ensures
            r == (Expr::Call { callee: Box::new(callee), paren, arguments }),
    {
        Expr::Call { callee: Box::new(callee), paren, arguments }
    }

    /// The model of a call lists the models of its arguments in order.
    pub proof fn lemma_call_model(callee: Expr, paren: Token, arguments: Vec<Expr>)
        ensures
            (Expr::Call { callee: Box::new(callee), paren, arguments })@ == (ExprModel::Call {
                callee: Box::new(callee@),
                paren: paren@,
                arguments: exprs_view(arguments@),
            }),
    {
        let r = Expr::Call { callee: Box::new(callee), paren, arguments };
        assert(r@->Call_arguments =~= exprs_view(arguments@));
    }
}

/// Something that handles each kind of expression in its own way. The
/// expression as a whole comes with its parts.
pub trait ExprVisitor<T>: Sized {
    /// Whether handling `expr` may turn this visitor into `after` and give
    /// `result`. A visitor that says nothing of itself allows anything.
    open spec fn visited(&self, expr: ExprModel, after: &Self, result: T) -> bool {
        true
    }

    fn visit_binary_expr(&mut self, expr: &Expr, left: &Expr, operator: &Token, right: &Expr) -> (r: T)
        requires
            expr@ == (ExprModel::Binary {
                left: Box::new(left@),
                operator: operator@,
                right: Box::new(right@),
            }),
        ensures
            old(self).visited(expr@, final(self), r),
    ;

    fn visit_unary_expr(&mut self, expr: &Expr, operator: &Token, right: &Expr) -> (r: T)
        requires
            expr@ == (ExprModel::Unary { operator: operator@, right: Box::new(right@) }),
        ensures
            old(self).visited(expr@, final(self), r),
    ;

    fn visit_literal_expr(&mut self, expr: &Expr, value: &Option<LiteralValue>) -> (r: T)
        requires
            expr@ == (ExprModel::Literal { value: literal_view(*value) }),
        ensures
            old(self).visited(expr@, final(self), r),
    ;

    fn visit_grouping_expr(&mut self, expr: &Expr, expression: &Expr) -> (r: T)
        requires
            expr@ == (ExprModel::Grouping { expression: Box::new(expression@) }),
        ensures
            old(self).visited(expr@, final(self), r),
    ;

    fn visit_variable_expr(&mut self, expr: &Expr, name: &Token) -> (r: T)
        requires
            expr@ == (ExprModel::Variable { name: name@ }),
        ensures
            old(self).visited(expr@, final(self), r),
    ;

    fn visit_assign_expr(&mut self, expr: &Expr, name: &Token, value: &Expr) -> (r: T)
        requires
            expr@ == (ExprModel::Assign { name: name@, value: Box::new(value@) }),
        ensures
            old(self).visited(expr@, final(self), r),
    ;

    fn visit_logical_expr(&mut self, expr: &Expr, left: &Expr, operator: &Token, right: &Expr) -> (r: T)
        requires
            expr@ == (ExprModel::Logical {
                left: Box::new(left@),
                operator: operator@,
                right: Box::new(right@),
            }),
        ensures
            old(self).visited(expr@, final(self), r),
    ;

    fn visit_call_expr(&mut self, expr: &Expr, callee: &Expr, paren: &Token, arguments: &Vec<Expr>) -> (r: T)
        requires
            expr@ == (ExprModel::Call {
                callee: Box::new(callee@),
                paren: paren@,
                arguments: exprs_view(arguments@),
            }),
        ensures
            old(self).visited(expr@, final(self), r),
    ;
}

impl Expr {
    /// Hands the expression to the method of `visitor` that is meant for
    /// its kind, and hands back what that method gives.
    pub fn accept<T, V: ExprVisitor<T>>(&self, visitor: &mut V) -> (r: T)
        ensures
            old(visitor).visited(self@, final(visitor), r),
    {
        match self {
            Expr::Binary { left, operator, right } => visitor.visit_binary_expr(self, left, operator, right),
            Expr::Grouping { expression } => visitor.visit_grouping_expr(self, expression),
            Expr::Literal { value } => visitor.visit_literal_expr(self, value),
            Expr::Unary { operator, right } => visitor.visit_unary_expr(self, operator, right),
            Expr::Variable { name } => visitor.visit_variable_expr(self, name),
            Expr::Assign { name, value } => visitor.visit_assign_expr(self, name, value),
            Expr::Logical { left, operator, right } => visitor.visit_logical_expr(
                self,
                left,
                operator,
                right,
            ),
            Expr::Call { callee, paren, arguments } => {
                assert(self@->Call_arguments =~= exprs_view(arguments@));
                visitor.visit_call_expr(self, callee, paren, arguments)
            },
        }
    }
}

impl Clone for Expr {
    #[verifier::loop_isolation(false)]
    fn clone(&self) -> (r: Self)
        ensures
            r@ == self@,
        decreases self,
    {
        match self {
            Expr::Binary { left, operator, right } => Expr::Binary {
                left: Box::new((&**left).clone()),
                operator: operator.clone(),
                right: Box::new((&**right).clone()),
            },
            Expr::Unary { operator, right } => Expr::Unary {
                operator: operator.clone(),
                right: Box::new((&**right).clone()),
            },
            Expr::Literal { value } => {
                let value = match value {
                    Some(l) => Some(l.clone()),
                    None => None,
                };
                Expr::Literal { value }
            },
            Expr::Grouping { expression } => Expr::Grouping {
                expression: Box::new((&**expression).clone()),
            },
            Expr::Variable { name } => Expr::Variable { name: name.clone() },
            Expr::Assign { name, value } => Expr::Assign {
                name: name.clone(),
                value: Box::new((&**value).clone()),
            },
            Expr::Logical { left, operator, right } => Expr::Logical {
                left: Box::new((&**left).clone()),
                operator: operator.clone(),
                right: Box::new((&**right).clone()),
            },
            Expr::Call { callee, paren, arguments } => {
                let mut out: Vec<Expr> = Vec::new();
                let mut i: usize = 0;
                while i < arguments.len()
                    invariant
                        i <= arguments.len(),
                        out@.len() == i,
                        forall|j: int| 0 <= j < i ==> out@[j]@ == arguments@[j]@,
                    decreases arguments.len() - i,
                {
                    out.push(arguments[i].clone());
                    i += 1;
                }
                let r = Expr::Call {
                    callee: Box::new((&**callee).clone()),
                    paren: paren.clone(),
                    arguments: out,
                };
                assert(r@->Call_arguments =~= self@->Call_arguments);
                r
            },
        }
    }
}

/// Appending an expression appends its view.
pub proof fn lemma_exprs_view_push(list: Seq<Expr>, last: Expr)
    ensures
        exprs_view(list.push(last)) == exprs_view(list).push(last@),
{
    assert(exprs_view(list.push(last)) =~= exprs_view(list).push(last@));
}

} // verus!
