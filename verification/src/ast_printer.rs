//! Expressions in prefix notation, such as `(* (- 123) (group 45.67))`.
//!
//! A number is not written out here: the printer hands back pieces, and a
//! piece is a text or a number whose numeral is still to be written.

use vstd::prelude::*;
use vstd::string::StringExecFns;
use crate::expr::{Expr, ExprModel, ExprVisitor};
use crate::token::{LiteralModel, LiteralValue, Token};

verus! {

/// A piece of printed output.
#[derive(Debug)]
pub enum Fragment {
    Text(String),
    Number(u64),
}

/// The mathematical value of a [`Fragment`].
pub enum FragmentModel {
    Text(Seq<char>),
    Number(u64),
}

impl View for Fragment {
    type V = FragmentModel;

    open spec fn view(&self) -> FragmentModel {
        match self {
            Fragment::Text(t) => FragmentModel::Text(t@),
            Fragment::Number(n) => FragmentModel::Number(*n),
        }
    }
}

/// The views of a sequence of fragments, in order.
pub open spec fn fragments_view(fragments: Seq<Fragment>) -> Seq<FragmentModel> {
    fragments.map_values(|f: Fragment| f@)
}

/// A literal in print: the characters of a string, the number itself,
/// `true`, `false` or `nil`.
pub open spec fn printed_literal(value: Option<LiteralModel>) -> FragmentModel {
    match value {
        Some(LiteralModel::String(s)) => FragmentModel::Text(s),
        Some(LiteralModel::Number(n)) => FragmentModel::Number(n),
        Some(LiteralModel::Boolean(b)) => FragmentModel::Text(
            if b {
                "true"@
            } else {
                "false"@
            },
        ),
        Some(LiteralModel::Nil) => FragmentModel::Text("nil"@),
        None => FragmentModel::Text("nil"@),
    }
}

/// The text that opens a group: a parenthesis and the group's name.
pub open spec fn opening(name: Seq<char>) -> FragmentModel {
    FragmentModel::Text("("@ + name)
}

/// A blank.
pub open spec fn blank() -> FragmentModel {
    FragmentModel::Text(" "@)
}

/// The text that closes a group.
pub open spec fn closing() -> FragmentModel {
    FragmentModel::Text(")"@)
}

/// `out`, then each of the expressions behind a blank.
pub open spec fn written_all(out: Seq<FragmentModel>, expressions: Seq<ExprModel>) -> Seq<FragmentModel>
    decreases expressions, 0nat,
{
    if expressions.len() == 0 {
        out
    } else {
        written(written_all(out, expressions.drop_last()).push(blank()), expressions.last())
    }
}

/// `out`, then the expression: a literal or a name as it is, anything
/// else as a group `(NAME PART ...)`. The group of a binary, unary or
/// logical expression is named by its operator; a grouping is named
/// `group`, an assignment `=` with the variable as its first part, a
/// call `call` with the callee as its first part.
pub open spec fn written(out: Seq<FragmentModel>, expression: ExprModel) -> Seq<FragmentModel>
    decreases expression, 1nat,
{
    match expression {
        ExprModel::Binary { left, operator, right } => written(
            written(out.push(opening(operator.lexeme)).push(blank()), *left).push(blank()),
            *right,
        ).push(closing()),
        ExprModel::Logical { left, operator, right } => written(
            written(out.push(opening(operator.lexeme)).push(blank()), *left).push(blank()),
            *right,
        ).push(closing()),
        ExprModel::Unary { operator, right } => written(
            out.push(opening(operator.lexeme)).push(blank()),
            *right,
        ).push(closing()),
        ExprModel::Literal { value } => out.push(printed_literal(value)),
        ExprModel::Grouping { expression } => written(
            out.push(opening("group"@)).push(blank()),
            *expression,
        ).push(closing()),
        ExprModel::Variable { name } => out.push(FragmentModel::Text(name.lexeme)),
        ExprModel::Assign { name, value } => written(
            out.push(opening("="@)).push(blank()).push(FragmentModel::Text(name.lexeme)).push(blank()),
            *value,
        ).push(closing()),
        ExprModel::Call { callee, paren, arguments } => written_all(
            written(out.push(opening("call"@)).push(blank()), *callee),
            arguments,
        ).push(closing()),
    }
}

/// An expression in print.
pub open spec fn printed(expression: ExprModel) -> Seq<FragmentModel> {
    written(Seq::empty(), expression)
}

/// Prints expressions.
pub struct AstPrinter;

impl AstPrinter {
    pub fn new() -> (r: Self) {
        Self
    }

    /// The expression in prefix notation.
    pub fn print(&mut self, expr: &Expr) -> (r: Vec<Fragment>)
        ensures
            fragments_view(r@) == printed(expr@),
    {
        expr.accept(self)
    }

    /// The expression in prefix notation, whatever its kind.
    fn whole(expr: &Expr) -> (r: Vec<Fragment>)
        ensures
            fragments_view(r@) == printed(expr@),
    {
        let mut out: Vec<Fragment> = Vec::new();
        assert(fragments_view(out@) =~= Seq::<FragmentModel>::empty());
        Self::write(expr, &mut out);
        out
    }

    fn text(out: &mut Vec<Fragment>, text: &str)
        ensures
            fragments_view(final(out)@) == fragments_view(old(out)@).push(FragmentModel::Text(text@)),
    {
        out.push(Fragment::Text(String::from_str(text)));
        assert(fragments_view(out@) =~= fragments_view(old(out)@).push(FragmentModel::Text(text@)));
    }

    fn open(out: &mut Vec<Fragment>, name: &str)
        ensures
            fragments_view(final(out)@) == fragments_view(old(out)@).push(opening(name@)).push(blank()),
    {
        let mut head = String::from_str("(");
        head.append(name);
        out.push(Fragment::Text(head));
        out.push(Fragment::Text(String::from_str(" ")));
        assert(fragments_view(out@) =~= fragments_view(old(out)@).push(opening(name@)).push(blank()));
    }

    fn literal(out: &mut Vec<Fragment>, value: &Option<LiteralValue>)
        ensures
            fragments_view(final(out)@) == fragments_view(old(out)@).push(
                printed_literal(crate::token::literal_view(*value)),
            ),
    {
        let piece = match value {
            Some(LiteralValue::String(s)) => Fragment::Text(s.clone()),
            Some(LiteralValue::Number(n)) => Fragment::Number(*n),
            Some(LiteralValue::Boolean(b)) => Fragment::Text(
                if *b {
                    String::from_str("true")
                } else {
                    String::from_str("false")
                },
            ),
            Some(LiteralValue::Nil) => Fragment::Text(String::from_str("nil")),
            None => Fragment::Text(String::from_str("nil")),
        };
        out.push(piece);
        assert(fragments_view(out@) =~= fragments_view(old(out)@).push(
            printed_literal(crate::token::literal_view(*value)),
        ));
    }

    /// Writes the expression behind what `out` holds.
    #[verifier::loop_isolation(false)]
    fn write(expr: &Expr, out: &mut Vec<Fragment>)
        ensures
            fragments_view(final(out)@) == written(fragments_view(old(out)@), expr@),
        decreases expr,
    {
        match expr {
            Expr::Binary { left, operator, right } => {
                Self::open(out, operator.lexeme.as_str());
                Self::write(left, out);
                Self::text(out, " ");
                Self::write(right, out);
                Self::text(out, ")");
            },
            Expr::Logical { left, operator, right } => {
                Self::open(out, operator.lexeme.as_str());
                Self::write(left, out);
                Self::text(out, " ");
                Self::write(right, out);
                Self::text(out, ")");
            },
            Expr::Unary { operator, right } => {
                Self::open(out, operator.lexeme.as_str());
                Self::write(right, out);
                Self::text(out, ")");
            },
            Expr::Literal { value } => {
                Self::literal(out, value);
            },
            Expr::Grouping { expression } => {
                Self::open(out, "group");
                Self::write(expression, out);
                Self::text(out, ")");
            },
            Expr::Variable { name } => {
                Self::text(out, name.lexeme.as_str());
            },
            Expr::Assign { name, value } => {
                Self::open(out, "=");
                Self::text(out, name.lexeme.as_str());
                Self::text(out, " ");
                Self::write(value, out);
                Self::text(out, ")");
            },
            Expr::Call { callee, paren, arguments } => {
                Self::open(out, "call");
                Self::write(callee, out);
                let ghost base = fragments_view(out@);
                let ghost models = expr@->Call_arguments;
                let mut i: usize = 0;
                while i < arguments.len()
                    invariant
                        i <= arguments.len(),
                        models.len() == arguments@.len(),
                        forall|j: int| 0 <= j < arguments@.len() ==> models[j] == arguments@[j]@,
                        fragments_view(out@) == written_all(base, models.subrange(0, i as int)),
                    decreases arguments.len() - i,
                {
                    Self::text(out, " ");
                    Self::write(&arguments[i], out);
                    assert(models.subrange(0, i + 1).drop_last() =~= models.subrange(0, i as int));
                    i += 1;
                }
                assert(models.subrange(0, i as int) =~= models);
                Self::text(out, ")");
            },
        }
    }
}

impl ExprVisitor<Vec<Fragment>> for AstPrinter {
    open spec fn visited(&self, expr: ExprModel, after: &Self, result: Vec<Fragment>) -> bool {
        fragments_view(result@) == printed(expr)
    }

    fn visit_binary_expr(&mut self, expr: &Expr, left: &Expr, operator: &Token, right: &Expr) -> (r: Vec<
        Fragment,
    >) {
        Self::whole(expr)
    }

    fn visit_unary_expr(&mut self, expr: &Expr, operator: &Token, right: &Expr) -> (r: Vec<Fragment>) {
        Self::whole(expr)
    }

    fn visit_literal_expr(&mut self, expr: &Expr, value: &Option<LiteralValue>) -> (r: Vec<Fragment>) {
        Self::whole(expr)
    }

    fn visit_grouping_expr(&mut self, expr: &Expr, expression: &Expr) -> (r: Vec<Fragment>) {
        Self::whole(expr)
    }

    fn visit_variable_expr(&mut self, expr: &Expr, name: &Token) -> (r: Vec<Fragment>) {
        Self::whole(expr)
    }

    fn visit_assign_expr(&mut self, expr: &Expr, name: &Token, value: &Expr) -> (r: Vec<Fragment>) {
        Self::whole(expr)
    }

    fn visit_logical_expr(&mut self, expr: &Expr, left: &Expr, operator: &Token, right: &Expr) -> (r: Vec<
        Fragment,
    >) {
        Self::whole(expr)
    }

    fn visit_call_expr(&mut self, expr: &Expr, callee: &Expr, paren: &Token, arguments: &Vec<Expr>) -> (r: Vec<
        Fragment,
    >) {
        Self::whole(expr)
    }
}

} // verus!
