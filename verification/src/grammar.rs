//! The grammar, stated as functions from a token sequence, a position and
//! the errors reported so far to the tree that is read there, the number
//! of tokens read and the errors reported by then.
//!
//! Precedence rises from assignment through `or`, `and`, equality,
//! comparison, term and factor to unary, call and primary. Every binary
//! operator associates to the left; assignment associates to the right.

use vstd::prelude::*;
use crate::expr::ExprModel;
use crate::stmt::StmtModel;
use crate::token::{LiteralModel, TokenModel, TokenType};

verus! {

/// The mathematical value of a syntax error: message and line.
pub struct ParseErrorModel {
    pub message: Seq<char>,
    pub line: nat,
}

/// What reading one construct yields: the tree or the error that stopped
/// it, how many tokens were passed, and the errors reported so far
/// without stopping: those from before the step, then its own.
pub struct Step<T> {
    pub result: Result<T, ParseErrorModel>,
    pub consumed: nat,
    pub reports: Seq<ParseErrorModel>,
}

/// A step that reads `consumed` tokens, yields `value` and reports
/// nothing: `told` is what was reported before it.
pub open spec fn accept<T>(value: T, consumed: nat, told: Seq<ParseErrorModel>) -> Step<T> {
    Step { result: Ok(value), consumed, reports: told }
}

/// A step that stops with `error` after `consumed` tokens. The error
/// itself is handed back, not reported.
pub open spec fn reject<T>(error: ParseErrorModel, consumed: nat, told: Seq<ParseErrorModel>) -> Step<T> {
    Step { result: Err(error), consumed, reports: told }
}

/// `step`, taken after `consumed` tokens were read before it.
pub open spec fn after<T>(consumed: nat, step: Step<T>) -> Step<T> {
    Step { result: step.result, consumed: consumed + step.consumed, reports: step.reports }
}

/// `step` with `value` in place of what it yielded.
pub open spec fn wrap<A, B>(step: Step<A>, value: B) -> Step<B> {
    Step { result: Ok(value), consumed: step.consumed, reports: step.reports }
}

/// The failure of `step`, as a step of another type.
pub open spec fn failure<A, B>(step: Step<A>) -> Step<B> {
    Step { result: Err(step.result->Err_0), consumed: step.consumed, reports: step.reports }
}

/// Whether the token at `pos` ends the input.
pub open spec fn at_end(ts: Seq<TokenModel>, pos: nat) -> bool {
    pos >= ts.len() || ts[pos as int].token_type == TokenType::Eof
}

/// Whether the token at `pos` is of the given kind. Never true at the end
/// of the input.
pub open spec fn check(ts: Seq<TokenModel>, pos: nat, kind: TokenType) -> bool {
    !at_end(ts, pos) && ts[pos as int].token_type == kind
}

/// The number of tokens from `pos` on.
pub open spec fn remaining(ts: Seq<TokenModel>, pos: nat) -> nat {
    if pos < ts.len() {
        (ts.len() - pos) as nat
    } else {
        0
    }
}

/// The error reported against `token`: the message, then where it happened.
pub open spec fn error_at(token: TokenModel, message: Seq<char>) -> ParseErrorModel {
    if token.token_type == TokenType::Eof {
        ParseErrorModel { message: message + " at end"@, line: token.line }
    } else {
        ParseErrorModel { message: message + " at '"@ + token.lexeme + "'"@, line: token.line }
    }
}

/// Reads one token of the given kind, or fails with `message` at the
/// token that stands there.
pub open spec fn expect(
    ts: Seq<TokenModel>,
    pos: nat,
    kind: TokenType,
    message: Seq<char>,
    told: Seq<ParseErrorModel>,
) -> Step<TokenModel> {
    if check(ts, pos, kind) {
        accept(ts[pos as int], 1, told)
    } else {
        reject(error_at(ts[pos as int], message), 0, told)
    }
}

/// `step` read from `pos`, then one token of the given kind.
pub open spec fn then_expect<T>(
    ts: Seq<TokenModel>,
    pos: nat,
    step: Step<T>,
    kind: TokenType,
    message: Seq<char>,
) -> Step<T> {
    if step.result is Err {
        step
    } else {
        let close = expect(ts, pos + step.consumed, kind, message, step.reports);
        if close.result is Err {
            after(step.consumed, failure(close))
        } else {
            after(step.consumed, wrap(close, step.result->Ok_0))
        }
    }
}

/// The levels of left-associative binary operators, loosest first.
#[derive(Clone, Copy, Debug, PartialEq, Eq, Structural)]
pub enum Level {
    Or,
    And,
    Equality,
    Comparison,
    Term,
    Factor,
}

impl Level {
    /// How many levels bind tighter than this one.
    pub open spec fn height(self) -> nat {
        match self {
            Level::Or => 5,
            Level::And => 4,
            Level::Equality => 3,
            Level::Comparison => 2,
            Level::Term => 1,
            Level::Factor => 0,
        }
    }

    /// The next tighter level; `None` where unary expressions follow.
    pub open spec fn tighter(self) -> Option<Level> {
        match self {
            Level::Or => Some(Level::And),
            Level::And => Some(Level::Equality),
            Level::Equality => Some(Level::Comparison),
            Level::Comparison => Some(Level::Term),
            Level::Term => Some(Level::Factor),
            Level::Factor => None,
        }
    }

    /// Whether a token of this kind is an operator of the level.
    pub open spec fn has_operator(self, kind: TokenType) -> bool {
        match self {
            Level::Or => kind == TokenType::Or,
            Level::And => kind == TokenType::And,
            Level::Equality => kind == TokenType::BangEqual || kind == TokenType::EqualEqual,
            Level::Comparison => kind == TokenType::Greater || kind == TokenType::GreaterEqual
                || kind == TokenType::Less || kind == TokenType::LessEqual,
            Level::Term => kind == TokenType::Plus || kind == TokenType::Minus,
            Level::Factor => kind == TokenType::Star || kind == TokenType::Slash,
        }
    }

    /// Whether the level's operators short-circuit.
    pub open spec fn is_logical(self) -> bool {
        self == Level::Or || self == Level::And
    }

    /// The node that joins two operands of this level.
    pub open spec fn join(self, left: ExprModel, operator: TokenModel, right: ExprModel) -> ExprModel {
        if self.is_logical() {
            ExprModel::Logical { left: Box::new(left), operator, right: Box::new(right) }
        } else {
            ExprModel::Binary { left: Box::new(left), operator, right: Box::new(right) }
        }
    }
}

/// Whether an operator of `level` stands at `pos`.
pub open spec fn operator_at(ts: Seq<TokenModel>, pos: nat, level: Level) -> bool {
    !at_end(ts, pos) && level.has_operator(ts[pos as int].token_type)
}

/// primary → NUMBER | STRING | "true" | "false" | "nil" | "(" expression ")" | IDENT
pub open spec fn primary(ts: Seq<TokenModel>, pos: nat, told: Seq<ParseErrorModel>) -> Step<ExprModel>
    decreases remaining(ts, pos), 0nat,
{
    if check(ts, pos, TokenType::Identifier) {
        accept(ExprModel::Variable { name: ts[pos as int] }, 1, told)
    } else if check(ts, pos, TokenType::False) {
        accept(ExprModel::Literal { value: Some(LiteralModel::Boolean(false)) }, 1, told)
    } else if check(ts, pos, TokenType::True) {
        accept(ExprModel::Literal { value: Some(LiteralModel::Boolean(true)) }, 1, told)
    } else if check(ts, pos, TokenType::Nil) {
        accept(ExprModel::Literal { value: Some(LiteralModel::Nil) }, 1, told)
    } else if check(ts, pos, TokenType::Number) || check(ts, pos, TokenType::String) {
        accept(ExprModel::Literal { value: ts[pos as int].literal }, 1, told)
    } else if check(ts, pos, TokenType::LeftParen) {
        let inner = then_expect(
            ts,
            pos + 1,
            expression(ts, pos + 1, told),
            TokenType::RightParen,
            "Expect ')' after expression."@,
        );
        if inner.result is Err {
            after(1, inner)
        } else {
            after(1, wrap(inner, ExprModel::Grouping { expression: Box::new(inner.result->Ok_0) }))
        }
    } else {
        reject(error_at(ts[pos as int], "Expect expression."@), 0, told)
    }
}

/// arguments → expression ( "," expression )*, after the arguments in `seen`.
pub open spec fn arguments(
    ts: Seq<TokenModel>,
    pos: nat,
    told: Seq<ParseErrorModel>,
    seen: Seq<ExprModel>,
) -> Step<Seq<ExprModel>>
    decreases remaining(ts, pos), 40nat,
{
    let first = expression(ts, pos, told);
    if first.result is Err {
        failure(first)
    } else {
        let list = seen.push(first.result->Ok_0);
        if check(ts, pos + first.consumed, TokenType::Comma) {
            after(first.consumed + 1, arguments(ts, pos + first.consumed + 1, first.reports, list))
        } else {
            wrap(first, list)
        }
    }
}

/// The arguments of one call and its closing parenthesis, from behind
/// the opening one: arguments? ")"
pub open spec fn argument_group(ts: Seq<TokenModel>, pos: nat, told: Seq<ParseErrorModel>) -> Step<
    (Seq<ExprModel>, TokenModel),
>
    decreases remaining(ts, pos), 41nat,
{
    let list = if check(ts, pos, TokenType::RightParen) {
        accept(Seq::empty(), 0, told)
    } else {
        arguments(ts, pos, told, Seq::empty())
    };
    if list.result is Err {
        failure(list)
    } else {
        let close = expect(
            ts,
            pos + list.consumed,
            TokenType::RightParen,
            "Expect ')' after arguments."@,
            list.reports,
        );
        if close.result is Err {
            after(list.consumed, failure(close))
        } else {
            after(list.consumed, wrap(close, (list.result->Ok_0, close.result->Ok_0)))
        }
    }
}

/// The call of `callee` with the arguments of `group`.
pub open spec fn call_node(callee: ExprModel, group: (Seq<ExprModel>, TokenModel)) -> ExprModel {
    ExprModel::Call { callee: Box::new(callee), paren: group.1, arguments: group.0 }
}

/// The argument groups that follow `callee`: ( "(" arguments? ")" )*
pub open spec fn call_tail(
    ts: Seq<TokenModel>,
    pos: nat,
    told: Seq<ParseErrorModel>,
    callee: ExprModel,
) -> Step<ExprModel>
    decreases remaining(ts, pos), 1nat,
{
    if check(ts, pos, TokenType::LeftParen) {
        let group = argument_group(ts, pos + 1, told);
        if group.result is Err {
            after(1, failure(group))
        } else {
            after(
                1 + group.consumed,
                call_tail(
                    ts,
                    pos + 1 + group.consumed,
                    group.reports,
                    call_node(callee, group.result->Ok_0),
                ),
            )
        }
    } else {
        accept(callee, 0, told)
    }
}

/// call → primary ( "(" arguments? ")" )*
pub open spec fn call(ts: Seq<TokenModel>, pos: nat, told: Seq<ParseErrorModel>) -> Step<ExprModel>
    decreases remaining(ts, pos), 2nat,
{
    let callee = primary(ts, pos, told);
    if callee.result is Err {
        callee
    } else {
        after(callee.consumed, call_tail(ts, pos + callee.consumed, callee.reports, callee.result->Ok_0))
    }
}

/// unary → ( "!" | "-" ) unary | call
pub open spec fn unary(ts: Seq<TokenModel>, pos: nat, told: Seq<ParseErrorModel>) -> Step<ExprModel>
    decreases remaining(ts, pos), 3nat,
{
    if check(ts, pos, TokenType::Bang) || check(ts, pos, TokenType::Minus) {
        let right = unary(ts, pos + 1, told);
        if right.result is Err {
            after(1, right)
        } else {
            after(
                1,
                wrap(right, ExprModel::Unary { operator: ts[pos as int], right: Box::new(right.result->Ok_0) }),
            )
        }
    } else {
        call(ts, pos, told)
    }
}

/// An operand of `level`: an expression of the next tighter level.
pub open spec fn operand(ts: Seq<TokenModel>, pos: nat, told: Seq<ParseErrorModel>, level: Level) -> Step<
    ExprModel,
>
    decreases remaining(ts, pos), 4 + 3 * level.height(),
{
    match level.tighter() {
        Some(next) => binary(ts, pos, told, next),
        None => unary(ts, pos, told),
    }
}

/// The operators of `level` that follow `left`, each with its right operand.
pub open spec fn binary_tail(
    ts: Seq<TokenModel>,
    pos: nat,
    told: Seq<ParseErrorModel>,
    level: Level,
    left: ExprModel,
) -> Step<ExprModel>
    decreases remaining(ts, pos), 5 + 3 * level.height(),
{
    if operator_at(ts, pos, level) {
        let right = operand(ts, pos + 1, told, level);
        if right.result is Err {
            after(1, right)
        } else {
            after(
                1 + right.consumed,
                binary_tail(
                    ts,
                    pos + 1 + right.consumed,
                    right.reports,
                    level,
                    level.join(left, ts[pos as int], right.result->Ok_0),
                ),
            )
        }
    } else {
        accept(left, 0, told)
    }
}

/// One level of left-associative binary operators:
/// operand ( operator operand )*
pub open spec fn binary(ts: Seq<TokenModel>, pos: nat, told: Seq<ParseErrorModel>, level: Level) -> Step<
    ExprModel,
>
    decreases remaining(ts, pos), 6 + 3 * level.height(),
{
    let left = operand(ts, pos, told, level);
    if left.result is Err {
        left
    } else {
        after(left.consumed, binary_tail(ts, pos + left.consumed, left.reports, level, left.result->Ok_0))
    }
}

/// assignment → IDENT "=" assignment | logic_or
///
/// A target that is no variable is reported at the `=` and parsing goes
/// on: the step then yields the target itself.
pub open spec fn assignment(ts: Seq<TokenModel>, pos: nat, told: Seq<ParseErrorModel>) -> Step<ExprModel>
    decreases remaining(ts, pos), 30nat,
{
    let target = binary(ts, pos, told, Level::Or);
    if target.result is Err {
        target
    } else if check(ts, pos + target.consumed, TokenType::Equal) {
        let equals = ts[(pos + target.consumed) as int];
        let value = assignment(ts, pos + target.consumed + 1, target.reports);
        if value.result is Err {
            after(target.consumed + 1, value)
        } else {
            match target.result->Ok_0 {
                ExprModel::Variable { name } => after(
                    target.consumed + 1,
                    wrap(value, ExprModel::Assign { name, value: Box::new(value.result->Ok_0) }),
                ),
                other => Step {
                    result: Ok(other),
                    consumed: target.consumed + 1 + value.consumed,
                    reports: value.reports.push(error_at(equals, "Invalid assignment target."@)),
                },
            }
        }
    } else {
        target
    }
}

/// expression → assignment
pub open spec fn expression(ts: Seq<TokenModel>, pos: nat, told: Seq<ParseErrorModel>) -> Step<ExprModel>
    decreases remaining(ts, pos), 31nat,
{
    assignment(ts, pos, told)
}

/// An expression, unless a token of the given kind stands at `pos`.
pub open spec fn optional_expression(
    ts: Seq<TokenModel>,
    pos: nat,
    told: Seq<ParseErrorModel>,
    stop: TokenType,
) -> Step<Option<ExprModel>>
    decreases remaining(ts, pos), 45nat,
{
    if check(ts, pos, stop) {
        accept(None, 0, told)
    } else {
        let e = expression(ts, pos, told);
        if e.result is Err {
            failure(e)
        } else {
            wrap(e, Some(e.result->Ok_0))
        }
    }
}

/// An optional expression and the token that ends it: expression? STOP
pub open spec fn clause(
    ts: Seq<TokenModel>,
    pos: nat,
    told: Seq<ParseErrorModel>,
    stop: TokenType,
    message: Seq<char>,
) -> Step<Option<ExprModel>>
    decreases remaining(ts, pos), 46nat,
{
    then_expect(ts, pos, optional_expression(ts, pos, told, stop), stop, message)
}

/// exprStmt → expression ";"
pub open spec fn expression_statement(ts: Seq<TokenModel>, pos: nat, told: Seq<ParseErrorModel>) -> Step<
    StmtModel,
>
    decreases remaining(ts, pos), 50nat,
{
    let e = then_expect(
        ts,
        pos,
        expression(ts, pos, told),
        TokenType::Semicolon,
        "Expect ';' after value."@,
    );
    if e.result is Err {
        failure(e)
    } else {
        wrap(e, StmtModel::Expression { expression: e.result->Ok_0 })
    }
}

/// printStmt → "print" expression ";", from behind the keyword.
pub open spec fn print_statement(ts: Seq<TokenModel>, pos: nat, told: Seq<ParseErrorModel>) -> Step<
    StmtModel,
>
    decreases remaining(ts, pos), 50nat,
{
    let e = then_expect(
        ts,
        pos,
        expression(ts, pos, told),
        TokenType::Semicolon,
        "Expect ';' after expression."@,
    );
    if e.result is Err {
        failure(e)
    } else {
        wrap(e, StmtModel::Print { expression: e.result->Ok_0 })
    }
}

/// returnStmt → "return" expression? ";", from behind the keyword.
pub open spec fn return_statement(
    ts: Seq<TokenModel>,
    pos: nat,
    told: Seq<ParseErrorModel>,
    keyword: TokenModel,
) -> Step<StmtModel>
    decreases remaining(ts, pos), 50nat,
{
    let v = clause(ts, pos, told, TokenType::Semicolon, "Expect ';' after return value."@);
    if v.result is Err {
        failure(v)
    } else {
        wrap(v, StmtModel::Return { keyword, value: v.result->Ok_0 })
    }
}

/// The initializer of a declaration: ( "=" expression )?
pub open spec fn initializer(ts: Seq<TokenModel>, pos: nat, told: Seq<ParseErrorModel>) -> Step<
    Option<ExprModel>,
>
    decreases remaining(ts, pos), 45nat,
{
    if check(ts, pos, TokenType::Equal) {
        let e = expression(ts, pos + 1, told);
        if e.result is Err {
            after(1, failure(e))
        } else {
            after(1, wrap(e, Some(e.result->Ok_0)))
        }
    } else {
        accept(None, 0, told)
    }
}

/// varDecl → "var" IDENT ( "=" expression )? ";", from behind the keyword.
pub open spec fn var_declaration(ts: Seq<TokenModel>, pos: nat, told: Seq<ParseErrorModel>) -> Step<
    StmtModel,
>
    decreases remaining(ts, pos), 50nat,
{
    let name = expect(ts, pos, TokenType::Identifier, "Expect variable name."@, told);
    if name.result is Err {
        failure(name)
    } else {
        let init = then_expect(
            ts,
            pos + 1,
            initializer(ts, pos + 1, told),
            TokenType::Semicolon,
            "Expect ';' after variable declaration."@,
        );
        if init.result is Err {
            after(1, failure(init))
        } else {
            after(1, wrap(init, StmtModel::Var { name: name.result->Ok_0, initializer: init.result->Ok_0 }))
        }
    }
}

/// "(" expression ")", with the messages for what is missing.
pub open spec fn condition(
    ts: Seq<TokenModel>,
    pos: nat,
    told: Seq<ParseErrorModel>,
    open: Seq<char>,
    close: Seq<char>,
) -> Step<ExprModel>
    decreases remaining(ts, pos), 46nat,
{
    let paren = expect(ts, pos, TokenType::LeftParen, open, told);
    if paren.result is Err {
        failure(paren)
    } else {
        after(1, then_expect(ts, pos + 1, expression(ts, pos + 1, told), TokenType::RightParen, close))
    }
}

/// The else branch of a conditional: ( "else" statement )?
pub open spec fn else_branch(ts: Seq<TokenModel>, pos: nat, told: Seq<ParseErrorModel>) -> Step<
    Option<Box<StmtModel>>,
>
    decreases remaining(ts, pos), 47nat,
{
    if check(ts, pos, TokenType::Else) {
        let s = statement(ts, pos + 1, told);
        if s.result is Err {
            after(1, failure(s))
        } else {
            after(1, wrap(s, Some(Box::new(s.result->Ok_0))))
        }
    } else {
        accept(None, 0, told)
    }
}

/// The branches of a conditional whose condition is `test`:
/// statement ( "else" statement )?
pub open spec fn if_branches(
    ts: Seq<TokenModel>,
    pos: nat,
    told: Seq<ParseErrorModel>,
    test: ExprModel,
) -> Step<StmtModel>
    decreases remaining(ts, pos), 64nat,
{
    let then_branch = statement(ts, pos, told);
    if then_branch.result is Err {
        then_branch
    } else {
        let other = else_branch(ts, pos + then_branch.consumed, then_branch.reports);
        if other.result is Err {
            after(then_branch.consumed, failure(other))
        } else {
            after(
                then_branch.consumed,
                wrap(
                    other,
                    StmtModel::If {
                        condition: test,
                        then_branch: Box::new(then_branch.result->Ok_0),
                        else_branch: other.result->Ok_0,
                    },
                ),
            )
        }
    }
}

/// ifStmt → "if" "(" expression ")" statement ( "else" statement )?,
/// from behind the keyword.
pub open spec fn if_statement(ts: Seq<TokenModel>, pos: nat, told: Seq<ParseErrorModel>) -> Step<StmtModel>
    decreases remaining(ts, pos), 65nat,
{
    let test = condition(ts, pos, told, "Expect '(' after 'if'."@, "Expect ')' after if condition."@);
    if test.result is Err {
        failure(test)
    } else {
        after(test.consumed, if_branches(ts, pos + test.consumed, test.reports, test.result->Ok_0))
    }
}

/// whileStmt → "while" "(" expression ")" statement, from behind the keyword.
pub open spec fn while_statement(ts: Seq<TokenModel>, pos: nat, told: Seq<ParseErrorModel>) -> Step<
    StmtModel,
>
    decreases remaining(ts, pos), 65nat,
{
    let test = condition(
        ts,
        pos,
        told,
        "Expect '(' after 'while'."@,
        "Expect ')' after while condition."@,
    );
    if test.result is Err {
        failure(test)
    } else {
        let body = statement(ts, pos + test.consumed, test.reports);
        if body.result is Err {
            after(test.consumed, failure(body))
        } else {
            after(
                test.consumed,
                wrap(body, StmtModel::While { condition: test.result->Ok_0, body: Box::new(body.result->Ok_0) }),
            )
        }
    }
}

/// The loop that a `for` statement stands for:
///
/// ```text
/// { init; while (cond) { body; incr; } }
/// ```
///
/// A missing condition is `true`. Without an increment the body stands
/// alone; without an initializer there is no outer block.
pub open spec fn desugar_for(
    init: Option<StmtModel>,
    cond: Option<ExprModel>,
    incr: Option<ExprModel>,
    body: StmtModel,
) -> StmtModel {
    let inner = match incr {
        Some(step) => StmtModel::Block { statements: seq![body, StmtModel::Expression { expression: step }] },
        None => body,
    };
    let test = match cond {
        Some(c) => c,
        None => ExprModel::Literal { value: Some(LiteralModel::Boolean(true)) },
    };
    let repeat = StmtModel::While { condition: test, body: Box::new(inner) };
    match init {
        Some(first) => StmtModel::Block { statements: seq![first, repeat] },
        None => repeat,
    }
}

/// A `for` statement with all three clauses is the block that first
/// runs the initializer and then loops while the condition holds; each
/// round runs the body and then the increment:
/// `for (INIT COND; INCR) BODY` is `{ INIT while (COND) { BODY INCR; } }`.
pub proof fn lemma_for_is_while(init: StmtModel, cond: ExprModel, incr: ExprModel, body: StmtModel)
    ensures
        desugar_for(Some(init), Some(cond), Some(incr), body) == (StmtModel::Block {
            statements: seq![
                init,
                StmtModel::While {
                    condition: cond,
                    body: Box::new(
                        StmtModel::Block {
                            statements: seq![body, StmtModel::Expression { expression: incr }],
                        },
                    ),
                },
            ],
        }),
        desugar_for(None, Some(cond), None, body) == (StmtModel::While { condition: cond, body: Box::new(body) }),
        desugar_for(None, None, None, body) == (StmtModel::While {
            condition: ExprModel::Literal { value: Some(LiteralModel::Boolean(true)) },
            body: Box::new(body),
        }),
{
}

/// The first clause of a `for`: varDecl | exprStmt | ";"
pub open spec fn for_initializer(ts: Seq<TokenModel>, pos: nat, told: Seq<ParseErrorModel>) -> Step<
    Option<StmtModel>,
>
    decreases remaining(ts, pos), 51nat,
{
    if check(ts, pos, TokenType::Semicolon) {
        accept(None, 1, told)
    } else if check(ts, pos, TokenType::Var) {
        let v = var_declaration(ts, pos + 1, told);
        if v.result is Err {
            after(1, failure(v))
        } else {
            after(1, wrap(v, Some(v.result->Ok_0)))
        }
    } else {
        let s = expression_statement(ts, pos, told);
        if s.result is Err {
            failure(s)
        } else {
            wrap(s, Some(s.result->Ok_0))
        }
    }
}

/// The condition and the increment of a `for`, each with the token
/// that ends it: expression? ";" expression? ")"
pub open spec fn for_tests(ts: Seq<TokenModel>, pos: nat, told: Seq<ParseErrorModel>) -> Step<
    (Option<ExprModel>, Option<ExprModel>),
>
    decreases remaining(ts, pos), 47nat,
{
    let cond = clause(ts, pos, told, TokenType::Semicolon, "Expect ';' after loop condition."@);
    if cond.result is Err {
        failure(cond)
    } else {
        let incr = clause(
            ts,
            pos + cond.consumed,
            cond.reports,
            TokenType::RightParen,
            "Expect ')' after for clauses."@,
        );
        if incr.result is Err {
            after(cond.consumed, failure(incr))
        } else {
            after(cond.consumed, wrap(incr, (cond.result->Ok_0, incr.result->Ok_0)))
        }
    }
}

/// The clauses of a `for` between its parentheses:
/// ( varDecl | exprStmt | ";" ) expression? ";" expression? ")"
pub open spec fn for_clauses(ts: Seq<TokenModel>, pos: nat, told: Seq<ParseErrorModel>) -> Step<
    (Option<StmtModel>, Option<ExprModel>, Option<ExprModel>),
>
    decreases remaining(ts, pos), 52nat,
{
    let init = for_initializer(ts, pos, told);
    if init.result is Err {
        failure(init)
    } else {
        let tests = for_tests(ts, pos + init.consumed, init.reports);
        if tests.result is Err {
            after(init.consumed, failure(tests))
        } else {
            after(
                init.consumed,
                wrap(tests, (init.result->Ok_0, tests.result->Ok_0.0, tests.result->Ok_0.1)),
            )
        }
    }
}

/// The body of a `for` with the given clauses, as the loop that the
/// whole statement stands for.
pub open spec fn for_body(
    ts: Seq<TokenModel>,
    pos: nat,
    told: Seq<ParseErrorModel>,
    clauses: (Option<StmtModel>, Option<ExprModel>, Option<ExprModel>),
) -> Step<StmtModel>
    decreases remaining(ts, pos), 64nat,
{
    let body = statement(ts, pos, told);
    if body.result is Err {
        body
    } else {
        wrap(body, desugar_for(clauses.0, clauses.1, clauses.2, body.result->Ok_0))
    }
}

/// forStmt → "for" "(" ( varDecl | exprStmt | ";" ) expression? ";"
/// expression? ")" statement, from behind the keyword.
pub open spec fn for_statement(ts: Seq<TokenModel>, pos: nat, told: Seq<ParseErrorModel>) -> Step<
    StmtModel,
>
    decreases remaining(ts, pos), 65nat,
{
    let paren = expect(ts, pos, TokenType::LeftParen, "Expect '(' after 'for'."@, told);
    if paren.result is Err {
        failure(paren)
    } else {
        let clauses = for_clauses(ts, pos + 1, told);
        if clauses.result is Err {
            after(1, failure(clauses))
        } else {
            after(
                1 + clauses.consumed,
                for_body(ts, pos + 1 + clauses.consumed, clauses.reports, clauses.result->Ok_0),
            )
        }
    }
}

/// A `for` statement that parses is read as the loop that it stands
/// for, whatever its clauses and its body are: the tree is made of what
/// the clauses and the body parse to, each at its place, and of nothing
/// else. With all three clauses it is
/// `{ INIT while (COND) { BODY INCR; } }`.
pub proof fn lemma_for_statement_is_while(ts: Seq<TokenModel>, pos: nat, told: Seq<ParseErrorModel>)
    requires
        for_statement(ts, pos, told).result is Ok,
    ensures
        ({
            let clauses = for_clauses(ts, pos + 1, told);
            let body = statement(ts, pos + 1 + clauses.consumed, clauses.reports);
            &&& check(ts, pos, TokenType::LeftParen)
            &&& clauses.result is Ok
            &&& body.result is Ok
            &&& for_statement(ts, pos, told).result == Ok::<StmtModel, ParseErrorModel>(
                desugar_for(
                    clauses.result->Ok_0.0,
                    clauses.result->Ok_0.1,
                    clauses.result->Ok_0.2,
                    body.result->Ok_0,
                ),
            )
            &&& for_statement(ts, pos, told).consumed == 1 + clauses.consumed + body.consumed
            &&& (clauses.result->Ok_0.0 is Some && clauses.result->Ok_0.1 is Some
                && clauses.result->Ok_0.2 is Some) ==> for_statement(ts, pos, told).result == Ok::<
                StmtModel,
                ParseErrorModel,
            >(
                StmtModel::Block {
                    statements: seq![
                        clauses.result->Ok_0.0->Some_0,
                        StmtModel::While {
                            condition: clauses.result->Ok_0.1->Some_0,
                            body: Box::new(
                                StmtModel::Block {
                                    statements: seq![
                                        body.result->Ok_0,
                                        StmtModel::Expression { expression: clauses.result->Ok_0.2->Some_0 },
                                    ],
                                },
                            ),
                        },
                    ],
                },
            )
        }),
{
}

/// The rest of a block, after the statements in `seen`: declaration* "}"
///
/// A declaration always reads at least one token; the test for it only
/// bounds the recursion.
pub open spec fn block_items(
    ts: Seq<TokenModel>,
    pos: nat,
    told: Seq<ParseErrorModel>,
    seen: Seq<StmtModel>,
) -> Step<Seq<StmtModel>>
    decreases remaining(ts, pos), 62nat,
{
    if check(ts, pos, TokenType::RightBrace) || at_end(ts, pos) {
        let close = expect(ts, pos, TokenType::RightBrace, "Expect '}' after block."@, told);
        if close.result is Err {
            failure(close)
        } else {
            wrap(close, seen)
        }
    } else {
        let d = declaration(ts, pos, told);
        if d.result is Err {
            failure(d)
        } else if d.consumed == 0 {
            wrap(d, seen)
        } else {
            after(d.consumed, block_items(ts, pos + d.consumed, d.reports, seen.push(d.result->Ok_0)))
        }
    }
}

/// params → IDENT ( "," IDENT )*, after the names in `seen`.
pub open spec fn parameters(
    ts: Seq<TokenModel>,
    pos: nat,
    told: Seq<ParseErrorModel>,
    seen: Seq<TokenModel>,
) -> Step<Seq<TokenModel>>
    decreases remaining(ts, pos), 50nat,
{
    let name = expect(ts, pos, TokenType::Identifier, "Expect parameter name."@, told);
    if name.result is Err {
        failure(name)
    } else if check(ts, pos + 1, TokenType::Comma) {
        after(2, parameters(ts, pos + 2, told, seen.push(name.result->Ok_0)))
    } else {
        accept(seen.push(name.result->Ok_0), 1, told)
    }
}

/// The parameter list of a declaration: "(" params? ")"
pub open spec fn parameter_list(ts: Seq<TokenModel>, pos: nat, told: Seq<ParseErrorModel>) -> Step<
    Seq<TokenModel>,
> {
    let paren = expect(ts, pos, TokenType::LeftParen, "Expect '(' after function name."@, told);
    if paren.result is Err {
        failure(paren)
    } else {
        let names = if check(ts, pos + 1, TokenType::RightParen) {
            accept(Seq::empty(), 0, told)
        } else {
            parameters(ts, pos + 1, told, Seq::empty())
        };
        after(1, then_expect(ts, pos + 1, names, TokenType::RightParen, "Expect ')' after parameters."@))
    }
}

/// funDecl → "fun" IDENT "(" params? ")" block, from behind the keyword.
pub open spec fn function(ts: Seq<TokenModel>, pos: nat, told: Seq<ParseErrorModel>) -> Step<StmtModel>
    decreases remaining(ts, pos), 50nat,
{
    let name = expect(ts, pos, TokenType::Identifier, "Expect function name."@, told);
    if name.result is Err {
        failure(name)
    } else {
        let params = then_expect(
            ts,
            pos + 1,
            parameter_list(ts, pos + 1, told),
            TokenType::LeftBrace,
            "Expect '{' before function body."@,
        );
        if params.result is Err {
            after(1, failure(params))
        } else {
            let a = 1 + params.consumed;
            let body = block_items(ts, pos + a, params.reports, Seq::empty());
            if body.result is Err {
                after(a, failure(body))
            } else {
                after(
                    a,
                    wrap(
                        body,
                        StmtModel::Function {
                            name: name.result->Ok_0,
                            params: params.result->Ok_0,
                            body: body.result->Ok_0,
                        },
                    ),
                )
            }
        }
    }
}

/// A block, from behind its opening brace.
pub open spec fn block(ts: Seq<TokenModel>, pos: nat, told: Seq<ParseErrorModel>) -> Step<StmtModel>
    decreases remaining(ts, pos), 63nat,
{
    let items = block_items(ts, pos, told, Seq::empty());
    if items.result is Err {
        failure(items)
    } else {
        wrap(items, StmtModel::Block { statements: items.result->Ok_0 })
    }
}

/// statement → exprStmt | printStmt | block | ifStmt | whileStmt | forStmt
/// | returnStmt
pub open spec fn statement(ts: Seq<TokenModel>, pos: nat, told: Seq<ParseErrorModel>) -> Step<StmtModel>
    decreases remaining(ts, pos), 60nat,
{
    if check(ts, pos, TokenType::Print) {
        after(1, print_statement(ts, pos + 1, told))
    } else if check(ts, pos, TokenType::If) {
        after(1, if_statement(ts, pos + 1, told))
    } else if check(ts, pos, TokenType::While) {
        after(1, while_statement(ts, pos + 1, told))
    } else if check(ts, pos, TokenType::LeftBrace) {
        after(1, block(ts, pos + 1, told))
    } else if check(ts, pos, TokenType::For) {
        after(1, for_statement(ts, pos + 1, told))
    } else if check(ts, pos, TokenType::Return) {
        after(1, return_statement(ts, pos + 1, told, ts[pos as int]))
    } else {
        expression_statement(ts, pos, told)
    }
}

/// declaration → varDecl | funDecl | statement
pub open spec fn declaration(ts: Seq<TokenModel>, pos: nat, told: Seq<ParseErrorModel>) -> Step<StmtModel>
    decreases remaining(ts, pos), 61nat,
{
    if check(ts, pos, TokenType::Var) {
        after(1, var_declaration(ts, pos + 1, told))
    } else if check(ts, pos, TokenType::Fun) {
        after(1, function(ts, pos + 1, told))
    } else {
        statement(ts, pos, told)
    }
}

/// A statement that parses reads at least one token.
pub proof fn lemma_statement_progress(ts: Seq<TokenModel>, pos: nat, told: Seq<ParseErrorModel>)
    ensures
        statement(ts, pos, told).result is Ok ==> statement(ts, pos, told).consumed >= 1,
{
}

/// A declaration that parses reads at least one token.
pub proof fn lemma_declaration_progress(ts: Seq<TokenModel>, pos: nat, told: Seq<ParseErrorModel>)
    ensures
        declaration(ts, pos, told).result is Ok ==> declaration(ts, pos, told).consumed >= 1,
{
    lemma_statement_progress(ts, pos, told);
}

/// Whether a statement begins with a token of this kind.
pub open spec fn starts_statement(kind: TokenType) -> bool {
    kind == TokenType::Class || kind == TokenType::Fun || kind == TokenType::Var || kind
        == TokenType::For || kind == TokenType::If || kind == TokenType::While || kind
        == TokenType::Print || kind == TokenType::Return
}

/// Whether parsing may resume at `pos`: the input ends there, the token
/// before is a semicolon, or the token there begins a statement.
pub open spec fn is_boundary(ts: Seq<TokenModel>, pos: nat) -> bool {
    at_end(ts, pos) || (pos > 0 && ts[pos - 1].token_type == TokenType::Semicolon)
        || starts_statement(ts[pos as int].token_type)
}

/// The number of tokens from `pos` to the first boundary at or behind it.
pub open spec fn to_boundary(ts: Seq<TokenModel>, pos: nat) -> nat
    decreases remaining(ts, pos),
{
    if is_boundary(ts, pos) {
        0
    } else {
        1 + to_boundary(ts, pos + 1)
    }
}

/// The number of tokens that recovery skips from `pos`: one, then up to
/// the next boundary. Nothing at the end of the input.
pub open spec fn synchronize(ts: Seq<TokenModel>, pos: nat) -> nat {
    if at_end(ts, pos) {
        0
    } else {
        1 + to_boundary(ts, pos + 1)
    }
}

/// From `pos` the first boundary is reached after `to_boundary` tokens,
/// and no position before it is one.
pub proof fn lemma_to_boundary(ts: Seq<TokenModel>, pos: nat)
    ensures
        is_boundary(ts, pos + to_boundary(ts, pos)),
        forall|p: nat| pos <= p < pos + to_boundary(ts, pos) ==> !is_boundary(ts, p),
    decreases remaining(ts, pos),
{
    if !is_boundary(ts, pos) {
        lemma_to_boundary(ts, pos + 1);
    }
}

/// Recovery from an error before the end of the input skips at least one
/// token and stops at the first boundary behind it: where the input
/// ends, behind a semicolon, or before a token that begins a statement.
pub proof fn lemma_synchronize_stops_at_boundary(ts: Seq<TokenModel>, pos: nat)
    requires
        !at_end(ts, pos),
    ensures
        synchronize(ts, pos) >= 1,
        is_boundary(ts, pos + synchronize(ts, pos)),
        forall|p: nat| pos < p < pos + synchronize(ts, pos) ==> !is_boundary(ts, p),
{
    lemma_to_boundary(ts, pos + 1);
}

/// What parsing a whole input yields.
pub struct Outcome {
    /// The statements that were read, in order.
    pub statements: Seq<StmtModel>,
    /// Every error that was reported, in order.
    pub reports: Seq<ParseErrorModel>,
    /// The number of tokens passed.
    pub consumed: nat,
}

/// `outcome`, reached after `consumed` tokens were passed before it.
pub open spec fn resumed(consumed: nat, outcome: Outcome) -> Outcome {
    Outcome {
        statements: outcome.statements,
        reports: outcome.reports,
        consumed: consumed + outcome.consumed,
    }
}

/// One declaration at the top of the input, after the statements in
/// `seen`. A declaration that fails is reported; the tokens up to the
/// next boundary are skipped with it.
pub open spec fn round(
    ts: Seq<TokenModel>,
    pos: nat,
    told: Seq<ParseErrorModel>,
    seen: Seq<StmtModel>,
) -> Outcome {
    let d = declaration(ts, pos, told);
    match d.result {
        Ok(s) => Outcome { statements: seen.push(s), reports: d.reports, consumed: d.consumed },
        Err(e) => Outcome {
            statements: seen,
            reports: d.reports.push(e),
            consumed: d.consumed + synchronize(ts, pos + d.consumed),
        },
    }
}

/// program → declaration* EOF, after the statements in `seen`.
///
/// Each round reads at least one token; the test for it only bounds the
/// recursion.
pub open spec fn program(
    ts: Seq<TokenModel>,
    pos: nat,
    told: Seq<ParseErrorModel>,
    seen: Seq<StmtModel>,
) -> Outcome
    decreases remaining(ts, pos),
{
    if at_end(ts, pos) {
        Outcome { statements: seen, reports: told, consumed: 0 }
    } else {
        let first = round(ts, pos, told, seen);
        if first.consumed == 0 {
            first
        } else {
            resumed(first.consumed, program(ts, pos + first.consumed, first.reports, first.statements))
        }
    }
}

} // verus!
