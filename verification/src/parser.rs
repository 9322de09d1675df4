//! The recursive-descent parser: from a token list to statements.

use vstd::prelude::*;
use vstd::string::StringExecFns;
use crate::error::{DiagnosticModel, ErrorReporter};
use crate::expr::{exprs_view, lemma_exprs_view_push, Expr, ExprModel};
use crate::grammar::{
    after, argument_group, arguments, assignment, at_end, binary, binary_tail, block, block_items,
    call, call_node, call_tail, check, clause, condition, declaration, else_branch, error_at,
    expect, expression, expression_statement, failure, for_body, for_clauses, for_initializer,
    for_statement, for_tests, function, if_branches, if_statement, initializer,
    lemma_declaration_progress, operand, operator_at, optional_expression, parameter_list,
    parameters, primary, print_statement, program, remaining, resumed, return_statement, round,
    starts_statement, statement, synchronize, to_boundary, unary, var_declaration, while_statement,
    wrap, Level, ParseErrorModel, Step,
};
use crate::stmt::{lemma_stmts_view_push, stmts_view, Stmt, StmtModel};
use crate::text::{decimal, decimal_digits};
use crate::token::{
    clone_literal, lemma_tokens_view_push, tokens_view, LiteralValue, Token, TokenModel, TokenType,
};

verus! {

/// A syntax error: what was expected and where.
#[derive(Debug)]
pub struct ParseError {
    pub message: String,
    pub line: usize,
}

impl View for ParseError {
    type V = ParseErrorModel;

    open spec fn view(&self) -> ParseErrorModel {
        ParseErrorModel { message: self.message@, line: self.line as nat }
    }
}

impl ParseErrorModel {
    /// The line that shows the error: `[line N] Parse error: MESSAGE`.
    pub open spec fn text(self) -> Seq<char> {
        "[line "@ + decimal_digits(self.line) + "] Parse error: "@ + self.message
    }

    /// The error as the reporter records it: no place beside the message.
    pub open spec fn diagnostic(self) -> DiagnosticModel {
        DiagnosticModel { line: self.line, location: Seq::empty(), message: self.message }
    }
}

impl ParseError {
    /// The line that shows the error to the user.
    pub fn render(&self) -> (r: String)
        ensures
            r@ == self@.text(),
    {
        let mut r = String::from_str("[line ");
        r.append(decimal(self.line).as_str());
        r.append("] Parse error: ");
        r.append(self.message.as_str());
        r
    }
}

/// The views of a sequence of errors, in order.
pub open spec fn errors_view(errors: Seq<ParseError>) -> Seq<ParseErrorModel> {
    errors.map_values(|e: ParseError| e@)
}

/// The view of what a parsing function returns.
pub open spec fn result_view<T: View>(r: Result<T, ParseError>) -> Result<T::V, ParseErrorModel> {
    match r {
        Ok(v) => Ok(v@),
        Err(e) => Err(e@),
    }
}

/// The view of an optional expression.
pub open spec fn option_view(e: Option<Expr>) -> Option<ExprModel> {
    match e {
        Some(e) => Some(e@),
        None => None,
    }
}

/// A parser over a token list that ends with an end-of-input token.
pub struct Parser {
    tokens: Vec<Token>,
    current: usize,
    reports: Vec<ParseError>,
}

/// The mathematical value of a [`Parser`]: the tokens, the position of
/// the next token, and the errors reported so far without stopping.
pub struct ParserModel {
    pub tokens: Seq<TokenModel>,
    pub position: nat,
    pub reports: Seq<ParseErrorModel>,
}

impl ParserModel {
    /// The input ends with an end-of-input token and the position is
    /// inside it.
    pub open spec fn well_formed(self) -> bool {
        &&& self.position < self.tokens.len()
        &&& self.tokens.last().token_type == TokenType::Eof
    }

    /// `self` after `step` was taken from `before`, with `result` handed back.
    pub open spec fn follows<T>(self, before: ParserModel, result: Result<T, ParseErrorModel>, step: Step<T>) -> bool {
        &&& self.well_formed()
        &&& self.tokens == before.tokens
        &&& self.position == before.position + step.consumed
        &&& self.reports == step.reports
        &&& result == step.result
    }
}

impl View for Parser {
    type V = ParserModel;

    closed spec fn view(&self) -> ParserModel {
        ParserModel {
            tokens: tokens_view(self.tokens@),
            position: self.current as nat,
            reports: errors_view(self.reports@),
        }
    }
}

impl Parser {
    /// A parser at the start of `tokens`.
    pub fn new(tokens: Vec<Token>) -> (r: Self)
        requires
            tokens@.len() > 0,
            tokens@.last().token_type == TokenType::Eof,
        ensures
            r@.well_formed(),
            r@.tokens == tokens_view(tokens@),
            r@.position == 0,
            r@.reports == Seq::<ParseErrorModel>::empty(),
    {
        let r = Parser { tokens, current: 0, reports: Vec::new() };
        assert(r@.reports =~= Seq::<ParseErrorModel>::empty());
        r
    }

    fn peek(&self) -> (r: &Token)
        requires
            self@.well_formed(),
        ensures
            r@ == self@.tokens[self@.position as int],
    {
        &self.tokens[self.current]
    }

    fn previous(&self) -> (r: &Token)
        requires
            self@.well_formed(),
            self@.position > 0,
        ensures
            r@ == self@.tokens[self@.position - 1],
    {
        &self.tokens[self.current - 1]
    }

    fn is_at_end(&self) -> (r: bool)
        requires
            self@.well_formed(),
        ensures
            r == at_end(self@.tokens, self@.position),
    {
        self.tokens[self.current].token_type == TokenType::Eof
    }

    fn check(&self, token_type: TokenType) -> (r: bool)
        requires
            self@.well_formed(),
        ensures
            r == check(self@.tokens, self@.position, token_type),
    {
        if self.is_at_end() {
            false
        } else {
            self.tokens[self.current].token_type == token_type
        }
    }

    /// Passes the next token, unless the input ends there.
    fn advance(&mut self)
        requires
            old(self)@.well_formed(),
        ensures
            final(self)@.well_formed(),
            final(self)@.tokens == old(self)@.tokens,
            final(self)@.reports == old(self)@.reports,
            final(self)@.position == if at_end(old(self)@.tokens, old(self)@.position) {
                old(self)@.position
            } else {
                old(self)@.position + 1
            },
    {
        if !self.is_at_end() {
            assert(self.current < self.tokens.len());
            self.current += 1;
            assert(self@.tokens.last() == old(self)@.tokens.last());
        }
    }

    /// Passes the next token if it is of the given kind.
    fn match_token(&mut self, token_type: TokenType) -> (r: bool)
        requires
            old(self)@.well_formed(),
        ensures
            final(self)@.well_formed(),
            final(self)@.tokens == old(self)@.tokens,
            final(self)@.reports == old(self)@.reports,
            r == check(old(self)@.tokens, old(self)@.position, token_type),
            final(self)@.position == old(self)@.position + if r { 1nat } else { 0nat },
    {
        if self.check(token_type) {
            self.advance();
            true
        } else {
            false
        }
    }

    /// Whether the next token is an operator of `level`.
    fn operator_ahead(&self, level: Level) -> (r: bool)
        requires
            self@.well_formed(),
        ensures
            r == operator_at(self@.tokens, self@.position, level),
    {
        match level {
            Level::Or => self.check(TokenType::Or),
            Level::And => self.check(TokenType::And),
            Level::Equality => self.check(TokenType::BangEqual) || self.check(TokenType::EqualEqual),
            Level::Comparison => self.check(TokenType::Greater) || self.check(TokenType::GreaterEqual)
                || self.check(TokenType::Less) || self.check(TokenType::LessEqual),
            Level::Term => self.check(TokenType::Plus) || self.check(TokenType::Minus),
            Level::Factor => self.check(TokenType::Star) || self.check(TokenType::Slash),
        }
    }

    /// The error for `message` at `token`.
    fn error(token: &Token, message: &str) -> (r: ParseError)
        ensures
            r@ == error_at(token@, message@),
    {
        let mut text = String::from_str(message);
        if token.token_type == TokenType::Eof {
            text.append(" at end");
        } else {
            text.append(" at '");
            text.append(token.lexeme.as_str());
            text.append("'");
        }
        ParseError { message: text, line: token.line }
    }

    /// Passes a token of the given kind and hands it back, or fails with
    /// `message` at the token that stands there.
    fn consume(&mut self, token_type: TokenType, message: &str) -> (r: Result<Token, ParseError>)
        requires
            old(self)@.well_formed(),
        ensures
            final(self)@.follows(
                old(self)@,
                result_view(r),
                expect(old(self)@.tokens, old(self)@.position, token_type, message@, old(self)@.reports),
            ),
    {
        if self.check(token_type) {
            let token = self.peek().clone();
            self.advance();
            Ok(token)
        } else {
            Err(Self::error(self.peek(), message))
        }
    }

    /// primary → NUMBER | STRING | "true" | "false" | "nil"
    /// | "(" expression ")" | IDENT
    #[verifier::spinoff_prover]
    #[verifier::rlimit(30)]
    fn primary(&mut self) -> (r: Result<Expr, ParseError>)
        requires
            old(self)@.well_formed(),
        ensures
            final(self)@.follows(
                old(self)@,
                result_view(r),
                primary(old(self)@.tokens, old(self)@.position, old(self)@.reports),
            ),
        decreases remaining(old(self)@.tokens, old(self)@.position), 0nat,
    {
        if self.match_token(TokenType::Identifier) {
            return Ok(Expr::variable(self.previous().clone()));
        }
        if self.match_token(TokenType::False) {
            return Ok(Expr::literal(Some(LiteralValue::Boolean(false))));
        }
        if self.match_token(TokenType::True) {
            return Ok(Expr::literal(Some(LiteralValue::Boolean(true))));
        }
        if self.match_token(TokenType::Nil) {
            return Ok(Expr::literal(Some(LiteralValue::Nil)));
        }
        if self.match_token(TokenType::Number) || self.match_token(TokenType::String) {
            return Ok(Expr::literal(clone_literal(&self.previous().literal)));
        }
        if self.match_token(TokenType::LeftParen) {
            let inner = match self.expression() {
                Ok(e) => e,
                Err(e) => {
                    return Err(e);
                },
            };
            return match self.consume(TokenType::RightParen, "Expect ')' after expression.") {
                Ok(_) => Ok(Expr::grouping(inner)),
                Err(e) => Err(e),
            };
        }
        Err(Self::error(self.peek(), "Expect expression."))
    }

    /// arguments → expression ( "," expression )*
    #[verifier::spinoff_prover]
    fn arguments(&mut self) -> (r: Result<Vec<Expr>, ParseError>)
        requires
            old(self)@.well_formed(),
        ensures
            final(self)@.follows(
                old(self)@,
                match r {
                    Ok(list) => Ok(exprs_view(list@)),
                    Err(e) => Err(e@),
                },
                arguments(old(self)@.tokens, old(self)@.position, old(self)@.reports, Seq::empty()),
            ),
        decreases remaining(old(self)@.tokens, old(self)@.position), 40nat,
    {
        let mut list: Vec<Expr> = Vec::new();
        let ghost ts = self@.tokens;
        let ghost start = self@.position;
        let ghost goal = arguments(ts, start, self@.reports, Seq::empty());
        assert(exprs_view(list@) =~= Seq::<ExprModel>::empty());
        loop
            invariant_except_break
                goal == after(
                    (self@.position - start) as nat,
                    arguments(ts, self@.position, self@.reports, exprs_view(list@)),
                ),
            invariant
                self@.well_formed(),
                self@.tokens == ts,
                ts == old(self)@.tokens,
                start == old(self)@.position,
                self@.position >= start,
                goal == arguments(ts, start, old(self)@.reports, Seq::empty()),
            ensures
                self@.follows(old(self)@, Ok(exprs_view(list@)), goal),
                goal == arguments(ts, start, old(self)@.reports, Seq::empty()),
            decreases remaining(ts, self@.position),
        {
            match self.expression() {
                Ok(e) => {
                    proof {
                        lemma_exprs_view_push(list@, e);
                    }
                    list.push(e);
                },
                Err(e) => {
                    return Err(e);
                },
            }
            if !self.match_token(TokenType::Comma) {
                break ;
            }
        }
        Ok(list)
    }

    /// The rest of a call, from behind its opening parenthesis:
    /// arguments? ")"
    #[verifier::spinoff_prover]
    fn finish_call(&mut self, callee: Expr) -> (r: Result<Expr, ParseError>)
        requires
            old(self)@.well_formed(),
        ensures
            ({
                let group = argument_group(old(self)@.tokens, old(self)@.position, old(self)@.reports);
                final(self)@.follows(
                    old(self)@,
                    result_view(r),
                    if group.result is Err {
                        failure(group)
                    } else {
                        wrap(group, call_node(callee@, group.result->Ok_0))
                    },
                )
            }),
        decreases remaining(old(self)@.tokens, old(self)@.position), 41nat,
    {
        let list = if self.check(TokenType::RightParen) {
            let list: Vec<Expr> = Vec::new();
            assert(exprs_view(list@) =~= Seq::<ExprModel>::empty());
            list
        } else {
            match self.arguments() {
                Ok(list) => list,
                Err(e) => {
                    return Err(e);
                },
            }
        };
        match self.consume(TokenType::RightParen, "Expect ')' after arguments.") {
            Ok(paren) => {
                proof {
                    Expr::lemma_call_model(callee, paren, list);
                }
                Ok(Expr::call(callee, paren, list))
            },
            Err(e) => Err(e),
        }
    }

    /// call → primary ( "(" arguments? ")" )*
    #[verifier::spinoff_prover]
    fn call(&mut self) -> (r: Result<Expr, ParseError>)
        requires
            old(self)@.well_formed(),
        ensures
            final(self)@.follows(
                old(self)@,
                result_view(r),
                call(old(self)@.tokens, old(self)@.position, old(self)@.reports),
            ),
        decreases remaining(old(self)@.tokens, old(self)@.position), 2nat,
    {
        let ghost ts = self@.tokens;
        let ghost start = self@.position;
        let ghost goal = call(ts, start, self@.reports);
        let mut expr = match self.primary() {
            Ok(e) => e,
            Err(e) => {
                return Err(e);
            },
        };
        while self.check(TokenType::LeftParen)
            invariant
                self@.well_formed(),
                self@.tokens == ts,
                ts == old(self)@.tokens,
                start == old(self)@.position,
                self@.position >= start,
                goal == call(ts, start, old(self)@.reports),
                goal == after(
                    (self@.position - start) as nat,
                    call_tail(ts, self@.position, self@.reports, expr@),
                ),
            decreases remaining(ts, self@.position),
        {
            self.advance();
            expr = match self.finish_call(expr) {
                Ok(e) => e,
                Err(e) => {
                    return Err(e);
                },
            };
        }
        Ok(expr)
    }

    /// unary → ( "!" | "-" ) unary | call
    #[verifier::spinoff_prover]
    fn unary(&mut self) -> (r: Result<Expr, ParseError>)
        requires
            old(self)@.well_formed(),
        ensures
            final(self)@.follows(old(self)@, result_view(r), unary(old(self)@.tokens, old(self)@.position, old(self)@.reports)),
        decreases remaining(old(self)@.tokens, old(self)@.position), 3nat,
    {
        if self.match_token(TokenType::Bang) || self.match_token(TokenType::Minus) {
            let operator = self.previous().clone();
            match self.unary() {
                Ok(right) => Ok(Expr::unary(operator, right)),
                Err(e) => Err(e),
            }
        } else {
            self.call()
        }
    }

    /// An operand of `level`: an expression of the next tighter level.
    #[verifier::spinoff_prover]
    fn operand(&mut self, level: Level) -> (r: Result<Expr, ParseError>)
        requires
            old(self)@.well_formed(),
        ensures
            final(self)@.follows(
                old(self)@,
                result_view(r),
                operand(old(self)@.tokens, old(self)@.position, old(self)@.reports, level),
            ),
        decreases remaining(old(self)@.tokens, old(self)@.position), 4 + 3 * level.height(),
    {
        match level {
            Level::Or => self.binary(Level::And),
            Level::And => self.binary(Level::Equality),
            Level::Equality => self.binary(Level::Comparison),
            Level::Comparison => self.binary(Level::Term),
            Level::Term => self.binary(Level::Factor),
            Level::Factor => self.unary(),
        }
    }

    /// One level of left-associative binary operators:
    /// operand ( operator operand )*
    #[verifier::spinoff_prover]
    fn binary(&mut self, level: Level) -> (r: Result<Expr, ParseError>)
        requires
            old(self)@.well_formed(),
        ensures
            final(self)@.follows(
                old(self)@,
                result_view(r),
                binary(old(self)@.tokens, old(self)@.position, old(self)@.reports, level),
            ),
        decreases remaining(old(self)@.tokens, old(self)@.position), 6 + 3 * level.height(),
    {
        let ghost ts = self@.tokens;
        let ghost start = self@.position;
        let ghost goal = binary(ts, start, self@.reports, level);
        let mut expr = match self.operand(level) {
            Ok(e) => e,
            Err(e) => {
                return Err(e);
            },
        };
        while self.operator_ahead(level)
            invariant
                self@.well_formed(),
                self@.tokens == ts,
                ts == old(self)@.tokens,
                start == old(self)@.position,
                self@.position >= start,
                goal == binary(ts, start, old(self)@.reports, level),
                goal == after(
                    (self@.position - start) as nat,
                    binary_tail(ts, self@.position, self@.reports, level, expr@),
                ),
            decreases remaining(ts, self@.position),
        {
            let operator = self.peek().clone();
            self.advance();
            let right = match self.operand(level) {
                Ok(e) => e,
                Err(e) => {
                    return Err(e);
                },
            };
            expr = match level {
                Level::Or | Level::And => Expr::logical(expr, operator, right),
                _ => Expr::binary(expr, operator, right),
            };
        }
        Ok(expr)
    }

    /// assignment → IDENT "=" assignment | logic_or
    #[verifier::spinoff_prover]
    fn assignment(&mut self) -> (r: Result<Expr, ParseError>)
        requires
            old(self)@.well_formed(),
        ensures
            final(self)@.follows(
                old(self)@,
                result_view(r),
                assignment(old(self)@.tokens, old(self)@.position, old(self)@.reports),
            ),
        decreases remaining(old(self)@.tokens, old(self)@.position), 30nat,
    {
        let target = match self.binary(Level::Or) {
            Ok(e) => e,
            Err(e) => {
                return Err(e);
            },
        };
        if self.match_token(TokenType::Equal) {
            let equals = self.previous().clone();
            let value = match self.assignment() {
                Ok(e) => e,
                Err(e) => {
                    return Err(e);
                },
            };
            match target {
                Expr::Variable { name } => Ok(Expr::assign(name, value)),
                other => {
                    let ghost before = self.reports@;
                    let report = Self::error(&equals, "Invalid assignment target.");
                    self.reports.push(report);
                    assert(errors_view(self.reports@) =~= errors_view(before).push(report@));
                    Ok(other)
                },
            }
        } else {
            Ok(target)
        }
    }

    /// expression → assignment
    #[verifier::spinoff_prover]
    fn expression(&mut self) -> (r: Result<Expr, ParseError>)
        requires
            old(self)@.well_formed(),
        ensures
            final(self)@.follows(
                old(self)@,
                result_view(r),
                expression(old(self)@.tokens, old(self)@.position, old(self)@.reports),
            ),
        decreases remaining(old(self)@.tokens, old(self)@.position), 31nat,
    {
        self.assignment()
    }

    /// An expression, unless a token of the given kind comes next.
    #[verifier::spinoff_prover]
    fn optional_expression(&mut self, stop: TokenType) -> (r: Result<Option<Expr>, ParseError>)
        requires
            old(self)@.well_formed(),
        ensures
            final(self)@.follows(
                old(self)@,
                match r {
                    Ok(e) => Ok(option_view(e)),
                    Err(e) => Err(e@),
                },
                optional_expression(old(self)@.tokens, old(self)@.position, old(self)@.reports, stop),
            ),
        decreases remaining(old(self)@.tokens, old(self)@.position), 45nat,
    {
        if self.check(stop) {
            Ok(None)
        } else {
            match self.expression() {
                Ok(e) => Ok(Some(e)),
                Err(e) => Err(e),
            }
        }
    }

    /// An optional expression and the token that ends it: expression? STOP
    #[verifier::spinoff_prover]
    fn clause(&mut self, stop: TokenType, message: &str) -> (r: Result<Option<Expr>, ParseError>)
        requires
            old(self)@.well_formed(),
        ensures
            final(self)@.follows(
                old(self)@,
                match r {
                    Ok(e) => Ok(option_view(e)),
                    Err(e) => Err(e@),
                },
                clause(old(self)@.tokens, old(self)@.position, old(self)@.reports, stop, message@),
            ),
        decreases remaining(old(self)@.tokens, old(self)@.position), 46nat,
    {
        let value = match self.optional_expression(stop) {
            Ok(v) => v,
            Err(e) => {
                return Err(e);
            },
        };
        match self.consume(stop, message) {
            Ok(_) => Ok(value),
            Err(e) => Err(e),
        }
    }

    /// exprStmt → expression ";"
    #[verifier::spinoff_prover]
    fn expression_statement(&mut self) -> (r: Result<Stmt, ParseError>)
        requires
            old(self)@.well_formed(),
        ensures
            final(self)@.follows(
                old(self)@,
                result_view(r),
                expression_statement(old(self)@.tokens, old(self)@.position, old(self)@.reports),
            ),
        decreases remaining(old(self)@.tokens, old(self)@.position), 50nat,
    {
        let expr = match self.expression() {
            Ok(e) => e,
            Err(e) => {
                return Err(e);
            },
        };
        match self.consume(TokenType::Semicolon, "Expect ';' after value.") {
            Ok(_) => Ok(Stmt::expression(expr)),
            Err(e) => Err(e),
        }
    }

    /// printStmt → "print" expression ";", from behind the keyword.
    #[verifier::spinoff_prover]
    fn print_statement(&mut self) -> (r: Result<Stmt, ParseError>)
        requires
            old(self)@.well_formed(),
        ensures
            final(self)@.follows(
                old(self)@,
                result_view(r),
                print_statement(old(self)@.tokens, old(self)@.position, old(self)@.reports),
            ),
        decreases remaining(old(self)@.tokens, old(self)@.position), 50nat,
    {
        let value = match self.expression() {
            Ok(e) => e,
            Err(e) => {
                return Err(e);
            },
        };
        match self.consume(TokenType::Semicolon, "Expect ';' after expression.") {
            Ok(_) => Ok(Stmt::print(value)),
            Err(e) => Err(e),
        }
    }

    /// returnStmt → "return" expression? ";", from behind the keyword.
    #[verifier::spinoff_prover]
    fn return_statement(&mut self, keyword: Token) -> (r: Result<Stmt, ParseError>)
        requires
            old(self)@.well_formed(),
        ensures
            final(self)@.follows(
                old(self)@,
                result_view(r),
                return_statement(old(self)@.tokens, old(self)@.position, old(self)@.reports, keyword@),
            ),
        decreases remaining(old(self)@.tokens, old(self)@.position), 50nat,
    {
        match self.clause(TokenType::Semicolon, "Expect ';' after return value.") {
            Ok(value) => Ok(Stmt::return_stmt(keyword, value)),
            Err(e) => Err(e),
        }
    }

    /// The initializer of a declaration: ( "=" expression )?
    #[verifier::spinoff_prover]
    fn initializer(&mut self) -> (r: Result<Option<Expr>, ParseError>)
        requires
            old(self)@.well_formed(),
        ensures
            final(self)@.follows(
                old(self)@,
                match r {
                    Ok(e) => Ok(option_view(e)),
                    Err(e) => Err(e@),
                },
                initializer(old(self)@.tokens, old(self)@.position, old(self)@.reports),
            ),
        decreases remaining(old(self)@.tokens, old(self)@.position), 45nat,
    {
        if self.match_token(TokenType::Equal) {
            match self.expression() {
                Ok(e) => Ok(Some(e)),
                Err(e) => Err(e),
            }
        } else {
            Ok(None)
        }
    }

    /// varDecl → "var" IDENT ( "=" expression )? ";", from behind the
    /// keyword.
    #[verifier::spinoff_prover]
    fn var_declaration(&mut self) -> (r: Result<Stmt, ParseError>)
        requires
            old(self)@.well_formed(),
        ensures
            final(self)@.follows(
                old(self)@,
                result_view(r),
                var_declaration(old(self)@.tokens, old(self)@.position, old(self)@.reports),
            ),
        decreases remaining(old(self)@.tokens, old(self)@.position), 50nat,
    {
        let name = match self.consume(TokenType::Identifier, "Expect variable name.") {
            Ok(t) => t,
            Err(e) => {
                return Err(e);
            },
        };
        let init = match self.initializer() {
            Ok(v) => v,
            Err(e) => {
                return Err(e);
            },
        };
        match self.consume(TokenType::Semicolon, "Expect ';' after variable declaration.") {
            Ok(_) => Ok(Stmt::var(name, init)),
            Err(e) => Err(e),
        }
    }

    /// "(" expression ")", with the messages for what is missing.
    #[verifier::spinoff_prover]
    fn condition(&mut self, open: &str, close: &str) -> (r: Result<Expr, ParseError>)
        requires
            old(self)@.well_formed(),
        ensures
            final(self)@.follows(
                old(self)@,
                result_view(r),
                condition(old(self)@.tokens, old(self)@.position, old(self)@.reports, open@, close@),
            ),
        decreases remaining(old(self)@.tokens, old(self)@.position), 46nat,
    {
        match self.consume(TokenType::LeftParen, open) {
            Ok(_) => {},
            Err(e) => {
                return Err(e);
            },
        }
        let test = match self.expression() {
            Ok(e) => e,
            Err(e) => {
                return Err(e);
            },
        };
        match self.consume(TokenType::RightParen, close) {
            Ok(_) => Ok(test),
            Err(e) => Err(e),
        }
    }

    /// The else branch of a conditional: ( "else" statement )?
    #[verifier::spinoff_prover]
    fn else_branch(&mut self) -> (r: Result<Option<Stmt>, ParseError>)
        requires
            old(self)@.well_formed(),
        ensures
            final(self)@.follows(
                old(self)@,
                match r {
                    Ok(Some(s)) => Ok(Some(Box::new(s@))),
                    Ok(None) => Ok(None),
                    Err(e) => Err(e@),
                },
                else_branch(old(self)@.tokens, old(self)@.position, old(self)@.reports),
            ),
        decreases remaining(old(self)@.tokens, old(self)@.position), 47nat,
    {
        if self.match_token(TokenType::Else) {
            match self.statement() {
                Ok(s) => Ok(Some(s)),
                Err(e) => Err(e),
            }
        } else {
            Ok(None)
        }
    }

    /// The branches of a conditional whose condition is `test`:
    /// statement ( "else" statement )?
    #[verifier::spinoff_prover]
    fn if_branches(&mut self, test: Expr) -> (r: Result<Stmt, ParseError>)
        requires
            old(self)@.well_formed(),
        ensures
            final(self)@.follows(
                old(self)@,
                result_view(r),
                if_branches(old(self)@.tokens, old(self)@.position, old(self)@.reports, test@),
            ),
        decreases remaining(old(self)@.tokens, old(self)@.position), 64nat,
    {
        let then_branch = match self.statement() {
            Ok(s) => s,
            Err(e) => {
                return Err(e);
            },
        };
        match self.else_branch() {
            Ok(other) => Ok(Stmt::if_stmt(test, then_branch, other)),
            Err(e) => Err(e),
        }
    }

    /// ifStmt → "if" "(" expression ")" statement ( "else" statement )?,
    /// from behind the keyword.
    #[verifier::spinoff_prover]
    fn if_statement(&mut self) -> (r: Result<Stmt, ParseError>)
        requires
            old(self)@.well_formed(),
        ensures
            final(self)@.follows(
                old(self)@,
                result_view(r),
                if_statement(old(self)@.tokens, old(self)@.position, old(self)@.reports),
            ),
        decreases remaining(old(self)@.tokens, old(self)@.position), 65nat,
    {
        match self.condition("Expect '(' after 'if'.", "Expect ')' after if condition.") {
            Ok(test) => self.if_branches(test),
            Err(e) => Err(e),
        }
    }

    /// whileStmt → "while" "(" expression ")" statement, from behind the
    /// keyword.
    #[verifier::spinoff_prover]
    fn while_statement(&mut self) -> (r: Result<Stmt, ParseError>)
        requires
            old(self)@.well_formed(),
        ensures
            final(self)@.follows(
                old(self)@,
                result_view(r),
                while_statement(old(self)@.tokens, old(self)@.position, old(self)@.reports),
            ),
        decreases remaining(old(self)@.tokens, old(self)@.position), 65nat,
    {
        let test = match self.condition(
            "Expect '(' after 'while'.",
            "Expect ')' after while condition.",
        ) {
            Ok(e) => e,
            Err(e) => {
                return Err(e);
            },
        };
        match self.statement() {
            Ok(body) => Ok(Stmt::while_stmt(test, body)),
            Err(e) => Err(e),
        }
    }

    /// The first clause of a `for`: varDecl | exprStmt | ";"
    #[verifier::spinoff_prover]
    fn for_initializer(&mut self) -> (r: Result<Option<Stmt>, ParseError>)
        requires
            old(self)@.well_formed(),
        ensures
            final(self)@.follows(
                old(self)@,
                match r {
                    Ok(s) => Ok(optional_stmt_view(s)),
                    Err(e) => Err(e@),
                },
                for_initializer(old(self)@.tokens, old(self)@.position, old(self)@.reports),
            ),
        decreases remaining(old(self)@.tokens, old(self)@.position), 51nat,
    {
        if self.match_token(TokenType::Semicolon) {
            Ok(None)
        } else if self.match_token(TokenType::Var) {
            match self.var_declaration() {
                Ok(s) => Ok(Some(s)),
                Err(e) => Err(e),
            }
        } else {
            match self.expression_statement() {
                Ok(s) => Ok(Some(s)),
                Err(e) => Err(e),
            }
        }
    }

    /// The condition and the increment of a `for`, each with the token
    /// that ends it: expression? ";" expression? ")"
    #[verifier::spinoff_prover]
    fn for_tests(&mut self) -> (r: Result<(Option<Expr>, Option<Expr>), ParseError>)
        requires
            old(self)@.well_formed(),
        ensures
            final(self)@.follows(
                old(self)@,
                match r {
                    Ok(parts) => Ok((option_view(parts.0), option_view(parts.1))),
                    Err(e) => Err(e@),
                },
                for_tests(old(self)@.tokens, old(self)@.position, old(self)@.reports),
            ),
        decreases remaining(old(self)@.tokens, old(self)@.position), 47nat,
    {
        let cond = match self.clause(TokenType::Semicolon, "Expect ';' after loop condition.") {
            Ok(c) => c,
            Err(e) => {
                return Err(e);
            },
        };
        match self.clause(TokenType::RightParen, "Expect ')' after for clauses.") {
            Ok(incr) => Ok((cond, incr)),
            Err(e) => Err(e),
        }
    }

    /// The clauses of a `for` between its parentheses:
    /// ( varDecl | exprStmt | ";" ) expression? ";" expression? ")"
    #[verifier::spinoff_prover]
    fn for_clauses(&mut self) -> (r: Result<(Option<Stmt>, Option<Expr>, Option<Expr>), ParseError>)
        requires
            old(self)@.well_formed(),
        ensures
            final(self)@.follows(
                old(self)@,
                match r {
                    Ok(parts) => Ok(
                        (optional_stmt_view(parts.0), option_view(parts.1), option_view(parts.2)),
                    ),
                    Err(e) => Err(e@),
                },
                for_clauses(old(self)@.tokens, old(self)@.position, old(self)@.reports),
            ),
        decreases remaining(old(self)@.tokens, old(self)@.position), 52nat,
    {
        let init = match self.for_initializer() {
            Ok(s) => s,
            Err(e) => {
                return Err(e);
            },
        };
        match self.for_tests() {
            Ok(tests) => Ok((init, tests.0, tests.1)),
            Err(e) => Err(e),
        }
    }

    /// The body of a `for` with the given clauses. The whole statement is
    /// handed back as the loop it stands for.
    #[verifier::spinoff_prover]
    fn for_body(&mut self, clauses: (Option<Stmt>, Option<Expr>, Option<Expr>)) -> (r: Result<
        Stmt,
        ParseError,
    >)
        requires
            old(self)@.well_formed(),
        ensures
            final(self)@.follows(
                old(self)@,
                result_view(r),
                for_body(
                    old(self)@.tokens,
                    old(self)@.position,
                    old(self)@.reports,
                    (optional_stmt_view(clauses.0), option_view(clauses.1), option_view(clauses.2)),
                ),
            ),
        decreases remaining(old(self)@.tokens, old(self)@.position), 64nat,
    {
        match self.statement() {
            Ok(body) => Ok(desugar_for(clauses.0, clauses.1, clauses.2, body)),
            Err(e) => Err(e),
        }
    }

    /// forStmt → "for" "(" ( varDecl | exprStmt | ";" ) expression? ";"
    /// expression? ")" statement, from behind the keyword.
    #[verifier::spinoff_prover]
    fn for_statement(&mut self) -> (r: Result<Stmt, ParseError>)
        requires
            old(self)@.well_formed(),
        ensures
            final(self)@.follows(
                old(self)@,
                result_view(r),
                for_statement(old(self)@.tokens, old(self)@.position, old(self)@.reports),
            ),
        decreases remaining(old(self)@.tokens, old(self)@.position), 65nat,
    {
        match self.consume(TokenType::LeftParen, "Expect '(' after 'for'.") {
            Ok(_) => {},
            Err(e) => {
                return Err(e);
            },
        }
        match self.for_clauses() {
            Ok(clauses) => self.for_body(clauses),
            Err(e) => Err(e),
        }
    }

    /// The rest of a block, after the statements in `seen`:
    /// declaration* "}"
    #[verifier::spinoff_prover]
    fn block_items(&mut self, seen: Vec<Stmt>) -> (r: Result<Vec<Stmt>, ParseError>)
        requires
            old(self)@.well_formed(),
        ensures
            final(self)@.follows(
                old(self)@,
                match r {
                    Ok(list) => Ok(stmts_view(list@)),
                    Err(e) => Err(e@),
                },
                block_items(old(self)@.tokens, old(self)@.position, old(self)@.reports, stmts_view(seen@)),
            ),
        decreases remaining(old(self)@.tokens, old(self)@.position), 62nat,
    {
        let mut list = seen;
        let ghost ts = self@.tokens;
        let ghost start = self@.position;
        let ghost goal = block_items(ts, start, self@.reports, stmts_view(seen@));
        while !self.check(TokenType::RightBrace) && !self.is_at_end()
            invariant
                self@.well_formed(),
                self@.tokens == ts,
                ts == old(self)@.tokens,
                start == old(self)@.position,
                self@.position >= start,
                goal == block_items(ts, start, old(self)@.reports, stmts_view(seen@)),
                goal == after(
                    (self@.position - start) as nat,
                    block_items(ts, self@.position, self@.reports, stmts_view(list@)),
                ),
            decreases remaining(ts, self@.position),
        {
            let ghost here = self@.position;
            let ghost told = self@.reports;
            match self.declaration() {
                Ok(s) => {
                    proof {
                        lemma_declaration_progress(ts, here, told);
                        lemma_stmts_view_push(list@, s);
                    }
                    list.push(s);
                },
                Err(e) => {
                    return Err(e);
                },
            }
        }
        match self.consume(TokenType::RightBrace, "Expect '}' after block.") {
            Ok(_) => Ok(list),
            Err(e) => Err(e),
        }
    }

    /// A block, from behind its opening brace.
    #[verifier::spinoff_prover]
    fn block(&mut self) -> (r: Result<Stmt, ParseError>)
        requires
            old(self)@.well_formed(),
        ensures
            final(self)@.follows(old(self)@, result_view(r), block(old(self)@.tokens, old(self)@.position, old(self)@.reports)),
        decreases remaining(old(self)@.tokens, old(self)@.position), 63nat,
    {
        let none: Vec<Stmt> = Vec::new();
        assert(stmts_view(none@) =~= Seq::<StmtModel>::empty());
        match self.block_items(none) {
            Ok(list) => Ok(Stmt::block(list)),
            Err(e) => Err(e),
        }
    }

    /// params → IDENT ( "," IDENT )*
    #[verifier::spinoff_prover]
    fn parameters(&mut self) -> (r: Result<Vec<Token>, ParseError>)
        requires
            old(self)@.well_formed(),
        ensures
            final(self)@.follows(
                old(self)@,
                match r {
                    Ok(list) => Ok(tokens_view(list@)),
                    Err(e) => Err(e@),
                },
                parameters(old(self)@.tokens, old(self)@.position, old(self)@.reports, Seq::empty()),
            ),
        decreases remaining(old(self)@.tokens, old(self)@.position), 50nat,
    {
        let mut list: Vec<Token> = Vec::new();
        let ghost ts = self@.tokens;
        let ghost start = self@.position;
        let ghost goal = parameters(ts, start, self@.reports, Seq::empty());
        assert(tokens_view(list@) =~= Seq::<TokenModel>::empty());
        loop
            invariant_except_break
                goal == after(
                    (self@.position - start) as nat,
                    parameters(ts, self@.position, self@.reports, tokens_view(list@)),
                ),
            invariant
                self@.well_formed(),
                self@.tokens == ts,
                ts == old(self)@.tokens,
                start == old(self)@.position,
                self@.position >= start,
                self@.reports == old(self)@.reports,
                goal == parameters(ts, start, old(self)@.reports, Seq::empty()),
            ensures
                self@.follows(old(self)@, Ok(tokens_view(list@)), goal),
                goal == parameters(ts, start, old(self)@.reports, Seq::empty()),
            decreases remaining(ts, self@.position),
        {
            match self.consume(TokenType::Identifier, "Expect parameter name.") {
                Ok(name) => {
                    proof {
                        lemma_tokens_view_push(list@, name);
                    }
                    list.push(name);
                },
                Err(e) => {
                    return Err(e);
                },
            }
            if !self.match_token(TokenType::Comma) {
                break ;
            }
        }
        Ok(list)
    }

    /// The parameter list of a declaration: "(" params? ")"
    #[verifier::spinoff_prover]
    fn parameter_list(&mut self) -> (r: Result<Vec<Token>, ParseError>)
        requires
            old(self)@.well_formed(),
        ensures
            final(self)@.follows(
                old(self)@,
                match r {
                    Ok(list) => Ok(tokens_view(list@)),
                    Err(e) => Err(e@),
                },
                parameter_list(old(self)@.tokens, old(self)@.position, old(self)@.reports),
            ),
    {
        match self.consume(TokenType::LeftParen, "Expect '(' after function name.") {
            Ok(_) => {},
            Err(e) => {
                return Err(e);
            },
        }
        let names = if self.check(TokenType::RightParen) {
            let none: Vec<Token> = Vec::new();
            assert(tokens_view(none@) =~= Seq::<TokenModel>::empty());
            none
        } else {
            match self.parameters() {
                Ok(list) => list,
                Err(e) => {
                    return Err(e);
                },
            }
        };
        match self.consume(TokenType::RightParen, "Expect ')' after parameters.") {
            Ok(_) => Ok(names),
            Err(e) => Err(e),
        }
    }

    /// funDecl → "fun" IDENT "(" params? ")" block, from behind the
    /// keyword.
    #[verifier::spinoff_prover]
    fn function(&mut self) -> (r: Result<Stmt, ParseError>)
        requires
            old(self)@.well_formed(),
        ensures
            final(self)@.follows(
                old(self)@,
                result_view(r),
                function(old(self)@.tokens, old(self)@.position, old(self)@.reports),
            ),
        decreases remaining(old(self)@.tokens, old(self)@.position), 50nat,
    {
        let name = match self.consume(TokenType::Identifier, "Expect function name.") {
            Ok(t) => t,
            Err(e) => {
                return Err(e);
            },
        };
        let params = match self.parameter_list() {
            Ok(list) => list,
            Err(e) => {
                return Err(e);
            },
        };
        match self.consume(TokenType::LeftBrace, "Expect '{' before function body.") {
            Ok(_) => {},
            Err(e) => {
                return Err(e);
            },
        }
        let none: Vec<Stmt> = Vec::new();
        assert(stmts_view(none@) =~= Seq::<StmtModel>::empty());
        match self.block_items(none) {
            Ok(body) => Ok(Stmt::function(name, params, body)),
            Err(e) => Err(e),
        }
    }

    /// statement → exprStmt | printStmt | block | ifStmt | whileStmt
    /// | forStmt | returnStmt
    #[verifier::spinoff_prover]
    fn statement(&mut self) -> (r: Result<Stmt, ParseError>)
        requires
            old(self)@.well_formed(),
        ensures
            final(self)@.follows(
                old(self)@,
                result_view(r),
                statement(old(self)@.tokens, old(self)@.position, old(self)@.reports),
            ),
        decreases remaining(old(self)@.tokens, old(self)@.position), 60nat,
    {
        if self.match_token(TokenType::Print) {
            self.print_statement()
        } else if self.match_token(TokenType::If) {
            self.if_statement()
        } else if self.match_token(TokenType::While) {
            self.while_statement()
        } else if self.match_token(TokenType::LeftBrace) {
            self.block()
        } else if self.match_token(TokenType::For) {
            self.for_statement()
        } else if self.match_token(TokenType::Return) {
            let keyword = self.previous().clone();
            self.return_statement(keyword)
        } else {
            self.expression_statement()
        }
    }

    /// declaration → varDecl | funDecl | statement
    #[verifier::spinoff_prover]
    fn declaration(&mut self) -> (r: Result<Stmt, ParseError>)
        requires
            old(self)@.well_formed(),
        ensures
            final(self)@.follows(
                old(self)@,
                result_view(r),
                declaration(old(self)@.tokens, old(self)@.position, old(self)@.reports),
            ),
        decreases remaining(old(self)@.tokens, old(self)@.position), 61nat,
    {
        if self.match_token(TokenType::Var) {
            self.var_declaration()
        } else if self.match_token(TokenType::Fun) {
            self.function()
        } else {
            self.statement()
        }
    }

    /// Skips to where parsing may resume after an error: one token, then up
    /// to the next statement boundary.
    fn synchronize(&mut self)
        requires
            old(self)@.well_formed(),
        ensures
            final(self)@.well_formed(),
            final(self)@.tokens == old(self)@.tokens,
            final(self)@.reports == old(self)@.reports,
            final(self)@.position == old(self)@.position + synchronize(
                old(self)@.tokens,
                old(self)@.position,
            ),
    {
        let ghost ts = self@.tokens;
        let ghost start = self@.position;
        if self.is_at_end() {
            return ;
        }
        self.advance();
        loop
            invariant
                self@.well_formed(),
                self@.tokens == ts,
                ts == old(self)@.tokens,
                self@.reports == old(self)@.reports,
                start == old(self)@.position,
                self@.position > start,
                to_boundary(ts, start + 1) == (self@.position - (start + 1)) + to_boundary(
                    ts,
                    self@.position,
                ),
            ensures
                self@.well_formed(),
                self@.tokens == ts,
                self@.reports == old(self)@.reports,
                self@.position == start + 1 + to_boundary(ts, start + 1),
            decreases remaining(ts, self@.position),
        {
            if self.is_at_end() {
                break ;
            }
            if self.previous().token_type == TokenType::Semicolon {
                break ;
            }
            if Self::begins_statement(self.peek().token_type) {
                break ;
            }
            self.advance();
        }
    }

    /// Whether a statement begins with a token of this kind.
    fn begins_statement(token_type: TokenType) -> (r: bool)
        ensures
            r == starts_statement(token_type),
    {
        match token_type {
            TokenType::Class
            | TokenType::Fun
            | TokenType::Var
            | TokenType::For
            | TokenType::If
            | TokenType::While
            | TokenType::Print
            | TokenType::Return => true,
            _ => false,
        }
    }

    /// Hands every recorded error to `error_reporter` and empties the
    /// record.
    fn flush(&mut self, error_reporter: &mut ErrorReporter)
        requires
            old(self)@.well_formed(),
        ensures
            final(self)@.well_formed(),
            final(self)@.tokens == old(self)@.tokens,
            final(self)@.position == old(self)@.position,
            final(self)@.reports == Seq::<ParseErrorModel>::empty(),
            final(error_reporter)@.diagnostics == old(error_reporter)@.diagnostics + old(
                self,
            )@.reports.map_values(|e: ParseErrorModel| e.diagnostic()),
            final(error_reporter)@.had_error == (old(error_reporter)@.had_error || old(
                self,
            )@.reports.len() > 0),
    {
        let ghost told = self@.reports;
        let ghost before = error_reporter@.diagnostics;
        let mut i: usize = 0;
        while i < self.reports.len()
            invariant
                i <= self.reports.len(),
                self@ == old(self)@,
                told == self@.reports,
                before == old(error_reporter)@.diagnostics,
                error_reporter@.diagnostics == before + told.subrange(0, i as int).map_values(
                    |e: ParseErrorModel| e.diagnostic(),
                ),
                error_reporter@.had_error == (old(error_reporter)@.had_error || i > 0),
            decreases self.reports.len() - i,
        {
            let ghost sofar = error_reporter@.diagnostics;
            error_reporter.error(self.reports[i].line, self.reports[i].message.as_str());
            assert(error_reporter@.diagnostics =~= before + told.subrange(0, i + 1).map_values(
                |e: ParseErrorModel| e.diagnostic(),
            )) by {
                assert(error_reporter@.diagnostics == sofar.push(told[i as int].diagnostic()));
            }
            i += 1;
        }
        assert(told.subrange(0, i as int) =~= told);
        self.reports = Vec::new();
        assert(self@.reports =~= Seq::<ParseErrorModel>::empty());
    }

    /// Reads one declaration at the top of the input. A declaration that
    /// fails is recorded; the tokens up to the next boundary are skipped
    /// with it.
    #[verifier::spinoff_prover]
    fn next_declaration(&mut self, statements: &mut Vec<Stmt>)
        requires
            old(self)@.well_formed(),
            !at_end(old(self)@.tokens, old(self)@.position),
        ensures
            ({
                let outcome = round(
                    old(self)@.tokens,
                    old(self)@.position,
                    old(self)@.reports,
                    stmts_view(old(statements)@),
                );
                &&& final(self)@.well_formed()
                &&& final(self)@.tokens == old(self)@.tokens
                &&& final(self)@.position == old(self)@.position + outcome.consumed
                &&& final(self)@.reports == outcome.reports
                &&& stmts_view(final(statements)@) == outcome.statements
                &&& outcome.consumed >= 1
            }),
    {
        let ghost ts = self@.tokens;
        let ghost here = self@.position;
        let ghost told = self@.reports;
        match self.declaration() {
            Ok(stmt) => {
                proof {
                    lemma_declaration_progress(ts, here, told);
                    lemma_stmts_view_push(statements@, stmt);
                }
                statements.push(stmt);
            },
            Err(err) => {
                let ghost before = self.reports@;
                self.reports.push(err);
                assert(errors_view(self.reports@) =~= errors_view(before).push(err@));
                self.synchronize();
            },
        }
    }

    /// Parses the whole input.
    ///
    /// Hands back the statements that could be read, or `None` where there
    /// is none. Every syntax error goes to `error_reporter`, in the order
    /// in which it was found; after one that stops a declaration, parsing
    /// resumes at the next statement boundary.
    #[verifier::spinoff_prover]
    pub fn parse(&mut self, error_reporter: &mut ErrorReporter) -> (r: Option<Vec<Stmt>>)
        requires
            old(self)@.well_formed(),
        ensures
            ({
                let outcome = program(
                    old(self)@.tokens,
                    old(self)@.position,
                    old(self)@.reports,
                    Seq::empty(),
                );
                &&& final(self)@.well_formed()
                &&& final(self)@.tokens == old(self)@.tokens
                &&& final(self)@.position == old(self)@.position + outcome.consumed
                &&& at_end(final(self)@.tokens, final(self)@.position)
                &&& final(self)@.reports == Seq::<ParseErrorModel>::empty()
                &&& match r {
                    Some(list) => stmts_view(list@) == outcome.statements && list@.len() > 0,
                    None => outcome.statements.len() == 0,
                }
                &&& final(error_reporter)@.diagnostics == old(error_reporter)@.diagnostics
                    + outcome.reports.map_values(|e: ParseErrorModel| e.diagnostic())
                &&& final(error_reporter)@.had_error == (old(error_reporter)@.had_error
                    || outcome.reports.len() > 0)
            }),
    {
        let mut statements: Vec<Stmt> = Vec::new();
        let ghost ts = self@.tokens;
        let ghost start = self@.position;
        let ghost outcome = program(ts, start, self@.reports, Seq::empty());
        assert(stmts_view(statements@) =~= Seq::<StmtModel>::empty());
        while !self.is_at_end()
            invariant
                self@.well_formed(),
                self@.tokens == ts,
                self@.position >= start,
                outcome == resumed(
                    (self@.position - start) as nat,
                    program(ts, self@.position, self@.reports, stmts_view(statements@)),
                ),
            decreases remaining(ts, self@.position),
        {
            self.next_declaration(&mut statements);
        }
        self.flush(error_reporter);
        if statements.len() == 0 {
            None
        } else {
            Some(statements)
        }
    }
}

/// The view of an optional statement.
pub open spec fn optional_stmt_view(s: Option<Stmt>) -> Option<StmtModel> {
    match s {
        Some(s) => Some(s@),
        None => None,
    }
}

/// Builds the loop that a `for` statement stands for.
pub fn desugar_for(init: Option<Stmt>, cond: Option<Expr>, incr: Option<Expr>, body: Stmt) -> (r: Stmt)
    ensures
        r@ == crate::grammar::desugar_for(optional_stmt_view(init), option_view(cond), option_view(incr), body@),
{
    let inner = match incr {
        Some(step) => {
            let items = vec![body, Stmt::expression(step)];
            assert(stmts_view(items@) =~= seq![body@, StmtModel::Expression { expression: step@ }]);
            Stmt::block(items)
        },
        None => body,
    };
    let test = match cond {
        Some(c) => c,
        None => Expr::literal(Some(LiteralValue::Boolean(true))),
    };
    let repeat = Stmt::while_stmt(test, inner);
    match init {
        Some(first) => {
            let items = vec![first, repeat];
            assert(stmts_view(items@) =~= seq![first@, repeat@]);
            Stmt::block(items)
        },
        None => repeat,
    }
}

} // verus!
