//! What a counting loop parses to.
//!
//! `for (var I = A; B < C; D = E + F) BODY`, with names and numbers for
//! the letters and any statement for the body, parses to the tree that
//! `{ var I = A; while (B < C) { BODY D = E + F; } }` parses to.

use vstd::prelude::*;
use crate::expr::ExprModel;
use crate::grammar::{
    accept, assignment, at_end, binary, binary_tail, block, block_items, call, call_tail, check,
    clause, condition, declaration, expression, expression_statement, for_body, for_clauses,
    for_initializer, for_statement, for_tests, initializer, lemma_statement_progress, operand,
    operator_at, optional_expression, primary, statement, unary, var_declaration, while_statement,
    Level, ParseErrorModel,
};
use crate::stmt::StmtModel;
use crate::token::{TokenModel, TokenType};

verus! {

/// Whether the token at `pos` is a name or a number.
pub open spec fn atom_at(ts: Seq<TokenModel>, pos: nat) -> bool {
    check(ts, pos, TokenType::Identifier) || check(ts, pos, TokenType::Number)
}

/// The expression that a name or a number is.
pub open spec fn atom(token: TokenModel) -> ExprModel {
    if token.token_type == TokenType::Identifier {
        ExprModel::Variable { name: token }
    } else {
        ExprModel::Literal { value: token.literal }
    }
}

/// Whether the token at `pos` closes a clause: a semicolon or a right
/// parenthesis.
pub open spec fn closes(ts: Seq<TokenModel>, pos: nat) -> bool {
    check(ts, pos, TokenType::Semicolon) || check(ts, pos, TokenType::RightParen)
}

/// Whether the token at `pos` is an operator of some level.
pub open spec fn any_operator_at(ts: Seq<TokenModel>, pos: nat) -> bool {
    ||| operator_at(ts, pos, Level::Or)
    ||| operator_at(ts, pos, Level::And)
    ||| operator_at(ts, pos, Level::Equality)
    ||| operator_at(ts, pos, Level::Comparison)
    ||| operator_at(ts, pos, Level::Term)
    ||| operator_at(ts, pos, Level::Factor)
}

/// The two operands joined by the operator between them.
pub open spec fn joined(ts: Seq<TokenModel>, pos: nat) -> ExprModel {
    ExprModel::Binary {
        left: Box::new(atom(ts[pos as int])),
        operator: ts[(pos + 1) as int],
        right: Box::new(atom(ts[(pos + 2) as int])),
    }
}

/// A name or a number before a token that is no left parenthesis is a
/// unary expression of one token.
pub proof fn lemma_atom_is_unary(ts: Seq<TokenModel>, pos: nat, told: Seq<ParseErrorModel>)
    requires
        atom_at(ts, pos),
        !check(ts, pos + 1, TokenType::LeftParen),
    ensures
        unary(ts, pos, told) == accept(atom(ts[pos as int]), 1, told),
{
    assert(primary(ts, pos, told) == accept(atom(ts[pos as int]), 1, told));
    assert(call_tail(ts, pos + 1, told, atom(ts[pos as int])) == accept(atom(ts[pos as int]), 0, told));
    assert(call(ts, pos, told) == accept(atom(ts[pos as int]), 1, told));
}

/// An expression of one level that no operator of the next looser level
/// follows is an expression of that level too.
pub proof fn lemma_level_rises(
    ts: Seq<TokenModel>,
    pos: nat,
    told: Seq<ParseErrorModel>,
    level: Level,
    e: ExprModel,
    consumed: nat,
)
    requires
        operand(ts, pos, told, level) == accept(e, consumed, told),
        !operator_at(ts, pos + consumed, level),
    ensures
        binary(ts, pos, told, level) == accept(e, consumed, told),
{
    assert(binary_tail(ts, pos + consumed, told, level, e) == accept(e, 0, told));
}

/// An expression of the level `from` that no operator follows is an
/// expression of every looser level, and an expression.
pub proof fn lemma_rises_to_expression(
    ts: Seq<TokenModel>,
    pos: nat,
    told: Seq<ParseErrorModel>,
    from: Level,
    e: ExprModel,
    consumed: nat,
)
    requires
        binary(ts, pos, told, from) == accept(e, consumed, told),
        !any_operator_at(ts, pos + consumed),
        !check(ts, pos + consumed, TokenType::Equal),
    ensures
        binary(ts, pos, told, Level::Or) == accept(e, consumed, told),
        assignment(ts, pos, told) == accept(e, consumed, told),
        expression(ts, pos, told) == accept(e, consumed, told),
    decreases 5 - from.height(),
{
    if from != Level::Or {
        let looser = match from {
            Level::Factor => Level::Term,
            Level::Term => Level::Comparison,
            Level::Comparison => Level::Equality,
            Level::Equality => Level::And,
            _ => Level::Or,
        };
        assert(operand(ts, pos, told, looser) == binary(ts, pos, told, from));
        lemma_level_rises(ts, pos, told, looser, e, consumed);
        if looser != Level::Or {
            lemma_rises_to_expression(ts, pos, told, looser, e, consumed);
        }
    }
    assert(assignment(ts, pos, told) == accept(e, consumed, told));
}

/// A name or a number before a token that goes on with no expression is
/// an expression of one token, at every level.
pub proof fn lemma_atom_at_level(ts: Seq<TokenModel>, pos: nat, told: Seq<ParseErrorModel>, level: Level)
    requires
        atom_at(ts, pos),
        !check(ts, pos + 1, TokenType::LeftParen),
        forall|tighter: Level| tighter.height() <= level.height() ==> !operator_at(ts, pos + 1, tighter),
    ensures
        binary(ts, pos, told, level) == accept(atom(ts[pos as int]), 1, told),
    decreases level.height(),
{
    lemma_atom_is_unary(ts, pos, told);
    match level.tighter() {
        Some(next) => {
            lemma_atom_at_level(ts, pos, told, next);
        },
        None => {},
    }
    lemma_level_rises(ts, pos, told, level, atom(ts[pos as int]), 1);
}

/// A name or a number before a token that closes a clause is an
/// expression of one token.
pub proof fn lemma_atom_is_expression(ts: Seq<TokenModel>, pos: nat, told: Seq<ParseErrorModel>)
    requires
        atom_at(ts, pos),
        closes(ts, pos + 1),
    ensures
        expression(ts, pos, told) == accept(atom(ts[pos as int]), 1, told),
{
    lemma_atom_at_level(ts, pos, told, Level::Factor);
    lemma_rises_to_expression(ts, pos, told, Level::Factor, atom(ts[pos as int]), 1);
}

/// Two names or numbers with an operator of `level` between them, before
/// a token that closes a clause, are an expression of three tokens: the
/// two joined by the operator.
pub proof fn lemma_pair_is_expression(ts: Seq<TokenModel>, pos: nat, told: Seq<ParseErrorModel>, level: Level)
    requires
        atom_at(ts, pos),
        operator_at(ts, pos + 1, level),
        !level.is_logical(),
        atom_at(ts, pos + 2),
        closes(ts, pos + 3),
    ensures
        binary(ts, pos, told, level) == accept(joined(ts, pos), 3, told),
        expression(ts, pos, told) == accept(joined(ts, pos), 3, told),
{
    let left = atom(ts[pos as int]);
    let right = atom(ts[(pos + 2) as int]);
    lemma_atom_is_unary(ts, pos, told);
    lemma_atom_is_unary(ts, pos + 2, told);
    match level.tighter() {
        Some(next) => {
            lemma_atom_at_level(ts, pos, told, next);
            lemma_atom_at_level(ts, pos + 2, told, next);
        },
        None => {},
    }
    assert(operand(ts, pos, told, level) == accept(left, 1, told));
    assert(operand(ts, pos + 2, told, level) == accept(right, 1, told));
    assert(binary_tail(ts, pos + 3, told, level, joined(ts, pos)) == accept(joined(ts, pos), 0, told));
    assert(binary_tail(ts, pos + 1, told, level, left) == accept(joined(ts, pos), 2, told));
    assert(binary(ts, pos, told, level) == accept(joined(ts, pos), 3, told));
    lemma_rises_to_expression(ts, pos, told, level, joined(ts, pos), 3);
}

/// `NAME = PAIR` before a token that closes a clause is an expression of
/// five tokens: the assignment of the pair to the name.
pub proof fn lemma_assigned_pair_is_expression(
    ts: Seq<TokenModel>,
    pos: nat,
    told: Seq<ParseErrorModel>,
    level: Level,
)
    requires
        check(ts, pos, TokenType::Identifier),
        check(ts, pos + 1, TokenType::Equal),
        atom_at(ts, pos + 2),
        operator_at(ts, pos + 3, level),
        !level.is_logical(),
        atom_at(ts, pos + 4),
        closes(ts, pos + 5),
    ensures
        expression(ts, pos, told) == accept(
            ExprModel::Assign { name: ts[pos as int], value: Box::new(joined(ts, pos + 2)) },
            5,
            told,
        ),
{
    lemma_atom_at_level(ts, pos, told, Level::Or);
    lemma_pair_is_expression(ts, pos + 2, told, level);
    assert(assignment(ts, pos + 2, told) == accept(joined(ts, pos + 2), 3, told));
    assert(assignment(ts, pos, told) == accept(
        ExprModel::Assign { name: ts[pos as int], value: Box::new(joined(ts, pos + 2)) },
        5,
        told,
    ));
}

/// The increment of a counting loop.
pub open spec fn increment(ts: Seq<TokenModel>, pos: nat) -> ExprModel {
    ExprModel::Assign { name: ts[pos as int], value: Box::new(joined(ts, pos + 2)) }
}

/// The loop that a counting `for` stands for.
pub open spec fn counting_loop(ts: Seq<TokenModel>, pos: nat, body: StmtModel) -> StmtModel {
    StmtModel::Block {
        statements: seq![
            StmtModel::Var { name: ts[(pos + 2) as int], initializer: Some(atom(ts[(pos + 4) as int])) },
            StmtModel::While {
                condition: joined(ts, pos + 6),
                body: Box::new(
                    StmtModel::Block {
                        statements: seq![
                            body,
                            StmtModel::Expression { expression: increment(ts, pos + 10) },
                        ],
                    },
                ),
            },
        ],
    }
}

/// `var I = A;` in the first clause of a `for`, from the keyword `var`.
pub proof fn lemma_counting_initializer(ts: Seq<TokenModel>, pos: nat, told: Seq<ParseErrorModel>)
    requires
        check(ts, pos, TokenType::Var),
        check(ts, pos + 1, TokenType::Identifier),
        check(ts, pos + 2, TokenType::Equal),
        atom_at(ts, pos + 3),
        check(ts, pos + 4, TokenType::Semicolon),
    ensures
        for_initializer(ts, pos, told) == accept(
            Some(
                StmtModel::Var {
                    name: ts[(pos + 1) as int],
                    initializer: Some(atom(ts[(pos + 3) as int])),
                },
            ),
            5,
            told,
        ),
{
    lemma_atom_is_expression(ts, pos + 3, told);
    assert(initializer(ts, pos + 2, told) == accept(Some(atom(ts[(pos + 3) as int])), 2, told));
    let declared = StmtModel::Var {
        name: ts[(pos + 1) as int],
        initializer: Some(atom(ts[(pos + 3) as int])),
    };
    assert(var_declaration(ts, pos + 1, told) == accept(declared, 4, told));
}

/// `B < C; D = E + F)` in the clauses of a `for`.
pub proof fn lemma_counting_tests(ts: Seq<TokenModel>, pos: nat, told: Seq<ParseErrorModel>)
    requires
        atom_at(ts, pos),
        operator_at(ts, pos + 1, Level::Comparison),
        atom_at(ts, pos + 2),
        check(ts, pos + 3, TokenType::Semicolon),
        check(ts, pos + 4, TokenType::Identifier),
        check(ts, pos + 5, TokenType::Equal),
        atom_at(ts, pos + 6),
        operator_at(ts, pos + 7, Level::Term),
        atom_at(ts, pos + 8),
        check(ts, pos + 9, TokenType::RightParen),
    ensures
        for_tests(ts, pos, told) == accept((Some(joined(ts, pos)), Some(increment(ts, pos + 4))), 10, told),
{
    lemma_pair_is_expression(ts, pos, told, Level::Comparison);
    assert(optional_expression(ts, pos, told, TokenType::Semicolon) == accept(
        Some(joined(ts, pos)),
        3,
        told,
    ));
    assert(clause(ts, pos, told, TokenType::Semicolon, "Expect ';' after loop condition."@) == accept(
        Some(joined(ts, pos)),
        4,
        told,
    ));
    lemma_assigned_pair_is_expression(ts, pos + 4, told, Level::Term);
    assert(optional_expression(ts, pos + 4, told, TokenType::RightParen) == accept(
        Some(increment(ts, pos + 4)),
        5,
        told,
    ));
    assert(clause(ts, pos + 4, told, TokenType::RightParen, "Expect ')' after for clauses."@) == accept(
        Some(increment(ts, pos + 4)),
        6,
        told,
    ));
}

/// `for (var I = A; B < C; D = E + F) BODY`, from behind the keyword, is
/// read as `{ var I = A; while (B < C) { BODY D = E + F; } }`: for every
/// name or number in the place of a letter, every operator of comparison
/// in the place of `<`, every operator of a term in the place of `+`, and
/// every body that parses as one statement.
pub proof fn lemma_counting_for_is_while(ts: Seq<TokenModel>, pos: nat, told: Seq<ParseErrorModel>)
    requires
        check(ts, pos, TokenType::LeftParen),
        check(ts, pos + 1, TokenType::Var),
        check(ts, pos + 2, TokenType::Identifier),
        check(ts, pos + 3, TokenType::Equal),
        atom_at(ts, pos + 4),
        check(ts, pos + 5, TokenType::Semicolon),
        atom_at(ts, pos + 6),
        operator_at(ts, pos + 7, Level::Comparison),
        atom_at(ts, pos + 8),
        check(ts, pos + 9, TokenType::Semicolon),
        check(ts, pos + 10, TokenType::Identifier),
        check(ts, pos + 11, TokenType::Equal),
        atom_at(ts, pos + 12),
        operator_at(ts, pos + 13, Level::Term),
        atom_at(ts, pos + 14),
        check(ts, pos + 15, TokenType::RightParen),
        statement(ts, pos + 16, told).result is Ok,
    ensures
        for_statement(ts, pos, told).result == Ok::<StmtModel, ParseErrorModel>(
            counting_loop(ts, pos, statement(ts, pos + 16, told).result->Ok_0),
        ),
        for_statement(ts, pos, told).consumed == 16 + statement(ts, pos + 16, told).consumed,
{
    let body = statement(ts, pos + 16, told);
    let declared = StmtModel::Var {
        name: ts[(pos + 2) as int],
        initializer: Some(atom(ts[(pos + 4) as int])),
    };
    let parts = (Some(declared), Some(joined(ts, pos + 6)), Some(increment(ts, pos + 10)));
    lemma_counting_initializer(ts, pos + 1, told);
    lemma_counting_tests(ts, pos + 6, told);
    assert(for_clauses(ts, pos + 1, told) == accept(parts, 15, told));
    assert(for_body(ts, pos + 16, told, parts).result == Ok::<StmtModel, ParseErrorModel>(
        counting_loop(ts, pos, body.result->Ok_0),
    ));
}

/// Whether no statement begins at `pos`: the input ends there, or a
/// declaration or a closing brace stands there.
pub open spec fn begins_no_statement(ts: Seq<TokenModel>, pos: nat) -> bool {
    ||| at_end(ts, pos)
    ||| check(ts, pos, TokenType::Var)
    ||| check(ts, pos, TokenType::Fun)
    ||| check(ts, pos, TokenType::RightBrace)
}

/// Where a unary expression fails, the expression of every level fails.
pub proof fn lemma_failure_rises(ts: Seq<TokenModel>, pos: nat, told: Seq<ParseErrorModel>, level: Level)
    requires
        unary(ts, pos, told).result is Err,
    ensures
        binary(ts, pos, told, level).result is Err,
    decreases level.height(),
{
    match level.tighter() {
        Some(next) => {
            lemma_failure_rises(ts, pos, told, next);
        },
        None => {},
    }
}

/// A statement that parses begins with a token that can begin one.
pub proof fn lemma_statement_begins(ts: Seq<TokenModel>, pos: nat, told: Seq<ParseErrorModel>)
    requires
        statement(ts, pos, told).result is Ok,
    ensures
        !begins_no_statement(ts, pos),
        declaration(ts, pos, told) == statement(ts, pos, told),
{
    if begins_no_statement(ts, pos) {
        assert(primary(ts, pos, told).result is Err);
        assert(call(ts, pos, told).result is Err);
        assert(unary(ts, pos, told).result is Err);
        lemma_failure_rises(ts, pos, told, Level::Or);
        assert(assignment(ts, pos, told).result is Err);
        assert(expression(ts, pos, told).result is Err);
        assert(expression_statement(ts, pos, told).result is Err);
    }
}

/// The tree that `{ var I = A; while (B < C) { BODY D = E + F; } }`
/// parses to, for a body of `length` tokens.
pub open spec fn while_form(ts: Seq<TokenModel>, pos: nat, body: StmtModel, length: nat) -> StmtModel {
    StmtModel::Block {
        statements: seq![
            StmtModel::Var {
                name: ts[(pos + 2) as int],
                initializer: Some(atom(ts[(pos + 4) as int])),
            },
            StmtModel::While {
                condition: joined(ts, pos + 8),
                body: Box::new(
                    StmtModel::Block {
                        statements: seq![
                            body,
                            StmtModel::Expression { expression: increment(ts, pos + 13 + length) },
                        ],
                    },
                ),
            },
        ],
    }
}

/// Whether `D = E + F` stands at `pos`: a name, `=`, and two names or
/// numbers with an operator of a term between them.
pub open spec fn increment_at(ts: Seq<TokenModel>, pos: nat) -> bool {
    &&& check(ts, pos, TokenType::Identifier)
    &&& check(ts, pos + 1, TokenType::Equal)
    &&& atom_at(ts, pos + 2)
    &&& operator_at(ts, pos + 3, Level::Term)
    &&& atom_at(ts, pos + 4)
}

/// Whether `B < C` stands at `pos`: two names or numbers with an
/// operator of comparison between them.
pub open spec fn test_at(ts: Seq<TokenModel>, pos: nat) -> bool {
    &&& atom_at(ts, pos)
    &&& operator_at(ts, pos + 1, Level::Comparison)
    &&& atom_at(ts, pos + 2)
}

/// Whether `var I = A;` stands at `pos`.
pub open spec fn counter_at(ts: Seq<TokenModel>, pos: nat) -> bool {
    &&& check(ts, pos, TokenType::Var)
    &&& check(ts, pos + 1, TokenType::Identifier)
    &&& check(ts, pos + 2, TokenType::Equal)
    &&& atom_at(ts, pos + 3)
    &&& check(ts, pos + 4, TokenType::Semicolon)
}

/// `D = E + F;` is a statement, and a declaration, of six tokens.
pub proof fn lemma_increment_is_statement(ts: Seq<TokenModel>, pos: nat, told: Seq<ParseErrorModel>)
    requires
        increment_at(ts, pos),
        check(ts, pos + 5, TokenType::Semicolon),
    ensures
        declaration(ts, pos, told) == accept(
            StmtModel::Expression { expression: increment(ts, pos) },
            6,
            told,
        ),
{
    lemma_assigned_pair_is_expression(ts, pos, told, Level::Term);
    let step = StmtModel::Expression { expression: increment(ts, pos) };
    assert(expression_statement(ts, pos, told) == accept(step, 6, told));
    assert(statement(ts, pos, told) == accept(step, 6, told));
}

/// `var I = A;` is a declaration of five tokens.
pub proof fn lemma_counter_is_declaration(ts: Seq<TokenModel>, pos: nat, told: Seq<ParseErrorModel>)
    requires
        counter_at(ts, pos),
    ensures
        declaration(ts, pos, told) == accept(
            StmtModel::Var {
                name: ts[(pos + 1) as int],
                initializer: Some(atom(ts[(pos + 3) as int])),
            },
            5,
            told,
        ),
{
    lemma_atom_is_expression(ts, pos + 3, told);
    assert(initializer(ts, pos + 2, told) == accept(Some(atom(ts[(pos + 3) as int])), 2, told));
    let declared = StmtModel::Var {
        name: ts[(pos + 1) as int],
        initializer: Some(atom(ts[(pos + 3) as int])),
    };
    assert(var_declaration(ts, pos + 1, told) == accept(declared, 4, told));
}

/// A closing brace ends a block with the statements seen.
pub proof fn lemma_block_ends(ts: Seq<TokenModel>, pos: nat, told: Seq<ParseErrorModel>, seen: Seq<StmtModel>)
    requires
        check(ts, pos, TokenType::RightBrace),
    ensures
        block_items(ts, pos, told, seen) == accept(seen, 1, told),
{
}

/// A declaration that parses inside a block is one of its statements;
/// the block goes on behind it.
pub proof fn lemma_block_goes_on(
    ts: Seq<TokenModel>,
    pos: nat,
    told: Seq<ParseErrorModel>,
    seen: Seq<StmtModel>,
)
    requires
        !check(ts, pos, TokenType::RightBrace),
        !at_end(ts, pos),
        declaration(ts, pos, told).result is Ok,
        declaration(ts, pos, told).consumed >= 1,
    ensures
        ({
            let d = declaration(ts, pos, told);
            let rest = block_items(ts, pos + d.consumed, d.reports, seen.push(d.result->Ok_0));
            &&& block_items(ts, pos, told, seen).result == rest.result
            &&& block_items(ts, pos, told, seen).consumed == d.consumed + rest.consumed
            &&& block_items(ts, pos, told, seen).reports == rest.reports
        }),
{
}

/// `BODY D = E + F; }` from behind the opening brace of a block.
pub proof fn lemma_body_and_increment(ts: Seq<TokenModel>, pos: nat, told: Seq<ParseErrorModel>)
    requires
        statement(ts, pos, told).result is Ok,
        increment_at(ts, pos + statement(ts, pos, told).consumed),
        check(ts, pos + statement(ts, pos, told).consumed + 5, TokenType::Semicolon),
        check(ts, pos + statement(ts, pos, told).consumed + 6, TokenType::RightBrace),
    ensures
        ({
            let body = statement(ts, pos, told);
            &&& block_items(ts, pos, told, Seq::empty()).result == Ok::<
                Seq<StmtModel>,
                ParseErrorModel,
            >(
                seq![
                    body.result->Ok_0,
                    StmtModel::Expression { expression: increment(ts, pos + body.consumed) },
                ],
            )
            &&& block_items(ts, pos, told, Seq::empty()).consumed == body.consumed + 7
        }),
{
    let body = statement(ts, pos, told);
    let next = pos + body.consumed;
    let step = StmtModel::Expression { expression: increment(ts, next) };
    let one = Seq::<StmtModel>::empty().push(body.result->Ok_0);
    let two = one.push(step);
    assert(two =~= seq![body.result->Ok_0, step]);
    lemma_statement_begins(ts, pos, told);
    lemma_statement_progress(ts, pos, told);
    lemma_block_goes_on(ts, pos, told, Seq::empty());
    lemma_increment_is_statement(ts, next, body.reports);
    lemma_block_goes_on(ts, next, body.reports, one);
    lemma_block_ends(ts, next + 6, body.reports, two);
}

/// The block that a list of statements is.
pub open spec fn block_of(statements: Seq<StmtModel>) -> StmtModel {
    StmtModel::Block { statements }
}

/// A statement that begins with an opening brace is the block behind it.
pub proof fn lemma_brace_opens_block(ts: Seq<TokenModel>, pos: nat, told: Seq<ParseErrorModel>)
    requires
        check(ts, pos, TokenType::LeftBrace),
        block_items(ts, pos + 1, told, Seq::empty()).result is Ok,
    ensures
        statement(ts, pos, told).result == Ok::<StmtModel, ParseErrorModel>(
            block_of(block_items(ts, pos + 1, told, Seq::empty()).result->Ok_0),
        ),
        statement(ts, pos, told).consumed == 1 + block_items(ts, pos + 1, told, Seq::empty()).consumed,
        declaration(ts, pos, told) == statement(ts, pos, told),
{
    assert(block(ts, pos + 1, told).result == Ok::<StmtModel, ParseErrorModel>(
        block_of(block_items(ts, pos + 1, told, Seq::empty()).result->Ok_0),
    ));
}

/// `while (B < C) STATEMENT` from the keyword.
pub proof fn lemma_while_parses(ts: Seq<TokenModel>, pos: nat, told: Seq<ParseErrorModel>)
    requires
        check(ts, pos, TokenType::While),
        check(ts, pos + 1, TokenType::LeftParen),
        test_at(ts, pos + 2),
        check(ts, pos + 5, TokenType::RightParen),
        statement(ts, pos + 6, told).result is Ok,
    ensures
        statement(ts, pos, told).result == Ok::<StmtModel, ParseErrorModel>(
            StmtModel::While {
                condition: joined(ts, pos + 2),
                body: Box::new(statement(ts, pos + 6, told).result->Ok_0),
            },
        ),
        statement(ts, pos, told).consumed == 6 + statement(ts, pos + 6, told).consumed,
        statement(ts, pos, told).reports == statement(ts, pos + 6, told).reports,
        declaration(ts, pos, told) == statement(ts, pos, told),
{
    lemma_pair_is_expression(ts, pos + 2, told, Level::Comparison);
    assert(condition(
        ts,
        pos + 1,
        told,
        "Expect '(' after 'while'."@,
        "Expect ')' after while condition."@,
    ) == accept(joined(ts, pos + 2), 5, told));
    assert(while_statement(ts, pos + 1, told).result == Ok::<StmtModel, ParseErrorModel>(
        StmtModel::While {
            condition: joined(ts, pos + 2),
            body: Box::new(statement(ts, pos + 6, told).result->Ok_0),
        },
    ));
}

/// Whether `{ var I = A; while (B < C) { BODY D = E + F; } }` stands at
/// `pos`, with a body that parses as one statement.
pub open spec fn while_form_at(ts: Seq<TokenModel>, pos: nat, told: Seq<ParseErrorModel>) -> bool {
    let next = pos + 13 + statement(ts, pos + 13, told).consumed;
    &&& check(ts, pos, TokenType::LeftBrace)
    &&& counter_at(ts, pos + 1)
    &&& check(ts, pos + 6, TokenType::While)
    &&& check(ts, pos + 7, TokenType::LeftParen)
    &&& test_at(ts, pos + 8)
    &&& check(ts, pos + 11, TokenType::RightParen)
    &&& check(ts, pos + 12, TokenType::LeftBrace)
    &&& statement(ts, pos + 13, told).result is Ok
    &&& increment_at(ts, next)
    &&& check(ts, next + 5, TokenType::Semicolon)
    &&& check(ts, next + 6, TokenType::RightBrace)
    &&& check(ts, next + 7, TokenType::RightBrace)
}

/// A block of two declarations, from behind its opening brace.
#[verifier::spinoff_prover]
#[verifier::rlimit(40)]
pub proof fn lemma_block_of_two(ts: Seq<TokenModel>, pos: nat, told: Seq<ParseErrorModel>)
    requires
        !check(ts, pos, TokenType::RightBrace),
        !at_end(ts, pos),
        declaration(ts, pos, told).result is Ok,
        declaration(ts, pos, told).consumed >= 1,
        ({
            let first = declaration(ts, pos, told);
            let second = declaration(ts, pos + first.consumed, first.reports);
            &&& !check(ts, pos + first.consumed, TokenType::RightBrace)
            &&& !at_end(ts, pos + first.consumed)
            &&& second.result is Ok
            &&& second.consumed >= 1
            &&& check(ts, pos + first.consumed + second.consumed, TokenType::RightBrace)
        }),
    ensures
        ({
            let first = declaration(ts, pos, told);
            let second = declaration(ts, pos + first.consumed, first.reports);
            &&& block_items(ts, pos, told, Seq::empty()).result == Ok::<
                Seq<StmtModel>,
                ParseErrorModel,
            >(seq![first.result->Ok_0, second.result->Ok_0])
            &&& block_items(ts, pos, told, Seq::empty()).consumed == first.consumed + second.consumed
                + 1
        }),
{
    let first = declaration(ts, pos, told);
    let next = pos + first.consumed;
    let second = declaration(ts, next, first.reports);
    let one = Seq::<StmtModel>::empty().push(first.result->Ok_0);
    let two = one.push(second.result->Ok_0);
    assert(two =~= seq![first.result->Ok_0, second.result->Ok_0]);
    lemma_block_goes_on(ts, pos, told, Seq::empty());
    lemma_block_goes_on(ts, next, first.reports, one);
    lemma_block_ends(ts, next + second.consumed, second.reports, two);
}

/// `while (B < C) { BODY D = E + F; }` from the keyword.
#[verifier::spinoff_prover]
pub proof fn lemma_loop_of_while_form(ts: Seq<TokenModel>, pos: nat, told: Seq<ParseErrorModel>)
    requires
        check(ts, pos, TokenType::While),
        check(ts, pos + 1, TokenType::LeftParen),
        test_at(ts, pos + 2),
        check(ts, pos + 5, TokenType::RightParen),
        check(ts, pos + 6, TokenType::LeftBrace),
        statement(ts, pos + 7, told).result is Ok,
        increment_at(ts, pos + 7 + statement(ts, pos + 7, told).consumed),
        check(ts, pos + 7 + statement(ts, pos + 7, told).consumed + 5, TokenType::Semicolon),
        check(ts, pos + 7 + statement(ts, pos + 7, told).consumed + 6, TokenType::RightBrace),
    ensures
        ({
            let body = statement(ts, pos + 7, told);
            &&& declaration(ts, pos, told).result == Ok::<StmtModel, ParseErrorModel>(
                StmtModel::While {
                    condition: joined(ts, pos + 2),
                    body: Box::new(
                        block_of(
                            seq![
                                body.result->Ok_0,
                                StmtModel::Expression { expression: increment(ts, pos + 7 + body.consumed) },
                            ],
                        ),
                    ),
                },
            )
            &&& declaration(ts, pos, told).consumed == body.consumed + 14
        }),
{
    lemma_body_and_increment(ts, pos + 7, told);
    lemma_brace_opens_block(ts, pos + 6, told);
    lemma_while_parses(ts, pos, told);
}

/// `{ var I = A; while (B < C) { BODY D = E + F; } }`, from the opening
/// brace, is read as the tree that its parts make: for every name or
/// number in the place of a letter, every operator of comparison in the
/// place of `<`, every operator of a term in the place of `+`, and every
/// body that parses as one statement.
#[verifier::spinoff_prover]
#[verifier::rlimit(40)]
pub proof fn lemma_while_form_parses(ts: Seq<TokenModel>, pos: nat, told: Seq<ParseErrorModel>)
    requires
        while_form_at(ts, pos, told),
    ensures
        statement(ts, pos, told).result == Ok::<StmtModel, ParseErrorModel>(
            while_form(
                ts,
                pos,
                statement(ts, pos + 13, told).result->Ok_0,
                statement(ts, pos + 13, told).consumed,
            ),
        ),
{
    lemma_counter_is_declaration(ts, pos + 1, told);
    lemma_loop_of_while_form(ts, pos + 6, told);
    lemma_block_of_two(ts, pos + 1, told);
    lemma_brace_opens_block(ts, pos, told);
}

/// Whether `for (var I = A; B < C; D = E + F) BODY` stands at `pos`,
/// with a body that parses as one statement.
pub open spec fn counting_for_at(ts: Seq<TokenModel>, pos: nat, told: Seq<ParseErrorModel>) -> bool {
    &&& check(ts, pos, TokenType::For)
    &&& check(ts, pos + 1, TokenType::LeftParen)
    &&& counter_at(ts, pos + 2)
    &&& test_at(ts, pos + 7)
    &&& check(ts, pos + 10, TokenType::Semicolon)
    &&& increment_at(ts, pos + 11)
    &&& check(ts, pos + 16, TokenType::RightParen)
    &&& statement(ts, pos + 17, told).result is Ok
}

/// `for (var I = A; B < C; D = E + F) BODY`, from the keyword, is read as
/// the loop that it stands for.
#[verifier::spinoff_prover]
#[verifier::rlimit(40)]
pub proof fn lemma_counting_for_parses(ts: Seq<TokenModel>, pos: nat, told: Seq<ParseErrorModel>)
    requires
        counting_for_at(ts, pos, told),
    ensures
        statement(ts, pos, told).result == Ok::<StmtModel, ParseErrorModel>(
            counting_loop(ts, pos + 1, statement(ts, pos + 17, told).result->Ok_0),
        ),
{
    lemma_counting_for_is_while(ts, pos + 1, told);
}

/// Whether the two loops are made of the same names, numbers and
/// operators.
pub open spec fn same_parts(
    short: Seq<TokenModel>,
    at: nat,
    long: Seq<TokenModel>,
    pos: nat,
    next: nat,
) -> bool {
    &&& long[(pos + 2) as int] == short[(at + 3) as int]
    &&& long[(pos + 4) as int] == short[(at + 5) as int]
    &&& long[(pos + 8) as int] == short[(at + 7) as int]
    &&& long[(pos + 9) as int] == short[(at + 8) as int]
    &&& long[(pos + 10) as int] == short[(at + 9) as int]
    &&& long[next as int] == short[(at + 11) as int]
    &&& long[(next + 2) as int] == short[(at + 13) as int]
    &&& long[(next + 3) as int] == short[(at + 14) as int]
    &&& long[(next + 4) as int] == short[(at + 15) as int]
}

/// Loops made of the same names, numbers, operators and body are the
/// same tree.
pub proof fn lemma_same_parts_same_tree(
    short: Seq<TokenModel>,
    at: nat,
    long: Seq<TokenModel>,
    pos: nat,
    body: StmtModel,
    length: nat,
)
    requires
        same_parts(short, at, long, pos, pos + 13 + length),
    ensures
        counting_loop(short, at + 1, body) == while_form(long, pos, body, length),
{
}

/// A counting `for` and the loop written out parse to the same tree
/// where they are made of the same names, numbers and operators and of
/// bodies that parse to the same statement: the `for` statement is the
/// `while` form in another spelling.
#[verifier::spinoff_prover]
#[verifier::rlimit(80)]
pub proof fn lemma_for_and_while_form_agree(
    short: Seq<TokenModel>,
    at: nat,
    told: Seq<ParseErrorModel>,
    long: Seq<TokenModel>,
    pos: nat,
    other: Seq<ParseErrorModel>,
)
    requires
        counting_for_at(short, at, told),
        while_form_at(long, pos, other),
        statement(long, pos + 13, other).result == statement(short, at + 17, told).result,
        same_parts(short, at, long, pos, pos + 13 + statement(long, pos + 13, other).consumed),
    ensures
        statement(short, at, told).result is Ok,
        statement(short, at, told).result == statement(long, pos, other).result,
{
    lemma_counting_for_parses(short, at, told);
    lemma_while_form_parses(long, pos, other);
    let body = statement(long, pos + 13, other);
    lemma_same_parts_same_tree(short, at, long, pos, body.result->Ok_0, body.consumed);
}

} // verus!
