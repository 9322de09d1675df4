//! What evaluation means, stated over mathematical values.
//!
//! Evaluation is a machine that takes one small step at a time. Its state
//! is the frames, the environment in force, a stack of tasks still to do,
//! and a register that holds the value of the expression evaluated last.
//! A step that needs the sum of two numbers, a numeral, the time, or a
//! line printed says so and ends; the next step takes the answer.

use vstd::prelude::*;
use crate::environment::{
    bind, lemma_assign_then_lookup, lemma_define_then_lookup, lookup, resolve, undefined_variable,
    FrameModel,
};
use crate::expr::ExprModel;
use crate::function::{DeclarationModel, FunctionModel};
use crate::native::NativeFunction;
use crate::number::{
    equal, is_zero, lemma_whole_numeral_has_no_point, less, negated, whole_numeral,
};
use crate::stmt::StmtModel;
use crate::text::decimal_digits;
use crate::token::{LiteralModel, TokenModel, TokenType};
use crate::value::ValueModel;

verus! {

/// The operations on two numbers that are left to the host.
#[derive(Clone, Copy, Debug, PartialEq, Eq, Structural)]
pub enum Arithmetic {
    Add,
    Subtract,
    Multiply,
    Divide,
}

/// What the machine waits for after a step.
#[derive(Clone, Copy, Debug, PartialEq, Eq, Structural)]
pub enum Awaiting {
    Nothing,
    Number,
    Text,
}

/// The mathematical value of a runtime error.
pub struct RuntimeErrorModel {
    pub token: TokenModel,
    pub message: Seq<char>,
}

/// The mathematical value of what ends a run early.
pub enum SignalModel {
    Error(RuntimeErrorModel),
    Return(ValueModel),
}

/// The mathematical value of what the host hands to a step.
pub enum ReplyModel {
    Nothing,
    Number(u64),
    Text(Seq<char>),
}

/// The mathematical value of what a step asks of the host.
pub enum ActionModel {
    /// Nothing: take the next step.
    Continue,
    /// Print this line.
    Print(Seq<char>),
    /// Compute on two numbers and answer with the result.
    Compute { operation: Arithmetic, left: u64, right: u64 },
    /// Answer with the numeral of this number.
    Format(u64),
    /// Answer with the time.
    Clock,
    /// The run is over.
    Finished(Result<(), SignalModel>),
}

/// The mathematical value of a task.
pub enum TaskModel {
    Execute(StmtModel),
    Leave(nat),
    EndCall(nat),
    Evaluate(ExprModel),
    Discard,
    Print,
    Define(TokenModel),
    Branch { then_branch: StmtModel, else_branch: Option<StmtModel> },
    Repeat { condition: ExprModel, body: StmtModel },
    Return,
    Unary(TokenModel),
    BinaryRight { operator: TokenModel, right: ExprModel },
    Binary { operator: TokenModel, left: ValueModel },
    Append(Seq<char>),
    Prepend(Seq<char>),
    Logical { operator: TokenModel, right: ExprModel },
    Assign(TokenModel),
    Arguments { paren: TokenModel, callee: Option<ValueModel>, done: Seq<ValueModel>, rest: Seq<ExprModel> },
}

/// The mathematical value of the machine.
pub struct MachineModel {
    /// All frames ever made.
    pub frames: Seq<FrameModel>,
    /// The frame of the global scope.
    pub globals: nat,
    /// The frame of the scope in force.
    pub environment: nat,
    /// The scope that was in force when the run began.
    pub base: nat,
    /// The tasks still to do; the last one is done next.
    pub tasks: Seq<TaskModel>,
    /// The value of the expression evaluated last, until a task takes it.
    pub register: Option<ValueModel>,
    /// What the last step asked the host to answer.
    pub awaiting: Awaiting,
}

impl ReplyModel {
    /// Whether this is the kind of answer that the machine waits for.
    pub open spec fn answers(self, awaiting: Awaiting) -> bool {
        match awaiting {
            Awaiting::Nothing => self is Nothing,
            Awaiting::Number => self is Number,
            Awaiting::Text => self is Text,
        }
    }
}

impl MachineModel {
    /// The machine with the host's answer in the register.
    pub open spec fn settled(self, reply: ReplyModel) -> MachineModel {
        match reply {
            ReplyModel::Nothing => MachineModel { awaiting: Awaiting::Nothing, ..self },
            ReplyModel::Number(n) => MachineModel {
                register: Some(ValueModel::Number(n)),
                awaiting: Awaiting::Nothing,
                ..self
            },
            ReplyModel::Text(t) => MachineModel {
                register: Some(ValueModel::String(t)),
                awaiting: Awaiting::Nothing,
                ..self
            },
        }
    }

    /// The machine with one more task on top.
    pub open spec fn with_task(self, task: TaskModel) -> MachineModel {
        MachineModel { tasks: self.tasks.push(task), ..self }
    }

    /// The machine without its top task.
    pub open spec fn without_task(self) -> MachineModel {
        MachineModel { tasks: self.tasks.drop_last(), ..self }
    }

    /// The machine with `value` in the register.
    pub open spec fn holding(self, value: ValueModel) -> MachineModel {
        MachineModel { register: Some(value), ..self }
    }

    /// The machine with an empty register.
    pub open spec fn emptied(self) -> MachineModel {
        MachineModel { register: None, ..self }
    }

    /// The value that a task finds in the register. An empty register
    /// reads as `nil`.
    pub open spec fn held(self) -> ValueModel {
        match self.register {
            Some(v) => v,
            None => ValueModel::Nil,
        }
    }

    /// The machine in the scope `environment`.
    pub open spec fn inside(self, environment: nat) -> MachineModel {
        MachineModel { environment, ..self }
    }

    /// The machine waiting for an answer of the given kind.
    pub open spec fn waiting(self, awaiting: Awaiting) -> MachineModel {
        MachineModel { awaiting, ..self }
    }

    /// The machine after a run: nothing to do, nothing held, back in the
    /// scope where the run began.
    pub open spec fn stopped(self) -> MachineModel {
        MachineModel {
            tasks: Seq::empty(),
            register: None,
            awaiting: Awaiting::Nothing,
            environment: self.base,
            ..self
        }
    }

    /// The machine with the statements scheduled in order: the first one
    /// is done first.
    pub open spec fn scheduled(self, statements: Seq<StmtModel>) -> MachineModel
        decreases statements.len(),
    {
        if statements.len() == 0 {
            self
        } else {
            self.with_task(TaskModel::Execute(statements.last())).scheduled(statements.drop_last())
        }
    }

    /// The machine with the names bound to the values in the scope in
    /// force, pair by pair, as far as both lists go.
    pub open spec fn bound(self, names: Seq<TokenModel>, values: Seq<ValueModel>) -> MachineModel
        decreases names.len(),
    {
        if names.len() == 0 || values.len() == 0 {
            self
        } else {
            MachineModel {
                frames: bind(self.frames, self.environment, names[0].lexeme, values[0]),
                ..self
            }.bound(names.skip(1), values.skip(1))
        }
    }
}

/// A step that asks nothing of the host.
pub open spec fn proceed(m: MachineModel) -> (MachineModel, ActionModel) {
    (m, ActionModel::Continue)
}

/// The end of a run by a runtime error at `token`.
pub open spec fn fail(m: MachineModel, token: TokenModel, message: Seq<char>) -> (MachineModel, ActionModel) {
    (
        m.stopped(),
        ActionModel::Finished(Err(SignalModel::Error(RuntimeErrorModel { token, message }))),
    )
}

/// The value of a literal. A literal without payload is `nil`.
pub open spec fn literal_value(literal: Option<LiteralModel>) -> ValueModel {
    match literal {
        Some(LiteralModel::Boolean(b)) => ValueModel::Boolean(b),
        Some(LiteralModel::Nil) => ValueModel::Nil,
        None => ValueModel::Nil,
        Some(LiteralModel::Number(n)) => ValueModel::Number(n),
        Some(LiteralModel::String(s)) => ValueModel::String(s),
    }
}

/// What applying a unary operator gives: `!` negates truthiness, `-`
/// negates a number and rejects anything else.
pub open spec fn unary_result(operator: TokenType, operand: ValueModel) -> Result<ValueModel, Seq<char>> {
    match operator {
        TokenType::Bang => Ok(ValueModel::Boolean(!operand.is_truthy())),
        TokenType::Minus => match operand {
            ValueModel::Number(n) => Ok(ValueModel::Number(negated(n))),
            _ => Err("Operand must be a number."@),
        },
        _ => Err("Unknown unary operator."@),
    }
}

/// What is to be done with the two operands of a binary operator.
pub enum Combination {
    /// The result is this value.
    Value(ValueModel),
    /// The result is what the host computes.
    Compute(Arithmetic, u64, u64),
    /// The result is the text, then the display form of the value.
    Append(Seq<char>, ValueModel),
    /// The result is the display form of the value, then the text.
    Prepend(ValueModel, Seq<char>),
    /// The operands are rejected.
    Fail(Seq<char>),
}

/// What an arithmetic operator or a comparison does with two numbers.
pub open spec fn combine_numbers(operator: TokenType, a: u64, b: u64) -> Combination {
    match operator {
        TokenType::Plus => Combination::Compute(Arithmetic::Add, a, b),
        TokenType::Minus => Combination::Compute(Arithmetic::Subtract, a, b),
        TokenType::Star => Combination::Compute(Arithmetic::Multiply, a, b),
        TokenType::Slash => if is_zero(b) {
            Combination::Fail("Division by zero."@)
        } else {
            Combination::Compute(Arithmetic::Divide, a, b)
        },
        TokenType::Greater => Combination::Value(ValueModel::Boolean(less(b, a))),
        TokenType::GreaterEqual => Combination::Value(ValueModel::Boolean(less(b, a) || equal(a, b))),
        TokenType::Less => Combination::Value(ValueModel::Boolean(less(a, b))),
        TokenType::LessEqual => Combination::Value(ValueModel::Boolean(less(a, b) || equal(a, b))),
        _ => Combination::Fail("Unknown binary operator."@),
    }
}

/// What a binary operator does with its operands.
///
/// `==` and `!=` compare any two values. `+` adds two numbers and joins
/// two strings; where only one operand is a string, the other is shown
/// as text and joined to it. The other operators take two numbers.
pub open spec fn combine(operator: TokenType, left: ValueModel, right: ValueModel) -> Combination {
    match operator {
        TokenType::EqualEqual => Combination::Value(ValueModel::Boolean(left.is_equal(right))),
        TokenType::BangEqual => Combination::Value(ValueModel::Boolean(!left.is_equal(right))),
        TokenType::Plus => match (left, right) {
            (ValueModel::Number(a), ValueModel::Number(b)) => combine_numbers(operator, a, b),
            (ValueModel::String(a), _) => Combination::Append(a, right),
            (_, ValueModel::String(b)) => Combination::Prepend(left, b),
            _ => Combination::Fail("Operands must be two numbers or two strings."@),
        },
        TokenType::Minus
        | TokenType::Star
        | TokenType::Slash
        | TokenType::Greater
        | TokenType::GreaterEqual
        | TokenType::Less
        | TokenType::LessEqual => match (left, right) {
            (ValueModel::Number(a), ValueModel::Number(b)) => combine_numbers(operator, a, b),
            _ => Combination::Fail("Operands must be numbers."@),
        },
        _ => Combination::Fail("Unknown binary operator."@),
    }
}

/// Whether the left operand of a logical operator decides the result:
/// a truthy one for `or`, a falsy one for `and`. `None` for a token that
/// is no logical operator.
pub open spec fn decides(operator: TokenType, left: ValueModel) -> Option<bool> {
    match operator {
        TokenType::Or => Some(left.is_truthy()),
        TokenType::And => Some(!left.is_truthy()),
        _ => None,
    }
}

/// The message for a call with the wrong number of arguments.
pub open spec fn arity_mismatch(expected: nat, got: nat) -> Seq<char> {
    "Expected "@ + decimal_digits(expected) + " arguments but got "@ + decimal_digits(got) + "."@
}

/// Whether `callee` can be called with `count` arguments; if not, why.
pub open spec fn call_check(callee: ValueModel, count: nat) -> Result<(), Seq<char>> {
    match callee {
        ValueModel::Function(f) => if f.declaration.params.len() == count {
            Ok(())
        } else {
            Err(arity_mismatch(f.declaration.params.len(), count))
        },
        ValueModel::NativeFunction(f) => if f.spec_arity() == count {
            Ok(())
        } else {
            Err(arity_mismatch(f.spec_arity(), count))
        },
        _ => Err("Can only call functions and classes."@),
    }
}

/// Entering a block: a fresh scope inside the one in force, the
/// statements scheduled in it, and behind them the way back out.
pub open spec fn enter_block(m: MachineModel, statements: Seq<StmtModel>) -> MachineModel {
    MachineModel {
        frames: m.frames.push(FrameModel { enclosing: Some(m.environment), values: Map::empty() }),
        environment: m.frames.len(),
        ..m
    }.with_task(TaskModel::Leave(m.environment)).scheduled(statements)
}

/// Entering a function: a fresh scope inside the one that the function
/// closes over, the parameters bound to the arguments in it, the body
/// scheduled, and behind it the way back to the caller.
pub open spec fn enter_call(m: MachineModel, function: FunctionModel, arguments: Seq<ValueModel>) -> MachineModel {
    MachineModel {
        frames: m.frames.push(FrameModel { enclosing: Some(function.closure), values: Map::empty() }),
        environment: m.frames.len(),
        ..m
    }.bound(function.declaration.params, arguments).with_task(TaskModel::EndCall(m.environment)).scheduled(
        function.declaration.body,
    )
}

/// Leaving the function in which a `return` was met: the tasks down to
/// the end of the nearest call are dropped and the value is handed to
/// the caller. Outside any function the run ends with the value.
pub open spec fn unwind(m: MachineModel, value: ValueModel) -> (MachineModel, ActionModel)
    decreases m.tasks.len(),
{
    if m.tasks.len() == 0 {
        (m.stopped(), ActionModel::Finished(Err(SignalModel::Return(value))))
    } else {
        match m.tasks.last() {
            TaskModel::EndCall(caller) => proceed(m.without_task().inside(caller).holding(value)),
            _ => unwind(m.without_task(), value),
        }
    }
}

/// Beginning a statement.
pub open spec fn execute(m: MachineModel, statement: StmtModel) -> (MachineModel, ActionModel) {
    match statement {
        StmtModel::Expression { expression } => proceed(
            m.with_task(TaskModel::Discard).with_task(TaskModel::Evaluate(expression)),
        ),
        StmtModel::Print { expression } => proceed(
            m.with_task(TaskModel::Print).with_task(TaskModel::Evaluate(expression)),
        ),
        StmtModel::Var { name, initializer } => match initializer {
            Some(e) => proceed(m.with_task(TaskModel::Define(name)).with_task(TaskModel::Evaluate(e))),
            None => proceed(
                MachineModel {
                    frames: bind(m.frames, m.environment, name.lexeme, ValueModel::Nil),
                    ..m
                },
            ),
        },
        StmtModel::Block { statements } => proceed(enter_block(m, statements)),
        StmtModel::If { condition, then_branch, else_branch } => proceed(
            m.with_task(
                TaskModel::Branch {
                    then_branch: *then_branch,
                    else_branch: match else_branch {
                        Some(e) => Some(*e),
                        None => None,
                    },
                },
            ).with_task(TaskModel::Evaluate(condition)),
        ),
        StmtModel::While { condition, body } => proceed(
            m.with_task(TaskModel::Repeat { condition, body: *body }).with_task(
                TaskModel::Evaluate(condition),
            ),
        ),
        StmtModel::Function { name, params, body } => proceed(
            MachineModel {
                frames: bind(
                    m.frames,
                    m.environment,
                    name.lexeme,
                    ValueModel::Function(
                        FunctionModel {
                            declaration: DeclarationModel { name, params, body },
                            closure: m.environment,
                        },
                    ),
                ),
                ..m
            },
        ),
        StmtModel::Return { keyword, value } => match value {
            Some(e) => proceed(m.with_task(TaskModel::Return).with_task(TaskModel::Evaluate(e))),
            None => unwind(m, ValueModel::Nil),
        },
    }
}

/// Beginning an expression.
pub open spec fn evaluate(m: MachineModel, expression: ExprModel) -> (MachineModel, ActionModel) {
    match expression {
        ExprModel::Literal { value } => proceed(m.holding(literal_value(value))),
        ExprModel::Grouping { expression } => proceed(m.with_task(TaskModel::Evaluate(*expression))),
        ExprModel::Unary { operator, right } => proceed(
            m.with_task(TaskModel::Unary(operator)).with_task(TaskModel::Evaluate(*right)),
        ),
        ExprModel::Binary { left, operator, right } => proceed(
            m.with_task(TaskModel::BinaryRight { operator, right: *right }).with_task(
                TaskModel::Evaluate(*left),
            ),
        ),
        ExprModel::Logical { left, operator, right } => proceed(
            m.with_task(TaskModel::Logical { operator, right: *right }).with_task(
                TaskModel::Evaluate(*left),
            ),
        ),
        ExprModel::Variable { name } => match lookup(m.frames, m.environment, name.lexeme) {
            Some(value) => proceed(m.holding(value)),
            None => fail(m, name, undefined_variable(name.lexeme)),
        },
        ExprModel::Assign { name, value } => proceed(
            m.with_task(TaskModel::Assign(name)).with_task(TaskModel::Evaluate(*value)),
        ),
        ExprModel::Call { callee, paren, arguments } => proceed(
            m.with_task(
                TaskModel::Arguments { paren, callee: None, done: Seq::empty(), rest: arguments },
            ).with_task(TaskModel::Evaluate(*callee)),
        ),
    }
}

/// Showing `value`: a line for the host to print, or, for a number whose
/// numeral the host has to write, the request for it and the same task
/// again.
pub open spec fn print(m: MachineModel, value: ValueModel) -> (MachineModel, ActionModel) {
    match value.display() {
        Some(line) => (m, ActionModel::Print(line)),
        None => (
            m.with_task(TaskModel::Print).waiting(Awaiting::Text),
            ActionModel::Format(value->Number_0),
        ),
    }
}

/// Joining `left` and the display form of `value`.
pub open spec fn append(m: MachineModel, left: Seq<char>, value: ValueModel) -> (MachineModel, ActionModel) {
    match value.display() {
        Some(text) => proceed(m.holding(ValueModel::String(left + text))),
        None => (
            m.with_task(TaskModel::Append(left)).waiting(Awaiting::Text),
            ActionModel::Format(value->Number_0),
        ),
    }
}

/// Joining the display form of `value` and `right`.
pub open spec fn prepend(m: MachineModel, value: ValueModel, right: Seq<char>) -> (MachineModel, ActionModel) {
    match value.display() {
        Some(text) => proceed(m.holding(ValueModel::String(text + right))),
        None => (
            m.with_task(TaskModel::Prepend(right)).waiting(Awaiting::Text),
            ActionModel::Format(value->Number_0),
        ),
    }
}

/// Applying a binary operator to its operands.
pub open spec fn apply_binary(m: MachineModel, operator: TokenModel, left: ValueModel, right: ValueModel) -> (
    MachineModel,
    ActionModel,
) {
    match combine(operator.token_type, left, right) {
        Combination::Value(v) => proceed(m.holding(v)),
        Combination::Compute(operation, a, b) => (
            m.waiting(Awaiting::Number),
            ActionModel::Compute { operation, left: a, right: b },
        ),
        Combination::Append(text, value) => append(m, text, value),
        Combination::Prepend(value, text) => prepend(m, value, text),
        Combination::Fail(message) => fail(m, operator, message),
    }
}

/// Calling `callee` with the arguments `done`.
pub open spec fn invoke(m: MachineModel, paren: TokenModel, callee: ValueModel, done: Seq<ValueModel>) -> (
    MachineModel,
    ActionModel,
) {
    match call_check(callee, done.len()) {
        Err(message) => fail(m, paren, message),
        Ok(_) => match callee {
            ValueModel::Function(f) => proceed(enter_call(m, f, done)),
            _ => (m.waiting(Awaiting::Number), ActionModel::Clock),
        },
    }
}

/// Going on with a call after its callee or one of its arguments was
/// evaluated: the next argument is evaluated, or, after the last one,
/// the call is made.
pub open spec fn gather(
    m: MachineModel,
    paren: TokenModel,
    callee: Option<ValueModel>,
    done: Seq<ValueModel>,
    rest: Seq<ExprModel>,
    value: ValueModel,
) -> (MachineModel, ActionModel) {
    let target = match callee {
        Some(c) => c,
        None => value,
    };
    let ready = match callee {
        Some(_) => done.push(value),
        None => done,
    };
    if rest.len() == 0 {
        invoke(m, paren, target, ready)
    } else {
        proceed(
            m.with_task(
                TaskModel::Arguments { paren, callee: Some(target), done: ready, rest: rest.skip(1) },
            ).with_task(TaskModel::Evaluate(rest[0])),
        )
    }
}

/// Doing `task`, which was taken off the machine `m`.
pub open spec fn perform(m: MachineModel, task: TaskModel) -> (MachineModel, ActionModel) {
    match task {
        TaskModel::Execute(statement) => execute(m, statement),
        TaskModel::Leave(outer) => proceed(m.inside(outer)),
        TaskModel::EndCall(caller) => proceed(m.inside(caller).holding(ValueModel::Nil)),
        TaskModel::Evaluate(expression) => evaluate(m, expression),
        TaskModel::Discard => proceed(m.emptied()),
        TaskModel::Print => print(m.emptied(), m.held()),
        TaskModel::Define(name) => proceed(
            MachineModel {
                frames: bind(m.frames, m.environment, name.lexeme, m.held()),
                ..m.emptied()
            },
        ),
        TaskModel::Branch { then_branch, else_branch } => if m.held().is_truthy() {
            proceed(m.emptied().with_task(TaskModel::Execute(then_branch)))
        } else {
            match else_branch {
                Some(e) => proceed(m.emptied().with_task(TaskModel::Execute(e))),
                None => proceed(m.emptied()),
            }
        },
        TaskModel::Repeat { condition, body } => if m.held().is_truthy() {
            proceed(
                m.emptied().with_task(
                    TaskModel::Execute(StmtModel::While { condition, body: Box::new(body) }),
                ).with_task(TaskModel::Execute(body)),
            )
        } else {
            proceed(m.emptied())
        },
        TaskModel::Return => unwind(m.emptied(), m.held()),
        TaskModel::Unary(operator) => match unary_result(operator.token_type, m.held()) {
            Ok(v) => proceed(m.holding(v)),
            Err(message) => fail(m, operator, message),
        },
        TaskModel::BinaryRight { operator, right } => proceed(
            m.emptied().with_task(TaskModel::Binary { operator, left: m.held() }).with_task(
                TaskModel::Evaluate(right),
            ),
        ),
        TaskModel::Binary { operator, left } => apply_binary(m.emptied(), operator, left, m.held()),
        TaskModel::Append(left) => append(m.emptied(), left, m.held()),
        TaskModel::Prepend(right) => prepend(m.emptied(), m.held(), right),
        TaskModel::Logical { operator, right } => match decides(operator.token_type, m.held()) {
            Some(true) => proceed(m.holding(m.held())),
            Some(false) => proceed(m.emptied().with_task(TaskModel::Evaluate(right))),
            None => fail(m, operator, "Unknown logical operator."@),
        },
        TaskModel::Assign(name) => match resolve(m.frames, m.environment, name.lexeme) {
            Some(frame) => proceed(
                MachineModel {
                    frames: bind(m.frames, frame, name.lexeme, m.held()),
                    ..m.holding(m.held())
                },
            ),
            None => fail(m, name, undefined_variable(name.lexeme)),
        },
        TaskModel::Arguments { paren, callee, done, rest } => gather(
            m.emptied(),
            paren,
            callee,
            done,
            rest,
            m.held(),
        ),
    }
}

/// One step of the machine, with the host's answer to the step before.
///
/// The answer goes to the register. Then the top task is done; where
/// there is none, the run is over.
pub open spec fn step(m: MachineModel, reply: ReplyModel) -> (MachineModel, ActionModel) {
    let ready = m.settled(reply);
    if ready.tasks.len() == 0 {
        (ready.stopped(), ActionModel::Finished(Ok(())))
    } else {
        perform(ready.without_task(), ready.tasks.last())
    }
}

/// A declaration gives the name the value that was evaluated for it:
/// once the task that binds the name is done, the name reads as that
/// value in the scope in force.
pub proof fn lemma_declared_value_is_read(m: MachineModel, name: TokenModel)
    requires
        m.environment < m.frames.len(),
    ensures
        ({
            let (after, action) = perform(m, TaskModel::Define(name));
            &&& action == ActionModel::Continue
            &&& after.tasks == m.tasks
            &&& after.environment == m.environment
            &&& lookup(after.frames, after.environment, name.lexeme) == Some(m.held())
        }),
{
    lemma_define_then_lookup(m.frames, m.environment, name.lexeme, m.held());
}

/// An assignment to a name that some scope binds gives the name the
/// value that was evaluated for it: once the task that assigns is done,
/// the name reads as that value, and the assignment itself has that
/// value.
pub proof fn lemma_assigned_value_is_read(m: MachineModel, name: TokenModel)
    requires
        resolve(m.frames, m.environment, name.lexeme) is Some,
    ensures
        ({
            let (after, action) = perform(m, TaskModel::Assign(name));
            &&& action == ActionModel::Continue
            &&& after.tasks == m.tasks
            &&& after.environment == m.environment
            &&& after.register == Some(m.held())
            &&& lookup(after.frames, after.environment, name.lexeme) == Some(m.held())
        }),
{
    lemma_assign_then_lookup(m.frames, m.environment, name.lexeme, m.held());
}

/// Reading or assigning a name that no scope binds ends the run with the
/// message `Undefined variable 'NAME'.` at the name, in whatever scope
/// it happens, and changes no frame.
pub proof fn lemma_undefined_variable(m: MachineModel, name: TokenModel)
    requires
        resolve(m.frames, m.environment, name.lexeme) is None,
    ensures
        evaluate(m, ExprModel::Variable { name }) == fail(m, name, undefined_variable(name.lexeme)),
        perform(m, TaskModel::Assign(name)) == fail(m, name, undefined_variable(name.lexeme)),
        fail(m, name, undefined_variable(name.lexeme)).0.frames == m.frames,
        fail(m, name, undefined_variable(name.lexeme)).1 == ActionModel::Finished(
            Err(
                SignalModel::Error(
                    RuntimeErrorModel { token: name, message: "Undefined variable '"@ + name.lexeme + "'."@ },
                ),
            ),
        ),
{
}

/// `A or B` with a truthy `A`, and `A and B` with a falsy `A`, have the
/// value of `A` itself, and `B` is not evaluated: no task is scheduled.
pub proof fn lemma_short_circuit(m: MachineModel, operator: TokenModel, right: ExprModel)
    requires
        (operator.token_type == TokenType::Or && m.held().is_truthy()) || (operator.token_type
            == TokenType::And && !m.held().is_truthy()),
    ensures
        ({
            let (after, action) = perform(m, TaskModel::Logical { operator, right });
            &&& action == ActionModel::Continue
            &&& after.register == Some(m.held())
            &&& after.tasks == m.tasks
            &&& after.frames == m.frames
            &&& after.environment == m.environment
        }),
{
}

/// `A or B` with a falsy `A`, and `A and B` with a truthy `A`, have the
/// value of `B`: the value of `A` is dropped and the one task scheduled
/// is the evaluation of `B`, whose value nothing changes afterwards.
pub proof fn lemma_right_operand_decides(m: MachineModel, operator: TokenModel, right: ExprModel)
    requires
        (operator.token_type == TokenType::Or && !m.held().is_truthy()) || (operator.token_type
            == TokenType::And && m.held().is_truthy()),
    ensures
        ({
            let (after, action) = perform(m, TaskModel::Logical { operator, right });
            &&& action == ActionModel::Continue
            &&& after.register is None
            &&& after.tasks == m.tasks.push(TaskModel::Evaluate(right))
            &&& after.frames == m.frames
            &&& after.environment == m.environment
        }),
{
}

/// Calling a function with another number of arguments than it has
/// parameters ends the run with `Expected N arguments but got M.` at the
/// closing parenthesis. No frame is made, nothing is bound and no
/// statement of the body is scheduled.
pub proof fn lemma_arity_mismatch(
    m: MachineModel,
    paren: TokenModel,
    function: FunctionModel,
    arguments: Seq<ValueModel>,
)
    requires
        function.declaration.params.len() != arguments.len(),
    ensures
        ({
            let (after, action) = invoke(m, paren, ValueModel::Function(function), arguments);
            &&& action == ActionModel::Finished(
                Err(
                    SignalModel::Error(
                        RuntimeErrorModel {
                            token: paren,
                            message: arity_mismatch(function.declaration.params.len(), arguments.len()),
                        },
                    ),
                ),
            )
            &&& after.frames == m.frames
            &&& after.tasks.len() == 0
        }),
{
}

/// Printing a whole number of a magnitude below 2^63 hands the host a
/// line without a decimal point, and asks nothing else of it.
pub proof fn lemma_whole_number_prints_without_point(m: MachineModel, bits: u64)
    requires
        whole_numeral(bits) is Some,
    ensures
        ({
            let (after, action) = perform(m, TaskModel::Print);
            m.held() == ValueModel::Number(bits) ==> {
                &&& action == ActionModel::Print(whole_numeral(bits)->Some_0)
                &&& !whole_numeral(bits)->Some_0.contains('.')
                &&& after == m.emptied()
            }
        }),
{
    lemma_whole_numeral_has_no_point(bits);
}

} // verus!
