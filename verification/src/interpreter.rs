//! The evaluator: a machine that is stepped by its host.
//!
//! The host calls [`Interpreter::interpret`] with a program and then
//! [`Interpreter::step`] until a step says that the run is finished. A
//! step may ask the host to print a line, to compute on two numbers, to
//! write a numeral or to read the clock; the host hands the answer to the
//! next step.

use vstd::prelude::*;
use vstd::string::StringExecFns;
use crate::discipline::{lemma_run_begins_orderly, lemma_step_keeps_order};
use crate::environment::{EnvId, EnvironmentArena};
use crate::expr::{exprs_view, Expr, ExprModel, ExprVisitor};
use crate::function::{FunctionDeclaration, LoxFunction};
use crate::native::NativeFunction;
use crate::number::{negate, number_is_zero, number_less, numbers_equal};
use crate::semantics::{
    apply_binary, append, arity_mismatch, call_check, combine, combine_numbers, decides,
    enter_block, enter_call, evaluate, execute, fail, gather, invoke, literal_value, perform,
    prepend, print, step, unary_result, unwind, ActionModel, Arithmetic, Awaiting, Combination,
    MachineModel, ReplyModel, RuntimeErrorModel, SignalModel, TaskModel,
};
use crate::stmt::{stmts_view, Stmt, StmtModel, StmtVisitor};
use crate::text::{decimal, decimal_digits};
use crate::token::{tokens_view, LiteralValue, Token, TokenType};
use crate::value::{lemma_values_view_push, values_view, Value, ValueModel};

verus! {

/// An error met while a program runs: the token at which it was met and
/// what was wrong.
#[derive(Debug)]
pub struct RuntimeError {
    pub token: Token,
    pub message: String,
}

impl View for RuntimeError {
    type V = RuntimeErrorModel;

    open spec fn view(&self) -> RuntimeErrorModel {
        RuntimeErrorModel { token: self.token@, message: self.message@ }
    }
}

impl RuntimeErrorModel {
    /// The line that shows the error: `[line N] Runtime Error: MESSAGE`.
    pub open spec fn text(self) -> Seq<char> {
        "[line "@ + decimal_digits(self.token.line) + "] Runtime Error: "@ + self.message
    }
}

impl RuntimeError {
    /// The line that shows the error to the user.
    pub fn render(&self) -> (r: String)
        ensures
            r@ == self@.text(),
    {
        let mut r = String::from_str("[line ");
        r.append(decimal(self.token.line).as_str());
        r.append("] Runtime Error: ");
        r.append(self.message.as_str());
        r
    }
}

/// The value that a `return` carries out of a function.
#[derive(Debug)]
pub struct ReturnValue {
    pub value: Value,
}

/// What ends a run early: an error, or a `return` outside any function.
#[derive(Debug)]
pub enum Signal {
    Error(RuntimeError),
    Return(ReturnValue),
}

impl View for Signal {
    type V = SignalModel;

    open spec fn view(&self) -> SignalModel {
        match self {
            Signal::Error(e) => SignalModel::Error(e@),
            Signal::Return(r) => SignalModel::Return(r.value@),
        }
    }
}

/// What the host hands to a step: the answer to what the step before
/// asked, or nothing.
#[derive(Debug)]
pub enum Reply {
    Nothing,
    Number(u64),
    Text(String),
}

impl View for Reply {
    type V = ReplyModel;

    open spec fn view(&self) -> ReplyModel {
        match self {
            Reply::Nothing => ReplyModel::Nothing,
            Reply::Number(n) => ReplyModel::Number(*n),
            Reply::Text(t) => ReplyModel::Text(t@),
        }
    }
}

/// What a step asks of the host.
#[derive(Debug)]
pub enum Action {
    /// Nothing: take the next step.
    Continue,
    /// Print this line.
    Print(String),
    /// Compute on two numbers and answer with the result.
    Compute { operation: Arithmetic, left: u64, right: u64 },
    /// Answer with the numeral of this number.
    Format(u64),
    /// Answer with the time in seconds since the Unix epoch.
    Clock,
    /// The run is over.
    Finished(Result<(), Signal>),
}

impl View for Action {
    type V = ActionModel;

    open spec fn view(&self) -> ActionModel {
        match self {
            Action::Continue => ActionModel::Continue,
            Action::Print(line) => ActionModel::Print(line@),
            Action::Compute { operation, left, right } => ActionModel::Compute {
                operation: *operation,
                left: *left,
                right: *right,
            },
            Action::Format(n) => ActionModel::Format(*n),
            Action::Clock => ActionModel::Clock,
            Action::Finished(r) => ActionModel::Finished(
                match r {
                    Ok(_) => Ok(()),
                    Err(s) => Err(s@),
                },
            ),
        }
    }
}

/// Something that the machine has still to do.
#[derive(Debug)]
pub enum Task {
    /// Run a statement.
    Execute(Stmt),
    /// Go back to the scope around a block.
    Leave(EnvId),
    /// Go back to the caller of a function whose body ran to its end.
    EndCall(EnvId),
    /// Evaluate an expression into the register.
    Evaluate(Expr),
    /// Drop the value in the register.
    Discard,
    /// Show the value in the register.
    Print,
    /// Bind a name to the value in the register.
    Define(Token),
    /// Run one of two statements, by the value in the register.
    Branch { then_branch: Stmt, else_branch: Option<Stmt> },
    /// Run the body of a loop and the loop again, or leave the loop.
    Repeat { condition: Expr, body: Stmt },
    /// Leave the function with the value in the register.
    Return,
    /// Apply a unary operator to the value in the register.
    Unary(Token),
    /// Keep the left operand and evaluate the right one.
    BinaryRight { operator: Token, right: Expr },
    /// Apply a binary operator to the kept operand and the register.
    Binary { operator: Token, left: Value },
    /// Join a text and what the register shows.
    Append(String),
    /// Join what the register shows and a text.
    Prepend(String),
    /// Keep the register or evaluate the right operand into it.
    Logical { operator: Token, right: Expr },
    /// Assign the value in the register to a name.
    Assign(Token),
    /// Keep the callee or the argument in the register and go on with the
    /// call.
    Arguments { paren: Token, callee: Option<Value>, done: Vec<Value>, rest: Vec<Expr> },
}

/// The view of an optional value.
pub open spec fn optional_value_view(v: Option<Value>) -> Option<ValueModel> {
    match v {
        Some(v) => Some(v@),
        None => None,
    }
}

impl View for Task {
    type V = TaskModel;

    open spec fn view(&self) -> TaskModel {
        match self {
            Task::Execute(s) => TaskModel::Execute(s@),
            Task::Leave(e) => TaskModel::Leave(*e as nat),
            Task::EndCall(e) => TaskModel::EndCall(*e as nat),
            Task::Evaluate(e) => TaskModel::Evaluate(e@),
            Task::Discard => TaskModel::Discard,
            Task::Print => TaskModel::Print,
            Task::Define(name) => TaskModel::Define(name@),
            Task::Branch { then_branch, else_branch } => TaskModel::Branch {
                then_branch: then_branch@,
                else_branch: match else_branch {
                    Some(e) => Some(e@),
                    None => None,
                },
            },
            Task::Repeat { condition, body } => TaskModel::Repeat { condition: condition@, body: body@ },
            Task::Return => TaskModel::Return,
            Task::Unary(operator) => TaskModel::Unary(operator@),
            Task::BinaryRight { operator, right } => TaskModel::BinaryRight {
                operator: operator@,
                right: right@,
            },
            Task::Binary { operator, left } => TaskModel::Binary { operator: operator@, left: left@ },
            Task::Append(left) => TaskModel::Append(left@),
            Task::Prepend(right) => TaskModel::Prepend(right@),
            Task::Logical { operator, right } => TaskModel::Logical { operator: operator@, right: right@ },
            Task::Assign(name) => TaskModel::Assign(name@),
            Task::Arguments { paren, callee, done, rest } => TaskModel::Arguments {
                paren: paren@,
                callee: optional_value_view(*callee),
                done: values_view(done@),
                rest: exprs_view(rest@),
            },
        }
    }
}

/// The views of a sequence of tasks, in order.
pub open spec fn tasks_view(tasks: Seq<Task>) -> Seq<TaskModel> {
    tasks.map_values(|t: Task| t@)
}

/// What is to be done with the two operands of a binary operator.
pub enum Combined {
    Value(Value),
    Compute(Arithmetic, u64, u64),
    Append(String, Value),
    Prepend(Value, String),
    Fail(String),
}

impl View for Combined {
    type V = Combination;

    open spec fn view(&self) -> Combination {
        match self {
            Combined::Value(v) => Combination::Value(v@),
            Combined::Compute(operation, a, b) => Combination::Compute(*operation, *a, *b),
            Combined::Append(text, v) => Combination::Append(text@, v@),
            Combined::Prepend(v, text) => Combination::Prepend(v@, text@),
            Combined::Fail(message) => Combination::Fail(message@),
        }
    }
}

/// The value of a literal.
pub fn value_of_literal(literal: Option<LiteralValue>) -> (r: Value)
    ensures
        r@ == literal_value(crate::token::literal_view(literal)),
{
    match literal {
        Some(LiteralValue::Boolean(b)) => Value::Boolean(b),
        Some(LiteralValue::Nil) => Value::Nil,
        None => Value::Nil,
        Some(LiteralValue::Number(n)) => Value::Number(n),
        Some(LiteralValue::String(s)) => Value::String(s),
    }
}

/// Applies a unary operator: `!` negates truthiness, `-` negates a
/// number and rejects anything else with the message handed back.
pub fn apply_unary(operator: TokenType, operand: Value) -> (r: Result<Value, String>)
    ensures
        match r {
            Ok(v) => unary_result(operator, operand@) == Ok::<ValueModel, Seq<char>>(v@),
            Err(message) => unary_result(operator, operand@) == Err::<ValueModel, Seq<char>>(message@),
        },
{
    match operator {
        TokenType::Bang => Ok(Value::Boolean(!operand.is_truthy())),
        TokenType::Minus => match operand {
            Value::Number(n) => Ok(Value::Number(negate(n))),
            _ => Err(String::from_str("Operand must be a number.")),
        },
        _ => Err(String::from_str("Unknown unary operator.")),
    }
}

/// Decides what an arithmetic operator or a comparison does with two
/// numbers.
pub fn combine_two_numbers(operator: TokenType, a: u64, b: u64) -> (r: Combined)
    ensures
        r@ == combine_numbers(operator, a, b),
{
    match operator {
        TokenType::Plus => Combined::Compute(Arithmetic::Add, a, b),
        TokenType::Minus => Combined::Compute(Arithmetic::Subtract, a, b),
        TokenType::Star => Combined::Compute(Arithmetic::Multiply, a, b),
        TokenType::Slash => if number_is_zero(b) {
            Combined::Fail(String::from_str("Division by zero."))
        } else {
            Combined::Compute(Arithmetic::Divide, a, b)
        },
        TokenType::Greater => Combined::Value(Value::Boolean(number_less(b, a))),
        TokenType::GreaterEqual => Combined::Value(
            Value::Boolean(number_less(b, a) || numbers_equal(a, b)),
        ),
        TokenType::Less => Combined::Value(Value::Boolean(number_less(a, b))),
        TokenType::LessEqual => Combined::Value(Value::Boolean(number_less(a, b) || numbers_equal(a, b))),
        _ => Combined::Fail(String::from_str("Unknown binary operator.")),
    }
}

/// Decides what a binary operator does with its operands.
pub fn combine_operands(operator: TokenType, left: Value, right: Value) -> (r: Combined)
    ensures
        r@ == combine(operator, left@, right@),
{
    match operator {
        TokenType::EqualEqual => Combined::Value(Value::Boolean(left.is_equal(&right))),
        TokenType::BangEqual => Combined::Value(Value::Boolean(!left.is_equal(&right))),
        TokenType::Plus => match (left, right) {
            (Value::Number(a), Value::Number(b)) => combine_two_numbers(operator, a, b),
            (Value::String(a), right) => Combined::Append(a, right),
            (left, Value::String(b)) => Combined::Prepend(left, b),
            _ => Combined::Fail(String::from_str("Operands must be two numbers or two strings.")),
        },
        TokenType::Minus
        | TokenType::Star
        | TokenType::Slash
        | TokenType::Greater
        | TokenType::GreaterEqual
        | TokenType::Less
        | TokenType::LessEqual => match (left, right) {
            (Value::Number(a), Value::Number(b)) => combine_two_numbers(operator, a, b),
            _ => Combined::Fail(String::from_str("Operands must be numbers.")),
        },
        _ => Combined::Fail(String::from_str("Unknown binary operator.")),
    }
}

/// Whether the left operand of a logical operator decides the result.
pub fn left_decides(operator: TokenType, left: &Value) -> (r: Option<bool>)
    ensures
        r == decides(operator, left@),
{
    match operator {
        TokenType::Or => Some(left.is_truthy()),
        TokenType::And => Some(!left.is_truthy()),
        _ => None,
    }
}

/// Writes the message for a call with the wrong number of arguments.
pub fn arity_message(expected: usize, got: usize) -> (r: String)
    ensures
        r@ == arity_mismatch(expected as nat, got as nat),
{
    let mut text = String::from_str("Expected ");
    text.append(decimal(expected).as_str());
    text.append(" arguments but got ");
    text.append(decimal(got).as_str());
    text.append(".");
    text
}

/// Something that can be called.
#[derive(Debug)]
pub enum Callable {
    Function(LoxFunction),
    Native(NativeFunction),
}

impl Callable {
    /// The value that this is.
    pub open spec fn value(self) -> ValueModel {
        match self {
            Callable::Function(f) => ValueModel::Function(f@),
            Callable::Native(f) => ValueModel::NativeFunction(f),
        }
    }
}

/// Checks that `callee` can be called with `count` arguments, and hands
/// it back as what can be called; if it cannot, hands back why.
pub fn check_call(callee: Value, count: usize) -> (r: Result<Callable, String>)
    ensures
        match r {
            Ok(c) => call_check(callee@, count as nat) is Ok && c.value() == callee@,
            Err(message) => call_check(callee@, count as nat) == Err::<(), Seq<char>>(message@),
        },
{
    match callee {
        Value::Function(f) => if f.arity() == count {
            Ok(Callable::Function(f))
        } else {
            Err(arity_message(f.arity(), count))
        },
        Value::NativeFunction(f) => if f.arity() == count {
            Ok(Callable::Native(f))
        } else {
            Err(arity_message(f.arity(), count))
        },
        _ => Err(String::from_str("Can only call functions and classes.")),
    }
}

/// Appending a task appends its view.
pub proof fn lemma_tasks_view_push(list: Seq<Task>, last: Task)
    ensures
        tasks_view(list.push(last)) == tasks_view(list).push(last@),
{
    assert(tasks_view(list.push(last)) =~= tasks_view(list).push(last@));
}

/// The machine.
pub struct Interpreter {
    arena: EnvironmentArena,
    globals: EnvId,
    environment: EnvId,
    base: EnvId,
    tasks: Vec<Task>,
    register: Option<Value>,
    awaiting: Awaiting,
}

impl View for Interpreter {
    type V = MachineModel;

    closed spec fn view(&self) -> MachineModel {
        MachineModel {
            frames: self.arena@,
            globals: self.globals as nat,
            environment: self.environment as nat,
            base: self.base as nat,
            tasks: tasks_view(self.tasks@),
            register: optional_value_view(self.register),
            awaiting: self.awaiting,
        }
    }
}

/// The frame of the global scope when the machine is made: it binds
/// `clock` and nothing else.
pub open spec fn initial_globals() -> crate::environment::FrameModel {
    crate::environment::FrameModel {
        enclosing: None,
        values: Map::empty().insert("clock"@, ValueModel::NativeFunction(NativeFunction::Clock)),
    }
}

impl Interpreter {
    /// A machine with nothing to do, in a global scope that binds the
    /// functions of the host.
    pub fn new() -> (r: Self)
        ensures
            r@ == (MachineModel {
                frames: seq![initial_globals()],
                globals: 0,
                environment: 0,
                base: 0,
                tasks: Seq::empty(),
                register: None,
                awaiting: Awaiting::Nothing,
            }),
            r@.orderly(),
    {
        let mut arena = EnvironmentArena::new();
        let globals = arena.create_env();
        arena.define(globals, String::from_str("clock"), Value::NativeFunction(NativeFunction::Clock));
        let r = Self {
            arena,
            globals,
            environment: globals,
            base: globals,
            tasks: Vec::new(),
            register: None,
            awaiting: Awaiting::Nothing,
        };
        assert(r@.frames =~= seq![initial_globals()]);
        assert(r@.tasks =~= Seq::<TaskModel>::empty());
        r
    }

    /// What the machine waits for: the kind of answer that the next step
    /// takes.
    pub fn awaiting(&self) -> (r: Awaiting)
        ensures
            r == self@.awaiting,
    {
        self.awaiting
    }

    /// Whether nothing is left to do.
    pub fn is_idle(&self) -> (r: bool)
        ensures
            r == (self@.tasks.len() == 0),
    {
        self.tasks.len() == 0
    }

    /// Reads a name in the scope in force.
    pub fn read(&self, name: &str) -> (r: Result<Value, String>)
        ensures
            match r {
                Ok(value) => crate::environment::lookup(self@.frames, self@.environment, name@) == Some(
                    value@,
                ),
                Err(message) => crate::environment::lookup(self@.frames, self@.environment, name@)
                    is None && message@ == crate::environment::undefined_variable(name@),
            },
    {
        self.arena.get(self.environment, name)
    }

    fn push(&mut self, task: Task)
        ensures
            final(self)@ == old(self)@.with_task(task@),
    {
        proof {
            lemma_tasks_view_push(self.tasks@, task);
        }
        self.tasks.push(task);
    }

    fn pop(&mut self) -> (r: Option<Task>)
        ensures
            match r {
                Some(task) => {
                    &&& old(self)@.tasks.len() > 0
                    &&& task@ == old(self)@.tasks.last()
                    &&& final(self)@ == old(self)@.without_task()
                },
                None => old(self)@.tasks.len() == 0 && final(self)@ == old(self)@,
            },
    {
        let r = self.tasks.pop();
        assert(r is Some ==> tasks_view(self.tasks@) =~= tasks_view(old(self).tasks@).drop_last());
        r
    }

    fn take(&mut self) -> (r: Value)
        ensures
            r@ == old(self)@.held(),
            final(self)@ == old(self)@.emptied(),
    {
        let mut slot: Option<Value> = None;
        std::mem::swap(&mut slot, &mut self.register);
        match slot {
            Some(v) => v,
            None => Value::Nil,
        }
    }

    fn hold(&mut self, value: Value)
        ensures
            final(self)@ == old(self)@.holding(value@),
    {
        self.register = Some(value);
    }

    fn stop(&mut self)
        ensures
            final(self)@ == old(self)@.stopped(),
    {
        self.tasks = Vec::new();
        self.register = None;
        self.awaiting = Awaiting::Nothing;
        self.environment = self.base;
        assert(self@.tasks =~= Seq::<TaskModel>::empty());
    }

    /// Ends the run with a runtime error at `token`.
    fn fail(&mut self, token: Token, message: String) -> (r: Action)
        ensures
            (final(self)@, r@) == fail(old(self)@, token@, message@),
    {
        self.stop();
        Action::Finished(Err(Signal::Error(RuntimeError { token, message })))
    }

    /// Schedules the statements: the first one is done first.
    fn schedule(&mut self, statements: Vec<Stmt>)
        ensures
            final(self)@ == old(self)@.scheduled(stmts_view(statements@)),
    {
        let mut rest = statements;
        let ghost goal = self@.scheduled(stmts_view(statements@));
        while rest.len() > 0
            invariant
                goal == self@.scheduled(stmts_view(rest@)),
            decreases rest.len(),
        {
            let ghost before = rest@;
            match rest.pop() {
                Some(statement) => {
                    assert(stmts_view(rest@) =~= stmts_view(before).drop_last());
                    self.push(Task::Execute(statement));
                },
                None => {},
            }
        }
    }

    /// Binds the names to the values in the scope in force, pair by pair,
    /// as far as both lists go.
    fn bind_all(&mut self, names: &Vec<Token>, values: &Vec<Value>)
        ensures
            final(self)@ == old(self)@.bound(tokens_view(names@), values_view(values@)),
    {
        let ghost goal = self@.bound(tokens_view(names@), values_view(values@));
        let mut i: usize = 0;
        assert(tokens_view(names@).skip(0) =~= tokens_view(names@));
        assert(values_view(values@).skip(0) =~= values_view(values@));
        while i < names.len() && i < values.len()
            invariant
                i <= names.len(),
                i <= values.len(),
                goal == self@.bound(tokens_view(names@).skip(i as int), values_view(values@).skip(i as int)),
            decreases names.len() - i,
        {
            let ghost ns = tokens_view(names@).skip(i as int);
            let ghost vs = values_view(values@).skip(i as int);
            self.arena.define(self.environment, names[i].lexeme.clone(), values[i].clone());
            assert(ns.skip(1) =~= tokens_view(names@).skip(i + 1));
            assert(vs.skip(1) =~= values_view(values@).skip(i + 1));
            i += 1;
        }
    }

    /// Enters a block: a fresh scope inside the one in force, with the
    /// statements scheduled in it and the way back out behind them.
    pub fn execute_block(&mut self, statements: Vec<Stmt>)
        ensures
            final(self)@ == enter_block(old(self)@, stmts_view(statements@)),
    {
        let outer = self.environment;
        let inner = self.arena.create_env_with_enclosing(outer);
        self.environment = inner;
        self.push(Task::Leave(outer));
        self.schedule(statements);
    }

    /// Enters a function: a fresh scope inside the one that the function
    /// closes over, with the parameters bound to the arguments, the body
    /// scheduled and the way back to the caller behind it.
    pub fn call_lox_function(&mut self, function: &LoxFunction, arguments: Vec<Value>)
        ensures
            final(self)@ == enter_call(old(self)@, function@, values_view(arguments@)),
    {
        let caller = self.environment;
        let inner = self.arena.create_env_with_enclosing(function.closure());
        self.environment = inner;
        self.bind_all(&function.declaration().params, &arguments);
        self.push(Task::EndCall(caller));
        self.schedule(crate::stmt::clone_stmts(&function.declaration().body));
    }

    /// Leaves the function in which a `return` was met.
    fn unwind(&mut self, value: Value) -> (r: Action)
        ensures
            (final(self)@, r@) == unwind(old(self)@, value@),
    {
        let ghost goal = unwind(self@, value@);
        loop
            invariant
                goal == unwind(old(self)@, value@),
                goal == unwind(self@, value@),
            ensures
                self@.tasks.len() == 0,
                goal == unwind(self@, value@),
            decreases self@.tasks.len(),
        {
            match self.pop() {
                Some(Task::EndCall(caller)) => {
                    self.environment = caller;
                    self.hold(value);
                    return Action::Continue;
                },
                Some(_) => {},
                None => {
                    break ;
                },
            }
        }
        self.stop();
        Action::Finished(Err(Signal::Return(ReturnValue { value })))
    }

    /// Begins a statement.
    fn execute(&mut self, statement: Stmt) -> (r: Action)
        ensures
            (final(self)@, r@) == execute(old(self)@, statement@),
    {
        match statement {
            Stmt::Expression { expression } => {
                self.push(Task::Discard);
                self.push(Task::Evaluate(*expression));
                Action::Continue
            },
            Stmt::Print { expression } => {
                self.push(Task::Print);
                self.push(Task::Evaluate(*expression));
                Action::Continue
            },
            Stmt::Var { name, initializer } => match initializer {
                Some(e) => {
                    self.push(Task::Define(name));
                    self.push(Task::Evaluate(*e));
                    Action::Continue
                },
                None => {
                    self.arena.define(self.environment, name.lexeme, Value::Nil);
                    Action::Continue
                },
            },
            Stmt::Block { statements } => {
                assert(statement@->Block_statements =~= stmts_view(statements@));
                self.execute_block(statements);
                Action::Continue
            },
            Stmt::If { condition, then_branch, else_branch } => {
                let other = match else_branch {
                    Some(e) => Some(*e),
                    None => None,
                };
                self.push(Task::Branch { then_branch: *then_branch, else_branch: other });
                self.push(Task::Evaluate(*condition));
                Action::Continue
            },
            Stmt::While { condition, body } => {
                let test = (&*condition).clone();
                self.push(Task::Repeat { condition: *condition, body: *body });
                self.push(Task::Evaluate(test));
                Action::Continue
            },
            Stmt::Function { name, params, body } => {
                assert(statement@->Function_body =~= stmts_view(body@));
                let label = name.lexeme.clone();
                let declaration = FunctionDeclaration { name, params, body };
                let function = LoxFunction::new(declaration, self.environment);
                self.arena.define(self.environment, label, Value::Function(function));
                Action::Continue
            },
            Stmt::Return { keyword, value } => match value {
                Some(e) => {
                    self.push(Task::Return);
                    self.push(Task::Evaluate(*e));
                    Action::Continue
                },
                None => self.unwind(Value::Nil),
            },
        }
    }

    /// Begins an expression.
    fn evaluate(&mut self, expression: Expr) -> (r: Action)
        ensures
            (final(self)@, r@) == evaluate(old(self)@, expression@),
    {
        match expression {
            Expr::Literal { value } => {
                self.hold(value_of_literal(value));
                Action::Continue
            },
            Expr::Grouping { expression } => {
                self.push(Task::Evaluate(*expression));
                Action::Continue
            },
            Expr::Unary { operator, right } => {
                self.push(Task::Unary(operator));
                self.push(Task::Evaluate(*right));
                Action::Continue
            },
            Expr::Binary { left, operator, right } => {
                self.push(Task::BinaryRight { operator, right: *right });
                self.push(Task::Evaluate(*left));
                Action::Continue
            },
            Expr::Logical { left, operator, right } => {
                self.push(Task::Logical { operator, right: *right });
                self.push(Task::Evaluate(*left));
                Action::Continue
            },
            Expr::Variable { name } => match self.arena.get(self.environment, name.lexeme.as_str()) {
                Ok(value) => {
                    self.hold(value);
                    Action::Continue
                },
                Err(message) => self.fail(name, message),
            },
            Expr::Assign { name, value } => {
                self.push(Task::Assign(name));
                self.push(Task::Evaluate(*value));
                Action::Continue
            },
            Expr::Call { callee, paren, arguments } => {
                assert(expression@->Call_arguments =~= exprs_view(arguments@));
                let done: Vec<Value> = Vec::new();
                assert(values_view(done@) =~= Seq::<ValueModel>::empty());
                self.push(Task::Arguments { paren, callee: None, done, rest: arguments });
                self.push(Task::Evaluate(*callee));
                Action::Continue
            },
        }
    }

    /// Shows `value`: hands the host a line to print, or, for a number,
    /// asks for its numeral and schedules the same task again.
    fn print(&mut self, value: Value) -> (r: Action)
        ensures
            (final(self)@, r@) == print(old(self)@, value@),
    {
        match value.display() {
            Some(line) => Action::Print(line),
            None => match value {
                Value::Number(n) => {
                    self.push(Task::Print);
                    self.awaiting = Awaiting::Text;
                    Action::Format(n)
                },
                _ => Action::Continue,
            },
        }
    }

    /// Joins `left` and the display form of `value`.
    fn append(&mut self, left: String, value: Value) -> (r: Action)
        ensures
            (final(self)@, r@) == append(old(self)@, left@, value@),
    {
        match value.display() {
            Some(text) => {
                let mut joined = left;
                joined.append(text.as_str());
                self.hold(Value::String(joined));
                Action::Continue
            },
            None => match value {
                Value::Number(n) => {
                    self.push(Task::Append(left));
                    self.awaiting = Awaiting::Text;
                    Action::Format(n)
                },
                _ => Action::Continue,
            },
        }
    }

    /// Joins the display form of `value` and `right`.
    fn prepend(&mut self, value: Value, right: String) -> (r: Action)
        ensures
            (final(self)@, r@) == prepend(old(self)@, value@, right@),
    {
        match value.display() {
            Some(text) => {
                let mut joined = text;
                joined.append(right.as_str());
                self.hold(Value::String(joined));
                Action::Continue
            },
            None => match value {
                Value::Number(n) => {
                    self.push(Task::Prepend(right));
                    self.awaiting = Awaiting::Text;
                    Action::Format(n)
                },
                _ => Action::Continue,
            },
        }
    }

    /// Applies a binary operator to its operands.
    fn apply_binary(&mut self, operator: Token, left: Value, right: Value) -> (r: Action)
        ensures
            (final(self)@, r@) == apply_binary(old(self)@, operator@, left@, right@),
    {
        match combine_operands(operator.token_type, left, right) {
            Combined::Value(v) => {
                self.hold(v);
                Action::Continue
            },
            Combined::Compute(operation, a, b) => {
                self.awaiting = Awaiting::Number;
                Action::Compute { operation, left: a, right: b }
            },
            Combined::Append(text, value) => self.append(text, value),
            Combined::Prepend(value, text) => self.prepend(value, text),
            Combined::Fail(message) => self.fail(operator, message),
        }
    }

    /// Calls `callee` with the arguments `done`.
    fn invoke(&mut self, paren: Token, callee: Value, done: Vec<Value>) -> (r: Action)
        ensures
            (final(self)@, r@) == invoke(old(self)@, paren@, callee@, values_view(done@)),
    {
        match check_call(callee, done.len()) {
            Err(message) => self.fail(paren, message),
            Ok(Callable::Function(f)) => {
                self.call_lox_function(&f, done);
                Action::Continue
            },
            Ok(Callable::Native(f)) => f.call(self, done),
        }
    }

    /// Goes on with a call after its callee or one of its arguments was
    /// evaluated.
    fn gather(
        &mut self,
        paren: Token,
        callee: Option<Value>,
        done: Vec<Value>,
        rest: Vec<Expr>,
        value: Value,
    ) -> (r: Action)
        ensures
            (final(self)@, r@) == gather(
                old(self)@,
                paren@,
                optional_value_view(callee),
                values_view(done@),
                exprs_view(rest@),
                value@,
            ),
    {
        let mut ready = done;
        let mut rest = rest;
        let target = match callee {
            Some(c) => {
                proof {
                    lemma_values_view_push(done@, value);
                }
                ready.push(value);
                c
            },
            None => value,
        };
        if rest.len() == 0 {
            self.invoke(paren, target, ready)
        } else {
            let ghost before = rest@;
            let next = rest.remove(0);
            assert(exprs_view(rest@) =~= exprs_view(before).skip(1));
            self.push(Task::Arguments { paren, callee: Some(target), done: ready, rest });
            self.push(Task::Evaluate(next));
            Action::Continue
        }
    }

    /// Does `task`, which was taken off the machine.
    #[verifier::spinoff_prover]
    #[verifier::rlimit(30)]
    fn perform(&mut self, task: Task) -> (r: Action)
        ensures
            (final(self)@, r@) == perform(old(self)@, task@),
    {
        match task {
            Task::Execute(statement) => self.execute(statement),
            Task::Leave(outer) => {
                self.environment = outer;
                Action::Continue
            },
            Task::EndCall(caller) => {
                self.environment = caller;
                self.hold(Value::Nil);
                Action::Continue
            },
            Task::Evaluate(expression) => self.evaluate(expression),
            Task::Discard => {
                let _ = self.take();
                Action::Continue
            },
            Task::Print => {
                let value = self.take();
                self.print(value)
            },
            Task::Define(name) => {
                let value = self.take();
                self.arena.define(self.environment, name.lexeme, value);
                Action::Continue
            },
            Task::Branch { then_branch, else_branch } => {
                let value = self.take();
                if value.is_truthy() {
                    self.push(Task::Execute(then_branch));
                } else {
                    match else_branch {
                        Some(e) => {
                            self.push(Task::Execute(e));
                        },
                        None => {},
                    }
                }
                Action::Continue
            },
            Task::Repeat { condition, body } => {
                let value = self.take();
                if value.is_truthy() {
                    let once = body.clone();
                    self.push(
                        Task::Execute(Stmt::While { condition: Box::new(condition), body: Box::new(body) }),
                    );
                    self.push(Task::Execute(once));
                }
                Action::Continue
            },
            Task::Return => {
                let value = self.take();
                self.unwind(value)
            },
            Task::Unary(operator) => {
                let value = self.take();
                match apply_unary(operator.token_type, value) {
                    Ok(v) => {
                        self.hold(v);
                        Action::Continue
                    },
                    Err(message) => self.fail(operator, message),
                }
            },
            Task::BinaryRight { operator, right } => {
                let left = self.take();
                self.push(Task::Binary { operator, left });
                self.push(Task::Evaluate(right));
                Action::Continue
            },
            Task::Binary { operator, left } => {
                let right = self.take();
                self.apply_binary(operator, left, right)
            },
            Task::Append(left) => {
                let value = self.take();
                self.append(left, value)
            },
            Task::Prepend(right) => {
                let value = self.take();
                self.prepend(value, right)
            },
            Task::Logical { operator, right } => {
                let value = self.take();
                match left_decides(operator.token_type, &value) {
                    Some(true) => {
                        self.hold(value);
                        Action::Continue
                    },
                    Some(false) => {
                        self.push(Task::Evaluate(right));
                        Action::Continue
                    },
                    None => self.fail(operator, String::from_str("Unknown logical operator.")),
                }
            },
            Task::Assign(name) => {
                let value = self.take();
                let kept = value.clone();
                match self.arena.assign(self.environment, name.lexeme.as_str(), value) {
                    Ok(_) => {
                        self.hold(kept);
                        Action::Continue
                    },
                    Err(message) => self.fail(name, message),
                }
            },
            Task::Arguments { paren, callee, done, rest } => {
                let value = self.take();
                self.gather(paren, callee, done, rest, value)
            },
        }
    }

    /// Takes the host's answer into the register.
    fn settle(&mut self, reply: Reply)
        ensures
            final(self)@ == old(self)@.settled(reply@),
    {
        self.awaiting = Awaiting::Nothing;
        match reply {
            Reply::Nothing => {},
            Reply::Number(n) => {
                self.register = Some(Value::Number(n));
            },
            Reply::Text(t) => {
                self.register = Some(Value::String(t));
            },
        }
    }

    /// Begins a run of `statements` in the scope in force. Whatever was
    /// left of another run is dropped.
    pub fn interpret(&mut self, statements: &Vec<Stmt>)
        ensures
            final(self)@ == (MachineModel {
                base: old(self)@.environment,
                tasks: Seq::empty(),
                register: None,
                awaiting: Awaiting::Nothing,
                ..old(self)@
            }).scheduled(stmts_view(statements@)),
            final(self)@.orderly(),
    {
        proof {
            lemma_run_begins_orderly(self@, stmts_view(statements@));
        }
        self.base = self.environment;
        self.stop();
        self.schedule(crate::stmt::clone_stmts(statements));
    }

    /// Takes one step.
    ///
    /// `reply` is the answer to what the step before asked: a number after
    /// [`Action::Compute`] and [`Action::Clock`], a text after
    /// [`Action::Format`], nothing otherwise.
    pub fn step(&mut self, reply: Reply) -> (r: Action)
        requires
            reply@.answers(old(self)@.awaiting),
        ensures
            (final(self)@, r@) == step(old(self)@, reply@),
            old(self)@.orderly() ==> final(self)@.orderly(),
    {
        proof {
            if self@.orderly() {
                lemma_step_keeps_order(self@, reply@);
            }
        }
        self.settle(reply);
        match self.pop() {
            Some(task) => self.perform(task),
            None => {
                self.stop();
                Action::Finished(Ok(()))
            },
        }
    }
}

impl NativeFunction {
    /// Calls the function: asks the host for what it computes. The answer
    /// to the next step is the value of the call.
    pub fn call(&self, interpreter: &mut Interpreter, arguments: Vec<Value>) -> (r: Action)
        ensures
            final(interpreter)@ == old(interpreter)@.waiting(Awaiting::Number),
            r@ == ActionModel::Clock,
    {
        match self {
            NativeFunction::Clock => {
                interpreter.awaiting = Awaiting::Number;
                Action::Clock
            },
        }
    }
}

/// Visiting an expression begins its evaluation.
impl ExprVisitor<Action> for Interpreter {
    open spec fn visited(&self, expr: ExprModel, after: &Self, result: Action) -> bool {
        (after@, result@) == evaluate(self@, expr)
    }

    fn visit_binary_expr(&mut self, expr: &Expr, left: &Expr, operator: &Token, right: &Expr) -> (r: Action) {
        self.evaluate(expr.clone())
    }

    fn visit_unary_expr(&mut self, expr: &Expr, operator: &Token, right: &Expr) -> (r: Action) {
        self.evaluate(expr.clone())
    }

    fn visit_literal_expr(&mut self, expr: &Expr, value: &Option<LiteralValue>) -> (r: Action) {
        self.evaluate(expr.clone())
    }

    fn visit_grouping_expr(&mut self, expr: &Expr, expression: &Expr) -> (r: Action) {
        self.evaluate(expr.clone())
    }

    fn visit_variable_expr(&mut self, expr: &Expr, name: &Token) -> (r: Action) {
        self.evaluate(expr.clone())
    }

    fn visit_assign_expr(&mut self, expr: &Expr, name: &Token, value: &Expr) -> (r: Action) {
        self.evaluate(expr.clone())
    }

    fn visit_logical_expr(&mut self, expr: &Expr, left: &Expr, operator: &Token, right: &Expr) -> (r: Action) {
        self.evaluate(expr.clone())
    }

    fn visit_call_expr(&mut self, expr: &Expr, callee: &Expr, paren: &Token, arguments: &Vec<Expr>) -> (r:
        Action) {
        self.evaluate(expr.clone())
    }
}

/// Visiting a statement begins its execution.
impl StmtVisitor<Action> for Interpreter {
    open spec fn visited(&self, stmt: StmtModel, after: &Self, result: Action) -> bool {
        (after@, result@) == execute(self@, stmt)
    }

    fn visit_expression_stmt(&mut self, stmt: &Stmt, expression: &Expr) -> (r: Action) {
        self.execute(stmt.clone())
    }

    fn visit_print_stmt(&mut self, stmt: &Stmt, expression: &Expr) -> (r: Action) {
        self.execute(stmt.clone())
    }

    fn visit_var_stmt(&mut self, stmt: &Stmt, name: &Token, initializer: &Option<Box<Expr>>) -> (r: Action) {
        self.execute(stmt.clone())
    }

    fn visit_block_stmt(&mut self, stmt: &Stmt, statements: &Vec<Stmt>) -> (r: Action) {
        self.execute(stmt.clone())
    }

    fn visit_if_stmt(
        &mut self,
        stmt: &Stmt,
        condition: &Expr,
        then_branch: &Stmt,
        else_branch: &Option<Box<Stmt>>,
    ) -> (r: Action) {
        self.execute(stmt.clone())
    }

    fn visit_while_stmt(&mut self, stmt: &Stmt, condition: &Expr, body: &Stmt) -> (r: Action) {
        self.execute(stmt.clone())
    }

    fn visit_function_stmt(&mut self, stmt: &Stmt, name: &Token, params: &Vec<Token>, body: &Vec<Stmt>) -> (r:
        Action) {
        self.execute(stmt.clone())
    }

    fn visit_return_stmt(&mut self, stmt: &Stmt, keyword: &Token, value: &Option<Box<Expr>>) -> (r: Action) {
        self.execute(stmt.clone())
    }
}

} // verus!
