//! Runs of the machine, and what lies below them.
//!
//! A run is a number of steps, each with the answer of the host. As long
//! as no step ends the run, the steps look at the tasks on top only: the
//! same steps do the same on top of any other tasks, ask the host the same
//! and leave those tasks as they were. So what an expression evaluates to
//! does not depend on where in a program it stands.

use vstd::prelude::*;
use crate::expr::ExprModel;
use crate::function::FunctionModel;
use crate::semantics::{
    append, apply_binary, enter_block, enter_call, evaluate, execute, gather, invoke, perform,
    prepend, print, step, unwind, ActionModel, Combination, MachineModel, ReplyModel,
    TaskModel,
};
use crate::stmt::StmtModel;
use crate::token::TokenModel;
use crate::value::ValueModel;

verus! {

/// The machine after the steps that `replies` answer, in order.
pub open spec fn run(m: MachineModel, replies: Seq<ReplyModel>) -> MachineModel
    decreases replies.len(),
{
    if replies.len() == 0 {
        m
    } else {
        run(step(m, replies[0]).0, replies.skip(1))
    }
}

/// What the steps that `replies` answer ask of the host, in order.
pub open spec fn asked(m: MachineModel, replies: Seq<ReplyModel>) -> Seq<ActionModel>
    decreases replies.len(),
{
    if replies.len() == 0 {
        Seq::empty()
    } else {
        seq![step(m, replies[0]).1] + asked(step(m, replies[0]).0, replies.skip(1))
    }
}

/// Whether each of `replies` is the kind of answer that the machine then
/// waits for, and none of the steps ends the run.
pub open spec fn goes_on(m: MachineModel, replies: Seq<ReplyModel>) -> bool
    decreases replies.len(),
{
    if replies.len() == 0 {
        true
    } else {
        &&& replies[0].answers(m.awaiting)
        &&& !(step(m, replies[0]).1 is Finished)
        &&& goes_on(step(m, replies[0]).0, replies.skip(1))
    }
}

/// The machine with the tasks `below` under its own.
pub open spec fn over(m: MachineModel, below: Seq<TaskModel>) -> MachineModel {
    MachineModel { tasks: below + m.tasks, ..m }
}

/// A task put on top stays on top of what lies below.
pub proof fn lemma_over_with_task(m: MachineModel, below: Seq<TaskModel>, task: TaskModel)
    ensures
        over(m, below).with_task(task) == over(m.with_task(task), below),
{
    assert((below + m.tasks).push(task) =~= below + m.tasks.push(task));
}

/// Taking the top task off does not touch what lies below.
pub proof fn lemma_over_without_task(m: MachineModel, below: Seq<TaskModel>)
    requires
        m.tasks.len() > 0,
    ensures
        over(m, below).without_task() == over(m.without_task(), below),
        over(m, below).tasks.last() == m.tasks.last(),
{
    assert((below + m.tasks).drop_last() =~= below + m.tasks.drop_last());
}

/// Scheduling statements does not touch what lies below.
pub proof fn lemma_over_scheduled(m: MachineModel, below: Seq<TaskModel>, statements: Seq<StmtModel>)
    ensures
        over(m, below).scheduled(statements) == over(m.scheduled(statements), below),
    decreases statements.len(),
{
    if statements.len() > 0 {
        let task = TaskModel::Execute(statements.last());
        lemma_over_with_task(m, below, task);
        lemma_over_scheduled(m.with_task(task), below, statements.drop_last());
    }
}

/// Binding names does not touch the tasks.
pub proof fn lemma_over_bound(
    m: MachineModel,
    below: Seq<TaskModel>,
    names: Seq<TokenModel>,
    values: Seq<ValueModel>,
)
    ensures
        over(m, below).bound(names, values) == over(m.bound(names, values), below),
    decreases names.len(),
{
    if names.len() > 0 && values.len() > 0 {
        let next = MachineModel {
            frames: crate::environment::bind(m.frames, m.environment, names[0].lexeme, values[0]),
            ..m
        };
        lemma_over_bound(next, below, names.skip(1), values.skip(1));
    }
}

/// Entering a block does not touch what lies below.
pub proof fn lemma_over_enter_block(m: MachineModel, below: Seq<TaskModel>, statements: Seq<StmtModel>)
    ensures
        enter_block(over(m, below), statements) == over(enter_block(m, statements), below),
{
    let inside = MachineModel {
        frames: m.frames.push(
            crate::environment::FrameModel { enclosing: Some(m.environment), values: Map::empty() },
        ),
        environment: m.frames.len(),
        ..m
    };
    lemma_over_with_task(inside, below, TaskModel::Leave(m.environment));
    lemma_over_scheduled(inside.with_task(TaskModel::Leave(m.environment)), below, statements);
}

/// Entering a function does not touch what lies below.
pub proof fn lemma_over_enter_call(
    m: MachineModel,
    below: Seq<TaskModel>,
    function: FunctionModel,
    arguments: Seq<ValueModel>,
)
    ensures
        enter_call(over(m, below), function, arguments) == over(enter_call(m, function, arguments), below),
{
    let inside = MachineModel {
        frames: m.frames.push(
            crate::environment::FrameModel { enclosing: Some(function.closure), values: Map::empty() },
        ),
        environment: m.frames.len(),
        ..m
    };
    lemma_over_bound(inside, below, function.declaration.params, arguments);
    let bound = inside.bound(function.declaration.params, arguments);
    lemma_over_with_task(bound, below, TaskModel::EndCall(m.environment));
    lemma_over_scheduled(bound.with_task(TaskModel::EndCall(m.environment)), below, function.declaration.body);
}

/// Leaving a function that was entered by the tasks on top does not touch
/// what lies below.
pub proof fn lemma_over_unwind(m: MachineModel, below: Seq<TaskModel>, value: ValueModel)
    requires
        !(unwind(m, value).1 is Finished),
    ensures
        unwind(over(m, below), value) == (over(unwind(m, value).0, below), unwind(m, value).1),
    decreases m.tasks.len(),
{
    if m.tasks.len() > 0 {
        lemma_over_without_task(m, below);
        match m.tasks.last() {
            TaskModel::EndCall(_) => {},
            _ => {
                lemma_over_unwind(m.without_task(), below, value);
            },
        }
    }
}

/// Beginning a statement does not touch what lies below.
pub proof fn lemma_over_execute(m: MachineModel, below: Seq<TaskModel>, statement: StmtModel)
    requires
        !(execute(m, statement).1 is Finished),
    ensures
        execute(over(m, below), statement) == (over(execute(m, statement).0, below), execute(m, statement).1),
{
    match statement {
        StmtModel::Expression { expression } => {
            lemma_over_with_task(m, below, TaskModel::Discard);
            lemma_over_with_task(m.with_task(TaskModel::Discard), below, TaskModel::Evaluate(expression));
        },
        StmtModel::Print { expression } => {
            lemma_over_with_task(m, below, TaskModel::Print);
            lemma_over_with_task(m.with_task(TaskModel::Print), below, TaskModel::Evaluate(expression));
        },
        StmtModel::Var { name, initializer } => match initializer {
            Some(e) => {
                lemma_over_with_task(m, below, TaskModel::Define(name));
                lemma_over_with_task(m.with_task(TaskModel::Define(name)), below, TaskModel::Evaluate(e));
            },
            None => {},
        },
        StmtModel::Block { statements } => {
            lemma_over_enter_block(m, below, statements);
        },
        StmtModel::If { condition, then_branch, else_branch } => {
            let branch = TaskModel::Branch {
                then_branch: *then_branch,
                else_branch: match else_branch {
                    Some(e) => Some(*e),
                    None => None,
                },
            };
            lemma_over_with_task(m, below, branch);
            lemma_over_with_task(m.with_task(branch), below, TaskModel::Evaluate(condition));
        },
        StmtModel::While { condition, body } => {
            let repeat = TaskModel::Repeat { condition, body: *body };
            lemma_over_with_task(m, below, repeat);
            lemma_over_with_task(m.with_task(repeat), below, TaskModel::Evaluate(condition));
        },
        StmtModel::Function { name, params, body } => {},
        StmtModel::Return { keyword, value } => match value {
            Some(e) => {
                lemma_over_with_task(m, below, TaskModel::Return);
                lemma_over_with_task(m.with_task(TaskModel::Return), below, TaskModel::Evaluate(e));
            },
            None => {
                lemma_over_unwind(m, below, ValueModel::Nil);
            },
        },
    }
}

/// Beginning an expression does not touch what lies below.
pub proof fn lemma_over_evaluate(m: MachineModel, below: Seq<TaskModel>, expression: ExprModel)
    requires
        !(evaluate(m, expression).1 is Finished),
    ensures
        evaluate(over(m, below), expression) == (
            over(evaluate(m, expression).0, below),
            evaluate(m, expression).1,
        ),
{
    match expression {
        ExprModel::Literal { value } => {},
        ExprModel::Grouping { expression } => {
            lemma_over_with_task(m, below, TaskModel::Evaluate(*expression));
        },
        ExprModel::Unary { operator, right } => {
            lemma_over_with_task(m, below, TaskModel::Unary(operator));
            lemma_over_with_task(m.with_task(TaskModel::Unary(operator)), below, TaskModel::Evaluate(*right));
        },
        ExprModel::Binary { left, operator, right } => {
            let next = TaskModel::BinaryRight { operator, right: *right };
            lemma_over_with_task(m, below, next);
            lemma_over_with_task(m.with_task(next), below, TaskModel::Evaluate(*left));
        },
        ExprModel::Logical { left, operator, right } => {
            let next = TaskModel::Logical { operator, right: *right };
            lemma_over_with_task(m, below, next);
            lemma_over_with_task(m.with_task(next), below, TaskModel::Evaluate(*left));
        },
        ExprModel::Variable { name } => {},
        ExprModel::Assign { name, value } => {
            lemma_over_with_task(m, below, TaskModel::Assign(name));
            lemma_over_with_task(m.with_task(TaskModel::Assign(name)), below, TaskModel::Evaluate(*value));
        },
        ExprModel::Call { callee, paren, arguments } => {
            let next = TaskModel::Arguments { paren, callee: None, done: Seq::empty(), rest: arguments };
            lemma_over_with_task(m, below, next);
            lemma_over_with_task(m.with_task(next), below, TaskModel::Evaluate(*callee));
        },
    }
}

/// Showing and joining values does not touch what lies below.
pub proof fn lemma_over_shown(m: MachineModel, below: Seq<TaskModel>, text: Seq<char>, value: ValueModel)
    ensures
        print(over(m, below), value) == (over(print(m, value).0, below), print(m, value).1),
        append(over(m, below), text, value) == (over(append(m, text, value).0, below), append(m, text, value).1),
        prepend(over(m, below), value, text) == (
            over(prepend(m, value, text).0, below),
            prepend(m, value, text).1,
        ),
{
    lemma_over_with_task(m, below, TaskModel::Print);
    lemma_over_with_task(m, below, TaskModel::Append(text));
    lemma_over_with_task(m, below, TaskModel::Prepend(text));
}

/// Applying a binary operator does not touch what lies below.
pub proof fn lemma_over_apply_binary(
    m: MachineModel,
    below: Seq<TaskModel>,
    operator: TokenModel,
    left: ValueModel,
    right: ValueModel,
)
    requires
        !(apply_binary(m, operator, left, right).1 is Finished),
    ensures
        apply_binary(over(m, below), operator, left, right) == (
            over(apply_binary(m, operator, left, right).0, below),
            apply_binary(m, operator, left, right).1,
        ),
{
    match crate::semantics::combine(operator.token_type, left, right) {
        Combination::Append(text, value) => {
            lemma_over_shown(m, below, text, value);
        },
        Combination::Prepend(value, text) => {
            lemma_over_shown(m, below, text, value);
        },
        _ => {},
    }
}

/// Making a call does not touch what lies below.
pub proof fn lemma_over_invoke(
    m: MachineModel,
    below: Seq<TaskModel>,
    paren: TokenModel,
    callee: ValueModel,
    done: Seq<ValueModel>,
)
    requires
        !(invoke(m, paren, callee, done).1 is Finished),
    ensures
        invoke(over(m, below), paren, callee, done) == (
            over(invoke(m, paren, callee, done).0, below),
            invoke(m, paren, callee, done).1,
        ),
{
    match callee {
        ValueModel::Function(f) => {
            lemma_over_enter_call(m, below, f, done);
        },
        _ => {},
    }
}

/// Going on with a call does not touch what lies below.
pub proof fn lemma_over_gather(
    m: MachineModel,
    below: Seq<TaskModel>,
    paren: TokenModel,
    callee: Option<ValueModel>,
    done: Seq<ValueModel>,
    rest: Seq<ExprModel>,
    value: ValueModel,
)
    requires
        !(gather(m, paren, callee, done, rest, value).1 is Finished),
    ensures
        gather(over(m, below), paren, callee, done, rest, value) == (
            over(gather(m, paren, callee, done, rest, value).0, below),
            gather(m, paren, callee, done, rest, value).1,
        ),
{
    let target = match callee {
        Some(c) => c,
        None => value,
    };
    let ready = match callee {
        Some(_) => done.push(value),
        None => done,
    };
    if rest.len() == 0 {
        lemma_over_invoke(m, below, paren, target, ready);
    } else {
        let next = TaskModel::Arguments { paren, callee: Some(target), done: ready, rest: rest.skip(1) };
        lemma_over_with_task(m, below, next);
        lemma_over_with_task(m.with_task(next), below, TaskModel::Evaluate(rest[0]));
    }
}

/// Doing a task does not touch what lies below, unless it ends the run.
pub proof fn lemma_over_perform(m: MachineModel, below: Seq<TaskModel>, task: TaskModel)
    requires
        !(perform(m, task).1 is Finished),
    ensures
        perform(over(m, below), task) == (over(perform(m, task).0, below), perform(m, task).1),
{
    match task {
        TaskModel::Execute(statement) => {
            lemma_over_execute(m, below, statement);
        },
        TaskModel::Leave(outer) => {},
        TaskModel::EndCall(caller) => {},
        TaskModel::Evaluate(expression) => {
            lemma_over_evaluate(m, below, expression);
        },
        TaskModel::Discard => {},
        TaskModel::Print => {
            lemma_over_shown(m.emptied(), below, Seq::empty(), m.held());
        },
        TaskModel::Define(name) => {},
        TaskModel::Branch { then_branch, else_branch } => {
            lemma_over_with_task(m.emptied(), below, TaskModel::Execute(then_branch));
            match else_branch {
                Some(e) => {
                    lemma_over_with_task(m.emptied(), below, TaskModel::Execute(e));
                },
                None => {},
            }
        },
        TaskModel::Repeat { condition, body } => {
            let again = TaskModel::Execute(StmtModel::While { condition, body: Box::new(body) });
            lemma_over_with_task(m.emptied(), below, again);
            lemma_over_with_task(m.emptied().with_task(again), below, TaskModel::Execute(body));
        },
        TaskModel::Return => {
            lemma_over_unwind(m.emptied(), below, m.held());
        },
        TaskModel::Unary(operator) => {},
        TaskModel::BinaryRight { operator, right } => {
            let next = TaskModel::Binary { operator, left: m.held() };
            lemma_over_with_task(m.emptied(), below, next);
            lemma_over_with_task(m.emptied().with_task(next), below, TaskModel::Evaluate(right));
        },
        TaskModel::Binary { operator, left } => {
            lemma_over_apply_binary(m.emptied(), below, operator, left, m.held());
        },
        TaskModel::Append(left) => {
            lemma_over_shown(m.emptied(), below, left, m.held());
        },
        TaskModel::Prepend(right) => {
            lemma_over_shown(m.emptied(), below, right, m.held());
        },
        TaskModel::Logical { operator, right } => {
            lemma_over_with_task(m.emptied(), below, TaskModel::Evaluate(right));
        },
        TaskModel::Assign(name) => {},
        TaskModel::Arguments { paren, callee, done, rest } => {
            lemma_over_gather(m.emptied(), below, paren, callee, done, rest, m.held());
        },
    }
}

/// A step that does not end the run does the same on top of any tasks:
/// it asks the host the same and leaves those tasks as they were.
pub proof fn lemma_over_step(m: MachineModel, below: Seq<TaskModel>, reply: ReplyModel)
    requires
        !(step(m, reply).1 is Finished),
    ensures
        step(over(m, below), reply) == (over(step(m, reply).0, below), step(m, reply).1),
{
    let ready = m.settled(reply);
    assert(over(m, below).settled(reply) == over(ready, below));
    lemma_over_without_task(ready, below);
    lemma_over_perform(ready.without_task(), below, ready.tasks.last());
}

/// A run that no step ends does the same on top of any tasks: it comes to
/// the same machine, asks the host the same, and leaves those tasks as
/// they were.
pub proof fn lemma_over_run(m: MachineModel, below: Seq<TaskModel>, replies: Seq<ReplyModel>)
    requires
        goes_on(m, replies),
    ensures
        goes_on(over(m, below), replies),
        run(over(m, below), replies) == over(run(m, replies), below),
        asked(over(m, below), replies) == asked(m, replies),
    decreases replies.len(),
{
    if replies.len() > 0 {
        lemma_over_step(m, below, replies[0]);
        lemma_over_run(step(m, replies[0]).0, below, replies.skip(1));
    }
}

/// Runs join: the steps of a first run and then those of a second are the
/// steps of one run.
pub proof fn lemma_run_joins(m: MachineModel, first: Seq<ReplyModel>, second: Seq<ReplyModel>)
    ensures
        run(m, first + second) == run(run(m, first), second),
        asked(m, first + second) == asked(m, first) + asked(run(m, first), second),
        goes_on(m, first + second) == (goes_on(m, first) && goes_on(run(m, first), second)),
    decreases first.len(),
{
    if first.len() == 0 {
        assert(first + second =~= second);
        assert(asked(m, first) + asked(run(m, first), second) =~= asked(m, second));
    } else {
        let next = step(m, first[0]).0;
        assert((first + second).skip(1) =~= first.skip(1) + second);
        assert((first + second)[0] == first[0]);
        lemma_run_joins(next, first.skip(1), second);
        assert(asked(m, first + second) =~= asked(m, first) + asked(run(m, first), second));
    }
}

} // verus!
