//! The register is never read empty.
//!
//! A task either takes the value in the register or expects the register
//! to be empty, and either leaves a value behind or does not. A machine is
//! orderly when its tasks fit each other: whatever is on top finds the
//! register as it expects it, and leaves it as the task below expects it.
//! A fresh machine is orderly, beginning a run makes a machine orderly,
//! and every step keeps it so.

use vstd::prelude::*;
use crate::function::FunctionModel;
use crate::semantics::{
    append, enter_block, enter_call, evaluate, execute, invoke, perform, prepend, print, step,
    unwind, Awaiting, Combination, MachineModel, ReplyModel, TaskModel,
};
use crate::stmt::StmtModel;
use crate::token::TokenModel;
use crate::value::ValueModel;

verus! {

impl TaskModel {
    /// Whether the task takes the value in the register.
    pub open spec fn takes(self) -> bool {
        match self {
            TaskModel::Execute(_) => false,
            TaskModel::Leave(_) => false,
            TaskModel::EndCall(_) => false,
            TaskModel::Evaluate(_) => false,
            _ => true,
        }
    }

    /// Whether the task leaves a value in the register for the task below
    /// it, once it and all that it schedules is done.
    pub open spec fn gives(self) -> bool {
        match self {
            TaskModel::Execute(_) => false,
            TaskModel::Leave(_) => false,
            TaskModel::Discard => false,
            TaskModel::Print => false,
            TaskModel::Define(_) => false,
            TaskModel::Branch { .. } => false,
            TaskModel::Repeat { .. } => false,
            TaskModel::Return => false,
            _ => true,
        }
    }
}

/// Whether the tasks fit each other and a register that is full or not:
/// the top task takes a value exactly if there is one, and what it leaves
/// is what the tasks below it fit.
pub open spec fn fitting(tasks: Seq<TaskModel>, full: bool) -> bool
    decreases tasks.len(),
{
    if tasks.len() == 0 {
        !full
    } else {
        tasks.last().takes() == full && fitting(tasks.drop_last(), tasks.last().gives())
    }
}

impl MachineModel {
    /// Whether a value is in the register or on its way there.
    pub open spec fn full(self) -> bool {
        self.register is Some || self.awaiting != Awaiting::Nothing
    }

    /// Whether the tasks fit each other and the register, and no answer
    /// is awaited while the register is full.
    pub open spec fn orderly(self) -> bool {
        &&& fitting(self.tasks, self.full())
        &&& !(self.register is Some && self.awaiting != Awaiting::Nothing)
    }
}

/// Tasks with one more on top fit if the top one finds the register as it
/// expects it and leaves what the others fit.
pub proof fn lemma_fitting_push(tasks: Seq<TaskModel>, top: TaskModel, full: bool)
    ensures
        fitting(tasks.push(top), full) == (top.takes() == full && fitting(tasks, top.gives())),
{
    assert(tasks.push(top).drop_last() =~= tasks);
}

/// Scheduling statements on tasks that fit an empty register gives tasks
/// that fit an empty register.
pub proof fn lemma_scheduled_fits(m: MachineModel, statements: Seq<StmtModel>)
    requires
        fitting(m.tasks, false),
    ensures
        fitting(m.scheduled(statements).tasks, false),
        m.scheduled(statements).register == m.register,
        m.scheduled(statements).awaiting == m.awaiting,
    decreases statements.len(),
{
    if statements.len() > 0 {
        let next = m.with_task(TaskModel::Execute(statements.last()));
        lemma_fitting_push(m.tasks, TaskModel::Execute(statements.last()), false);
        lemma_scheduled_fits(next, statements.drop_last());
    }
}

/// Binding names changes the frames and nothing else.
pub proof fn lemma_bound_keeps_tasks(m: MachineModel, names: Seq<TokenModel>, values: Seq<ValueModel>)
    ensures
        m.bound(names, values).tasks == m.tasks,
        m.bound(names, values).register == m.register,
        m.bound(names, values).awaiting == m.awaiting,
    decreases names.len(),
{
    if names.len() > 0 && values.len() > 0 {
        let next = MachineModel {
            frames: crate::environment::bind(m.frames, m.environment, names[0].lexeme, values[0]),
            ..m
        };
        lemma_bound_keeps_tasks(next, names.skip(1), values.skip(1));
    }
}

/// Leaving a function keeps the machine orderly: the value goes to the
/// task below the end of the call, which takes it.
pub proof fn lemma_unwind_keeps_order(m: MachineModel, value: ValueModel, full: bool)
    requires
        fitting(m.tasks, full),
        m.awaiting == Awaiting::Nothing,
    ensures
        unwind(m, value).0.orderly(),
    decreases m.tasks.len(),
{
    if m.tasks.len() > 0 {
        match m.tasks.last() {
            TaskModel::EndCall(_) => {},
            _ => {
                lemma_unwind_keeps_order(m.without_task(), value, m.tasks.last().gives());
            },
        }
    }
}

/// Entering a block keeps the machine orderly.
pub proof fn lemma_enter_block_keeps_order(m: MachineModel, statements: Seq<StmtModel>)
    requires
        m.orderly(),
        !m.full(),
    ensures
        enter_block(m, statements).orderly(),
        !enter_block(m, statements).full(),
{
    let inside = MachineModel {
        frames: m.frames.push(
            crate::environment::FrameModel { enclosing: Some(m.environment), values: Map::empty() },
        ),
        environment: m.frames.len(),
        ..m
    };
    lemma_fitting_push(inside.tasks, TaskModel::Leave(m.environment), false);
    lemma_scheduled_fits(inside.with_task(TaskModel::Leave(m.environment)), statements);
}

/// Entering a function keeps the machine orderly where the task below
/// takes the value of the call.
pub proof fn lemma_enter_call_keeps_order(m: MachineModel, function: FunctionModel, arguments: Seq<ValueModel>)
    requires
        fitting(m.tasks, true),
        m.register is None,
        m.awaiting == Awaiting::Nothing,
    ensures
        enter_call(m, function, arguments).orderly(),
{
    let inside = MachineModel {
        frames: m.frames.push(
            crate::environment::FrameModel { enclosing: Some(function.closure), values: Map::empty() },
        ),
        environment: m.frames.len(),
        ..m
    };
    lemma_bound_keeps_tasks(inside, function.declaration.params, arguments);
    let bound = inside.bound(function.declaration.params, arguments);
    lemma_fitting_push(bound.tasks, TaskModel::EndCall(m.environment), false);
    lemma_scheduled_fits(bound.with_task(TaskModel::EndCall(m.environment)), function.declaration.body);
}

/// Beginning a statement keeps the machine orderly.
pub proof fn lemma_execute_keeps_order(m: MachineModel, statement: StmtModel)
    requires
        fitting(m.tasks, false),
        m.register is None,
        m.awaiting == Awaiting::Nothing,
    ensures
        execute(m, statement).0.orderly(),
{
    match statement {
        StmtModel::Expression { expression } => {
            lemma_fitting_push(m.tasks, TaskModel::Discard, true);
            lemma_fitting_push(m.with_task(TaskModel::Discard).tasks, TaskModel::Evaluate(expression), false);
        },
        StmtModel::Print { expression } => {
            lemma_fitting_push(m.tasks, TaskModel::Print, true);
            lemma_fitting_push(m.with_task(TaskModel::Print).tasks, TaskModel::Evaluate(expression), false);
        },
        StmtModel::Var { name, initializer } => match initializer {
            Some(e) => {
                lemma_fitting_push(m.tasks, TaskModel::Define(name), true);
                lemma_fitting_push(m.with_task(TaskModel::Define(name)).tasks, TaskModel::Evaluate(e), false);
            },
            None => {},
        },
        StmtModel::Block { statements } => {
            lemma_enter_block_keeps_order(m, statements);
        },
        StmtModel::If { condition, then_branch, else_branch } => {
            let branch = TaskModel::Branch {
                then_branch: *then_branch,
                else_branch: match else_branch {
                    Some(e) => Some(*e),
                    None => None,
                },
            };
            lemma_fitting_push(m.tasks, branch, true);
            lemma_fitting_push(m.with_task(branch).tasks, TaskModel::Evaluate(condition), false);
        },
        StmtModel::While { condition, body } => {
            let repeat = TaskModel::Repeat { condition, body: *body };
            lemma_fitting_push(m.tasks, repeat, true);
            lemma_fitting_push(m.with_task(repeat).tasks, TaskModel::Evaluate(condition), false);
        },
        StmtModel::Function { name, params, body } => {},
        StmtModel::Return { keyword, value } => match value {
            Some(e) => {
                lemma_fitting_push(m.tasks, TaskModel::Return, true);
                lemma_fitting_push(m.with_task(TaskModel::Return).tasks, TaskModel::Evaluate(e), false);
            },
            None => {
                lemma_unwind_keeps_order(m, ValueModel::Nil, false);
            },
        },
    }
}

/// Beginning an expression keeps the machine orderly.
pub proof fn lemma_evaluate_keeps_order(m: MachineModel, expression: crate::expr::ExprModel)
    requires
        fitting(m.tasks, true),
        m.register is None,
        m.awaiting == Awaiting::Nothing,
    ensures
        evaluate(m, expression).0.orderly(),
{
    match expression {
        crate::expr::ExprModel::Literal { value } => {},
        crate::expr::ExprModel::Grouping { expression } => {
            lemma_fitting_push(m.tasks, TaskModel::Evaluate(*expression), false);
        },
        crate::expr::ExprModel::Unary { operator, right } => {
            lemma_fitting_push(m.tasks, TaskModel::Unary(operator), true);
            lemma_fitting_push(m.with_task(TaskModel::Unary(operator)).tasks, TaskModel::Evaluate(*right), false);
        },
        crate::expr::ExprModel::Binary { left, operator, right } => {
            let next = TaskModel::BinaryRight { operator, right: *right };
            lemma_fitting_push(m.tasks, next, true);
            lemma_fitting_push(m.with_task(next).tasks, TaskModel::Evaluate(*left), false);
        },
        crate::expr::ExprModel::Logical { left, operator, right } => {
            let next = TaskModel::Logical { operator, right: *right };
            lemma_fitting_push(m.tasks, next, true);
            lemma_fitting_push(m.with_task(next).tasks, TaskModel::Evaluate(*left), false);
        },
        crate::expr::ExprModel::Variable { name } => {},
        crate::expr::ExprModel::Assign { name, value } => {
            lemma_fitting_push(m.tasks, TaskModel::Assign(name), true);
            lemma_fitting_push(m.with_task(TaskModel::Assign(name)).tasks, TaskModel::Evaluate(*value), false);
        },
        crate::expr::ExprModel::Call { callee, paren, arguments } => {
            let next = TaskModel::Arguments { paren, callee: None, done: Seq::empty(), rest: arguments };
            lemma_fitting_push(m.tasks, next, true);
            lemma_fitting_push(m.with_task(next).tasks, TaskModel::Evaluate(*callee), false);
        },
    }
}

/// Showing a value keeps the machine orderly.
pub proof fn lemma_print_keeps_order(m: MachineModel, value: ValueModel)
    requires
        fitting(m.tasks, false),
        m.register is None,
        m.awaiting == Awaiting::Nothing,
    ensures
        print(m, value).0.orderly(),
{
    lemma_fitting_push(m.tasks, TaskModel::Print, true);
}

/// Joining a text and a value keeps the machine orderly.
pub proof fn lemma_join_keeps_order(m: MachineModel, text: Seq<char>, value: ValueModel)
    requires
        fitting(m.tasks, true),
        m.register is None,
        m.awaiting == Awaiting::Nothing,
    ensures
        append(m, text, value).0.orderly(),
        prepend(m, value, text).0.orderly(),
{
    lemma_fitting_push(m.tasks, TaskModel::Append(text), true);
    lemma_fitting_push(m.tasks, TaskModel::Prepend(text), true);
}

/// Making a call keeps the machine orderly.
pub proof fn lemma_invoke_keeps_order(m: MachineModel, paren: TokenModel, callee: ValueModel, done: Seq<ValueModel>)
    requires
        fitting(m.tasks, true),
        m.register is None,
        m.awaiting == Awaiting::Nothing,
    ensures
        invoke(m, paren, callee, done).0.orderly(),
{
    match callee {
        ValueModel::Function(f) => {
            lemma_enter_call_keeps_order(m, f, done);
        },
        _ => {},
    }
}

/// Doing a task keeps the machine orderly.
pub proof fn lemma_perform_keeps_order(m: MachineModel, task: TaskModel)
    requires
        fitting(m.tasks.push(task), m.register is Some),
        m.awaiting == Awaiting::Nothing,
    ensures
        perform(m, task).0.orderly(),
{
    lemma_fitting_push(m.tasks, task, m.register is Some);
    match task {
        TaskModel::Execute(statement) => {
            lemma_execute_keeps_order(m, statement);
        },
        TaskModel::Leave(outer) => {},
        TaskModel::EndCall(caller) => {},
        TaskModel::Evaluate(expression) => {
            lemma_evaluate_keeps_order(m, expression);
        },
        TaskModel::Discard => {},
        TaskModel::Print => {
            lemma_print_keeps_order(m.emptied(), m.held());
        },
        TaskModel::Define(name) => {},
        TaskModel::Branch { then_branch, else_branch } => {
            lemma_fitting_push(m.tasks, TaskModel::Execute(then_branch), false);
            match else_branch {
                Some(e) => {
                    lemma_fitting_push(m.tasks, TaskModel::Execute(e), false);
                },
                None => {},
            }
        },
        TaskModel::Repeat { condition, body } => {
            let again = TaskModel::Execute(StmtModel::While { condition, body: Box::new(body) });
            lemma_fitting_push(m.tasks, again, false);
            lemma_fitting_push(m.emptied().with_task(again).tasks, TaskModel::Execute(body), false);
        },
        TaskModel::Return => {
            lemma_unwind_keeps_order(m.emptied(), m.held(), false);
        },
        TaskModel::Unary(operator) => {},
        TaskModel::BinaryRight { operator, right } => {
            let next = TaskModel::Binary { operator, left: m.held() };
            lemma_fitting_push(m.tasks, next, true);
            lemma_fitting_push(m.emptied().with_task(next).tasks, TaskModel::Evaluate(right), false);
        },
        TaskModel::Binary { operator, left } => {
            match crate::semantics::combine(operator.token_type, left, m.held()) {
                Combination::Append(text, value) => {
                    lemma_join_keeps_order(m.emptied(), text, value);
                },
                Combination::Prepend(value, text) => {
                    lemma_join_keeps_order(m.emptied(), text, value);
                },
                _ => {},
            }
        },
        TaskModel::Append(left) => {
            lemma_join_keeps_order(m.emptied(), left, m.held());
        },
        TaskModel::Prepend(right) => {
            lemma_join_keeps_order(m.emptied(), right, m.held());
        },
        TaskModel::Logical { operator, right } => {
            lemma_fitting_push(m.tasks, TaskModel::Evaluate(right), false);
        },
        TaskModel::Assign(name) => {},
        TaskModel::Arguments { paren, callee, done, rest } => {
            let value = m.held();
            let target = match callee {
                Some(c) => c,
                None => value,
            };
            let ready = match callee {
                Some(_) => done.push(value),
                None => done,
            };
            if rest.len() == 0 {
                lemma_invoke_keeps_order(m.emptied(), paren, target, ready);
            } else {
                let next = TaskModel::Arguments { paren, callee: Some(target), done: ready, rest: rest.skip(1) };
                lemma_fitting_push(m.tasks, next, true);
                lemma_fitting_push(m.emptied().with_task(next).tasks, TaskModel::Evaluate(rest[0]), false);
            }
        },
    }
}

/// A step of an orderly machine, taken with the answer that the machine
/// waits for, leaves the machine orderly; and where the top task takes a
/// value, the register holds one when the task is done.
pub proof fn lemma_step_keeps_order(m: MachineModel, reply: ReplyModel)
    requires
        m.orderly(),
        reply.answers(m.awaiting),
    ensures
        step(m, reply).0.orderly(),
        m.tasks.len() > 0 && m.tasks.last().takes() ==> m.settled(reply).register is Some,
{
    let ready = m.settled(reply);
    if ready.tasks.len() > 0 {
        assert(ready.without_task().tasks.push(ready.tasks.last()) =~= ready.tasks);
        lemma_perform_keeps_order(ready.without_task(), ready.tasks.last());
    }
}

/// A run begins with an orderly machine.
pub proof fn lemma_run_begins_orderly(m: MachineModel, statements: Seq<StmtModel>)
    ensures
        (MachineModel {
            base: m.environment,
            tasks: Seq::empty(),
            register: None,
            awaiting: Awaiting::Nothing,
            ..m
        }).scheduled(statements).orderly(),
{
    let fresh = MachineModel {
        base: m.environment,
        tasks: Seq::empty(),
        register: None,
        awaiting: Awaiting::Nothing,
        ..m
    };
    lemma_scheduled_fits(fresh, statements);
}

} // verus!
