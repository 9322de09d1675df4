//! Programs of declarations and assignments.
//!
//! In a program that only declares variables and assigns to them, every
//! variable ends with the value that was given to it last. The right
//! sides may be any expressions that evaluate, with whatever the host
//! answers, as long as evaluating them changes what no variable reads as:
//! a right side that itself assigns to a variable gives that variable a
//! value out of the order of the statements. This is shown here of the
//! machine itself: of what its steps do to such a program, one statement
//! after the other.

use vstd::prelude::*;
use crate::environment::{
    bind, lemma_assign_then_lookup, lemma_bind_keeps_others, lemma_define_then_lookup, lookup,
    resolve,
};
use crate::evaluation::{
    alone, assignment, evaluated, evaluates, lemma_assignment, lemma_declaration,
    lemma_literal_evaluates, lemma_variable_evaluates, once, twice,
};
use crate::expr::ExprModel;
use crate::frame::{goes_on, lemma_run_joins, run};
use crate::semantics::{literal_value, Awaiting, MachineModel, ReplyModel, TaskModel};
use crate::stmt::StmtModel;
use crate::token::{LiteralModel, TokenModel};
use crate::value::ValueModel;

verus! {

/// A simple statement, `var NAME = E;` or `NAME = E;`, together with the
/// answers that the host gives while `E` is evaluated.
pub enum Simple {
    Declare { name: TokenModel, value: ExprModel, replies: Seq<ReplyModel> },
    Assign { name: TokenModel, value: ExprModel, replies: Seq<ReplyModel> },
}

impl Simple {
    /// The variable that the statement gives a value to.
    pub open spec fn target(self) -> Seq<char> {
        match self {
            Simple::Declare { name, .. } => name.lexeme,
            Simple::Assign { name, .. } => name.lexeme,
        }
    }

    /// The right side of the statement.
    pub open spec fn source(self) -> ExprModel {
        match self {
            Simple::Declare { value, .. } => value,
            Simple::Assign { value, .. } => value,
        }
    }

    /// The answers of the host while the right side is evaluated.
    pub open spec fn replies(self) -> Seq<ReplyModel> {
        match self {
            Simple::Declare { replies, .. } => replies,
            Simple::Assign { replies, .. } => replies,
        }
    }

    /// The statement that this is.
    pub open spec fn statement(self) -> StmtModel {
        match self {
            Simple::Declare { name, value, .. } => StmtModel::Var { name, initializer: Some(value) },
            Simple::Assign { name, value, .. } => assignment(name, value),
        }
    }

    /// The answers of the host to all steps of the statement.
    pub open spec fn answers(self) -> Seq<ReplyModel> {
        match self {
            Simple::Declare { replies, .. } => once() + replies + once(),
            Simple::Assign { replies, .. } => twice() + replies + twice(),
        }
    }

    /// The value that the right side has in the state of `m`.
    pub open spec fn given(self, m: MachineModel) -> ValueModel {
        run(alone(m, self.source()), self.replies()).register->Some_0
    }

    /// The machine `m` after the right side was evaluated.
    pub open spec fn before_binding(self, m: MachineModel) -> MachineModel {
        evaluated(m, self.source(), self.replies())
    }

    /// Whether the statement runs without error in the state of `m`: its
    /// right side evaluates, in the same scope afterwards and without a
    /// change to what any variable reads as, and a name assigned to is
    /// bound.
    pub open spec fn allowed(self, m: MachineModel) -> bool {
        let after = self.before_binding(m);
        &&& evaluates(m, self.source(), self.replies(), self.given(m))
        &&& after.environment == m.environment
        &&& after.environment < after.frames.len()
        &&& forall|name: Seq<char>| #[trigger]
            lookup(after.frames, after.environment, name) == lookup(m.frames, m.environment, name)
        &&& self is Assign ==> resolve(after.frames, after.environment, self.target()) is Some
    }

    /// The frame that the statement writes to.
    pub open spec fn frame(self, m: MachineModel) -> nat {
        let after = self.before_binding(m);
        match self {
            Simple::Declare { .. } => after.environment,
            Simple::Assign { name, .. } => resolve(after.frames, after.environment, name.lexeme)->Some_0,
        }
    }

    /// The machine `m` after the statement has run.
    pub open spec fn effect(self, m: MachineModel) -> MachineModel {
        let after = self.before_binding(m);
        MachineModel {
            frames: bind(after.frames, self.frame(m), self.target(), self.given(m)),
            register: None,
            ..after
        }
    }
}

/// The statements of a simple program.
pub open spec fn statements(program: Seq<Simple>) -> Seq<StmtModel> {
    program.map_values(|s: Simple| s.statement())
}

/// The answers of the host to all steps of the program.
pub open spec fn answers(program: Seq<Simple>) -> Seq<ReplyModel>
    decreases program.len(),
{
    if program.len() == 0 {
        Seq::empty()
    } else {
        program[0].answers() + answers(program.skip(1))
    }
}

/// Whether every statement of the program runs without error, one after
/// the other, from the state of `m`.
pub open spec fn runs(program: Seq<Simple>, m: MachineModel) -> bool
    decreases program.len(),
{
    if program.len() == 0 {
        true
    } else {
        program[0].allowed(m) && runs(program.skip(1), program[0].effect(m))
    }
}

/// The machine `m` after the program has run.
pub open spec fn outcome(program: Seq<Simple>, m: MachineModel) -> MachineModel
    decreases program.len(),
{
    if program.len() == 0 {
        m
    } else {
        outcome(program.skip(1), program[0].effect(m))
    }
}

/// The value that the program gives to `name` last, if it gives it any.
pub open spec fn last_given(program: Seq<Simple>, m: MachineModel, name: Seq<char>) -> Option<ValueModel>
    decreases program.len(),
{
    if program.len() == 0 {
        None
    } else {
        match last_given(program.skip(1), program[0].effect(m), name) {
            Some(v) => Some(v),
            None => if program[0].target() == name {
                Some(program[0].given(m))
            } else {
                None
            },
        }
    }
}

/// Of the statements scheduled, the first is on top.
pub proof fn lemma_first_is_on_top(m: MachineModel, list: Seq<StmtModel>)
    requires
        list.len() > 0,
    ensures
        m.scheduled(list) == m.scheduled(list.skip(1)).with_task(TaskModel::Execute(list[0])),
    decreases list.len(),
{
    let below = m.with_task(TaskModel::Execute(list.last()));
    assert(m.scheduled(list) == below.scheduled(list.drop_last()));
    if list.len() == 1 {
        assert(list.drop_last().len() == 0);
        assert(list.skip(1).len() == 0);
        assert(below.scheduled(list.drop_last()) == below);
        assert(m.scheduled(list.skip(1)) == m);
    } else {
        lemma_first_is_on_top(below, list.drop_last());
        assert(list.drop_last().skip(1) =~= list.skip(1).drop_last());
        assert(list.drop_last()[0] == list[0]);
        assert(list.skip(1).last() == list.last());
        assert(m.scheduled(list.skip(1)) == below.scheduled(list.skip(1).drop_last()));
    }
}

/// Scheduling touches the tasks only, and does the same to them whatever
/// the frames are.
pub proof fn lemma_scheduled_keeps_rest(m: MachineModel, other: MachineModel, list: Seq<StmtModel>)
    requires
        other.tasks == m.tasks,
    ensures
        m.scheduled(list) == (MachineModel { tasks: m.scheduled(list).tasks, ..m }),
        other.scheduled(list).tasks == m.scheduled(list).tasks,
    decreases list.len(),
{
    if list.len() > 0 {
        lemma_scheduled_keeps_rest(
            m.with_task(TaskModel::Execute(list.last())),
            other.with_task(TaskModel::Execute(list.last())),
            list.drop_last(),
        );
    }
}

/// One simple statement on top of the tasks runs with its answers to its
/// end, and leaves the tasks below as they were.
pub proof fn lemma_simple_statement_runs(m: MachineModel, below: MachineModel, statement: Simple)
    requires
        m.register is None,
        m.awaiting == Awaiting::Nothing,
        statement.allowed(m),
        below == (MachineModel { tasks: below.tasks, ..m }),
    ensures
        goes_on(below.with_task(TaskModel::Execute(statement.statement())), statement.answers()),
        run(below.with_task(TaskModel::Execute(statement.statement())), statement.answers()) == (
        MachineModel { tasks: below.tasks, ..statement.effect(m) }),
{
    let e = statement.source();
    let rs = statement.replies();
    let v = statement.given(m);
    assert(alone(below, e) == alone(m, e));
    assert(evaluated(below, e, rs) == (MachineModel { tasks: below.tasks, ..evaluated(m, e, rs) }));
    match statement {
        Simple::Declare { name, value, replies } => {
            lemma_declaration(below, name, e, rs, v);
        },
        Simple::Assign { name, value, replies } => {
            lemma_assignment(below, name, e, rs, v);
        },
    }
}

/// A simple program that is scheduled runs with its answers to its end,
/// and leaves the tasks as they were before the program was scheduled.
pub proof fn lemma_program_runs(m: MachineModel, program: Seq<Simple>)
    requires
        m.register is None,
        m.awaiting == Awaiting::Nothing,
        runs(program, m),
    ensures
        goes_on(m.scheduled(statements(program)), answers(program)),
        run(m.scheduled(statements(program)), answers(program)) == outcome(program, m),
    decreases program.len(),
{
    if program.len() > 0 {
        let list = statements(program);
        let first = program[0];
        let rest = program.skip(1);
        assert(list.skip(1) =~= statements(rest));
        assert(list[0] == first.statement());
        lemma_first_is_on_top(m, list);
        let waiting = m.scheduled(statements(rest));
        let next = first.effect(m);
        lemma_scheduled_keeps_rest(m, next, statements(rest));
        lemma_scheduled_keeps_rest(next, m, statements(rest));
        lemma_simple_statement_runs(m, waiting, first);
        assert(run(m.scheduled(list), first.answers()) == next.scheduled(statements(rest)));
        lemma_program_runs(next, rest);
        lemma_run_joins(m.scheduled(list), first.answers(), answers(rest));
    }
}

/// After a simple program every variable reads as the value that the
/// program gave to it last, and a variable that the program gave no value
/// reads as it did before.
pub proof fn lemma_last_value_is_read(program: Seq<Simple>, m: MachineModel, name: Seq<char>)
    requires
        runs(program, m),
    ensures
        outcome(program, m).environment == m.environment,
        outcome(program, m).tasks == m.tasks,
        program.len() > 0 ==> outcome(program, m).register is None,
        lookup(outcome(program, m).frames, m.environment, name) == match last_given(program, m, name) {
            Some(v) => Some(v),
            None => lookup(m.frames, m.environment, name),
        },
    decreases program.len(),
{
    if program.len() > 0 {
        let first = program[0];
        let before = first.before_binding(m);
        lemma_last_value_is_read(program.skip(1), first.effect(m), name);
        assert(lookup(before.frames, before.environment, name) == lookup(m.frames, m.environment, name));
        if first.target() == name {
            match first {
                Simple::Declare { .. } => {
                    lemma_define_then_lookup(before.frames, before.environment, name, first.given(m));
                },
                Simple::Assign { .. } => {
                    lemma_assign_then_lookup(before.frames, before.environment, name, first.given(m));
                },
            }
        } else {
            lemma_bind_keeps_others(
                before.frames,
                first.frame(m),
                first.target(),
                first.given(m),
                before.environment,
                name,
            );
        }
    }
}

/// In a program that only declares variables and assigns to them, every
/// variable ends with the value given to it last: the machine runs the
/// program to its end, and then each variable that the program gave a
/// value reads as the last of them.
pub proof fn lemma_final_value_is_last_assigned(m: MachineModel, program: Seq<Simple>, name: Seq<char>)
    requires
        m.register is None,
        m.awaiting == Awaiting::Nothing,
        runs(program, m),
        last_given(program, m, name) is Some,
    ensures
        ({
            let end = run(m.scheduled(statements(program)), answers(program));
            &&& goes_on(m.scheduled(statements(program)), answers(program))
            &&& end.tasks == m.tasks
            &&& end.environment == m.environment
            &&& end.register is None
            &&& lookup(end.frames, end.environment, name) == last_given(program, m, name)
        }),
{
    lemma_program_runs(m, program);
    lemma_last_value_is_read(program, m, name);
}

/// A literal on the right side is allowed wherever the scope in force is
/// a frame and, for an assignment, the name is bound; the value given is
/// the value of the literal.
pub proof fn lemma_literal_is_allowed(m: MachineModel, name: TokenModel, value: Option<LiteralModel>)
    requires
        m.register is None,
        m.awaiting == Awaiting::Nothing,
        m.environment < m.frames.len(),
    ensures
        (Simple::Declare { name, value: ExprModel::Literal { value }, replies: once() }).allowed(m),
        (Simple::Declare { name, value: ExprModel::Literal { value }, replies: once() }).given(m)
            == literal_value(value),
        resolve(m.frames, m.environment, name.lexeme) is Some ==> (Simple::Assign {
            name,
            value: ExprModel::Literal { value },
            replies: once(),
        }).allowed(m),
{
    lemma_literal_evaluates(m, value);
}

/// A variable on the right side is allowed wherever it is bound, the
/// scope in force is a frame and, for an assignment, the name is bound;
/// the value given is what the variable reads as.
pub proof fn lemma_variable_is_allowed(m: MachineModel, name: TokenModel, from: TokenModel)
    requires
        m.register is None,
        m.awaiting == Awaiting::Nothing,
        m.environment < m.frames.len(),
        lookup(m.frames, m.environment, from.lexeme) is Some,
    ensures
        (Simple::Declare { name, value: ExprModel::Variable { name: from }, replies: once() }).allowed(m),
        (Simple::Declare { name, value: ExprModel::Variable { name: from }, replies: once() }).given(m)
            == lookup(m.frames, m.environment, from.lexeme)->Some_0,
        resolve(m.frames, m.environment, name.lexeme) is Some ==> (Simple::Assign {
            name,
            value: ExprModel::Variable { name: from },
            replies: once(),
        }).allowed(m),
{
    lemma_variable_evaluates(m, from);
}

} // verus!
