//! What holds of expressions of any kind.
//!
//! An expression evaluates to a value where a run that begins with nothing
//! to do but to evaluate it comes, without an error, to a machine that has
//! nothing left to do and holds the value. The host's answers are part of
//! the run: they stand for every sum, numeral or time that the run asks
//! for. What is shown here holds of every expression that evaluates, with
//! whatever answers.

use vstd::prelude::*;
use crate::environment::{
    bind, lemma_assign_then_lookup, lemma_define_then_lookup, lookup, resolve, undefined_variable,
};
use crate::expr::ExprModel;
use crate::frame::{asked, goes_on, lemma_over_run, lemma_run_joins, over, run};
use crate::semantics::{
    decides, fail, literal_value, step, ActionModel, Awaiting, MachineModel, ReplyModel, TaskModel,
};
use crate::stmt::StmtModel;
use crate::token::{LiteralModel, TokenModel};
use crate::value::ValueModel;

verus! {

/// The machine in the state of `m`, with nothing to do but to evaluate
/// `expression`.
pub open spec fn alone(m: MachineModel, expression: ExprModel) -> MachineModel {
    MachineModel {
        tasks: seq![TaskModel::Evaluate(expression)],
        register: None,
        awaiting: Awaiting::Nothing,
        ..m
    }
}

/// Whether `expression` evaluates to `value` in the state of `m`, with
/// the answers `replies`: no step ends the run, and after the last one
/// nothing is left to do and the register holds the value.
pub open spec fn evaluates(
    m: MachineModel,
    expression: ExprModel,
    replies: Seq<ReplyModel>,
    value: ValueModel,
) -> bool {
    let end = run(alone(m, expression), replies);
    &&& goes_on(alone(m, expression), replies)
    &&& end.tasks.len() == 0
    &&& end.register == Some(value)
    &&& end.awaiting == Awaiting::Nothing
}

/// The machine `m` after `expression` was evaluated on top of its tasks:
/// the tasks are those of `m`, all else is as the evaluation left it.
pub open spec fn evaluated(m: MachineModel, expression: ExprModel, replies: Seq<ReplyModel>) -> MachineModel {
    MachineModel { tasks: m.tasks, ..run(alone(m, expression), replies) }
}

/// One answer of nothing.
pub open spec fn once() -> Seq<ReplyModel> {
    seq![ReplyModel::Nothing]
}

/// An expression evaluates in its place as it does alone: on top of any
/// tasks the run takes the same steps, asks the host the same and leaves
/// the tasks below as they were.
pub proof fn lemma_evaluates_in_place(
    m: MachineModel,
    expression: ExprModel,
    replies: Seq<ReplyModel>,
    value: ValueModel,
)
    requires
        m.register is None,
        m.awaiting == Awaiting::Nothing,
        evaluates(m, expression, replies, value),
    ensures
        goes_on(m.with_task(TaskModel::Evaluate(expression)), replies),
        run(m.with_task(TaskModel::Evaluate(expression)), replies) == evaluated(m, expression, replies),
        asked(m.with_task(TaskModel::Evaluate(expression)), replies) == asked(
            alone(m, expression),
            replies,
        ),
        evaluated(m, expression, replies).register == Some(value),
        evaluated(m, expression, replies).awaiting == Awaiting::Nothing,
{
    let start = alone(m, expression);
    assert(m.with_task(TaskModel::Evaluate(expression)) == over(start, m.tasks)) by {
        assert(m.tasks.push(TaskModel::Evaluate(expression)) =~= m.tasks + start.tasks);
    }
    lemma_over_run(start, m.tasks, replies);
    assert(over(run(start, replies), m.tasks) == evaluated(m, expression, replies)) by {
        assert(m.tasks + run(start, replies).tasks =~= m.tasks);
    }
}

/// A literal evaluates in one step to its value and changes nothing.
pub proof fn lemma_literal_evaluates(m: MachineModel, value: Option<LiteralModel>)
    ensures
        evaluates(m, ExprModel::Literal { value }, once(), literal_value(value)),
        evaluated(m, ExprModel::Literal { value }, once()) == (MachineModel {
            register: Some(literal_value(value)),
            awaiting: Awaiting::Nothing,
            ..m
        }),
{
    let start = alone(m, ExprModel::Literal { value });
    assert(start.tasks.drop_last() =~= Seq::<TaskModel>::empty());
    reveal_with_fuel(run, 2);
    reveal_with_fuel(goes_on, 2);
    assert(once().skip(1) =~= Seq::<ReplyModel>::empty());
}

/// A variable that some scope binds evaluates in one step to what it
/// reads as and changes nothing.
pub proof fn lemma_variable_evaluates(m: MachineModel, name: TokenModel)
    requires
        lookup(m.frames, m.environment, name.lexeme) is Some,
    ensures
        evaluates(
            m,
            ExprModel::Variable { name },
            once(),
            lookup(m.frames, m.environment, name.lexeme)->Some_0,
        ),
        evaluated(m, ExprModel::Variable { name }, once()) == (MachineModel {
            register: lookup(m.frames, m.environment, name.lexeme),
            awaiting: Awaiting::Nothing,
            ..m
        }),
{
    let start = alone(m, ExprModel::Variable { name });
    assert(start.tasks.drop_last() =~= Seq::<TaskModel>::empty());
    reveal_with_fuel(run, 2);
    reveal_with_fuel(goes_on, 2);
    assert(once().skip(1) =~= Seq::<ReplyModel>::empty());
}

/// The expression `LEFT OPERATOR RIGHT` for a logical operator.
pub open spec fn logical(left: ExprModel, operator: TokenModel, right: ExprModel) -> ExprModel {
    ExprModel::Logical { left: Box::new(left), operator, right: Box::new(right) }
}

/// `A or B` and `A and B`, for any `A` that evaluates and any `B`.
///
/// The run takes one step to begin, the steps of `A`, and one step to
/// decide. Where `A` decides (a truthy value for `or`, a falsy one for
/// `and`) the machine is then exactly as evaluating `A` alone in this
/// place left it: it holds the value of `A` itself, `B` was never
/// scheduled, and the host was asked nothing but what `A` asked.
/// Otherwise the machine is as `A` left it, but with an empty register
/// and about to evaluate `B` in the place of the whole: the value of the
/// whole is whatever `B` evaluates to.
pub proof fn lemma_logical_operator(
    m: MachineModel,
    left: ExprModel,
    operator: TokenModel,
    right: ExprModel,
    replies: Seq<ReplyModel>,
    value: ValueModel,
)
    requires
        m.register is None,
        m.awaiting == Awaiting::Nothing,
        evaluates(m, left, replies, value),
        decides(operator.token_type, value) is Some,
    ensures
        ({
            let start = m.with_task(TaskModel::Evaluate(logical(left, operator, right)));
            let all = once() + replies + once();
            let after_left = evaluated(m, left, replies);
            &&& goes_on(start, all)
            &&& asked(start, all) == seq![ActionModel::Continue] + asked(alone(m, left), replies)
                + seq![ActionModel::Continue]
            &&& after_left.register == Some(value)
            &&& decides(operator.token_type, value) == Some(true) ==> run(start, all) == after_left
            &&& decides(operator.token_type, value) == Some(false) ==> run(start, all)
                == after_left.emptied().with_task(TaskModel::Evaluate(right))
        }),
{
    let start = m.with_task(TaskModel::Evaluate(logical(left, operator, right)));
    let deciding = m.with_task(TaskModel::Logical { operator, right });
    assert(start.tasks.drop_last() =~= m.tasks);
    let first = step(start, ReplyModel::Nothing);
    assert(first.0 == deciding.with_task(TaskModel::Evaluate(left)));
    assert(alone(deciding, left) == alone(m, left));
    lemma_evaluates_in_place(deciding, left, replies, value);
    let second = evaluated(deciding, left, replies);
    assert(second.tasks.drop_last() =~= m.tasks);
    let last = step(second, ReplyModel::Nothing);
    lemma_begin_run_end(start, replies);
}

/// A run of one step, some steps and one more step, each of the two
/// answered with nothing, is the three runs one after the other.
pub proof fn lemma_begin_run_end(m: MachineModel, replies: Seq<ReplyModel>)
    ensures
        ({
            let all = once() + replies + once();
            let first = step(m, ReplyModel::Nothing);
            let middle = run(first.0, replies);
            let last = step(middle, ReplyModel::Nothing);
            &&& run(m, all) == last.0
            &&& asked(m, all) == seq![first.1] + asked(first.0, replies) + seq![last.1]
            &&& goes_on(m, all) == {
                &&& m.awaiting == Awaiting::Nothing
                &&& !(first.1 is Finished)
                &&& goes_on(first.0, replies)
                &&& middle.awaiting == Awaiting::Nothing
                &&& !(last.1 is Finished)
            }
        }),
{
    let first = step(m, ReplyModel::Nothing);
    let middle = run(first.0, replies);
    lemma_run_joins(m, once() + replies, once());
    lemma_run_joins(m, once(), replies);
    reveal_with_fuel(run, 2);
    reveal_with_fuel(goes_on, 2);
    reveal_with_fuel(asked, 2);
    assert(once().skip(1) =~= Seq::<ReplyModel>::empty());
    assert(asked(m, once()) =~= seq![first.1]);
    assert(asked(middle, once()) =~= seq![step(middle, ReplyModel::Nothing).1]);
    assert(run(m, once()) == first.0);
}

/// `var NAME = E;` for any `E` that evaluates: after one step to begin,
/// the steps of `E` and one step to bind, the name is bound to the value
/// of `E` in the scope then in force, nothing else differs from what the
/// evaluation of `E` left, and the name reads as that value.
pub proof fn lemma_declaration(
    m: MachineModel,
    name: TokenModel,
    initializer: ExprModel,
    replies: Seq<ReplyModel>,
    value: ValueModel,
)
    requires
        m.register is None,
        m.awaiting == Awaiting::Nothing,
        evaluates(m, initializer, replies, value),
        evaluated(m, initializer, replies).environment < evaluated(m, initializer, replies).frames.len(),
    ensures
        ({
            let start = m.with_task(
                TaskModel::Execute(StmtModel::Var { name, initializer: Some(initializer) }),
            );
            let all = once() + replies + once();
            let after = evaluated(m, initializer, replies);
            &&& goes_on(start, all)
            &&& asked(start, all) == seq![ActionModel::Continue] + asked(alone(m, initializer), replies)
                + seq![ActionModel::Continue]
            &&& run(start, all) == (MachineModel {
                frames: bind(after.frames, after.environment, name.lexeme, value),
                register: None,
                ..after
            })
            &&& lookup(run(start, all).frames, run(start, all).environment, name.lexeme) == Some(value)
        }),
{
    let start = m.with_task(TaskModel::Execute(StmtModel::Var { name, initializer: Some(initializer) }));
    let defining = m.with_task(TaskModel::Define(name));
    assert(start.tasks.drop_last() =~= m.tasks);
    let first = step(start, ReplyModel::Nothing);
    assert(first.0 == defining.with_task(TaskModel::Evaluate(initializer)));
    assert(alone(defining, initializer) == alone(m, initializer));
    lemma_evaluates_in_place(defining, initializer, replies, value);
    let second = evaluated(defining, initializer, replies);
    assert(second.tasks.drop_last() =~= m.tasks);
    let after = evaluated(m, initializer, replies);
    lemma_begin_run_end(start, replies);
    lemma_define_then_lookup(after.frames, after.environment, name.lexeme, value);
}

/// The statement `NAME = E;`.
pub open spec fn assignment(name: TokenModel, value: ExprModel) -> StmtModel {
    StmtModel::Expression { expression: ExprModel::Assign { name, value: Box::new(value) } }
}

/// Two answers of nothing.
pub open spec fn twice() -> Seq<ReplyModel> {
    seq![ReplyModel::Nothing, ReplyModel::Nothing]
}

/// A run of two steps, some steps and two more steps, each of the four
/// answered with nothing, is the runs one after the other.
pub proof fn lemma_begin_twice_run_end_twice(m: MachineModel, replies: Seq<ReplyModel>)
    ensures
        ({
            let all = twice() + replies + twice();
            let first = step(m, ReplyModel::Nothing);
            let second = step(first.0, ReplyModel::Nothing);
            let middle = run(second.0, replies);
            let third = step(middle, ReplyModel::Nothing);
            let last = step(third.0, ReplyModel::Nothing);
            &&& run(m, all) == last.0
            &&& asked(m, all) == seq![first.1, second.1] + asked(second.0, replies) + seq![
                third.1,
                last.1,
            ]
            &&& goes_on(m, all) == {
                &&& m.awaiting == Awaiting::Nothing
                &&& !(first.1 is Finished)
                &&& first.0.awaiting == Awaiting::Nothing
                &&& !(second.1 is Finished)
                &&& goes_on(second.0, replies)
                &&& middle.awaiting == Awaiting::Nothing
                &&& !(third.1 is Finished)
                &&& third.0.awaiting == Awaiting::Nothing
                &&& !(last.1 is Finished)
            }
        }),
{
    let first = step(m, ReplyModel::Nothing);
    let second = step(first.0, ReplyModel::Nothing);
    let middle = run(second.0, replies);
    let third = step(middle, ReplyModel::Nothing);
    lemma_begin_run_end(first.0, replies);
    let inner = once() + replies + once();
    lemma_begin_run_end(m, inner);
    assert(once() + inner + once() =~= twice() + replies + twice());
    assert(seq![first.1] + (seq![second.1] + asked(second.0, replies) + seq![third.1]) + seq![
        step(third.0, ReplyModel::Nothing).1,
    ] =~= seq![first.1, second.1] + asked(second.0, replies) + seq![
        third.1,
        step(third.0, ReplyModel::Nothing).1,
    ]);
}

/// `NAME = E;` for any `E` that evaluates, where some scope binds the
/// name once `E` is evaluated: after two steps to begin, the steps of `E`
/// and two steps to assign and to drop the value, the nearest frame that
/// binds the name holds the value of `E`, nothing else differs from what
/// the evaluation of `E` left, and the name reads as that value.
pub proof fn lemma_assignment(
    m: MachineModel,
    name: TokenModel,
    value_of: ExprModel,
    replies: Seq<ReplyModel>,
    value: ValueModel,
)
    requires
        m.register is None,
        m.awaiting == Awaiting::Nothing,
        evaluates(m, value_of, replies, value),
        resolve(
            evaluated(m, value_of, replies).frames,
            evaluated(m, value_of, replies).environment,
            name.lexeme,
        ) is Some,
    ensures
        ({
            let start = m.with_task(TaskModel::Execute(assignment(name, value_of)));
            let all = twice() + replies + twice();
            let after = evaluated(m, value_of, replies);
            let frame = resolve(after.frames, after.environment, name.lexeme)->Some_0;
            &&& goes_on(start, all)
            &&& asked(start, all) == seq![ActionModel::Continue, ActionModel::Continue] + asked(
                alone(m, value_of),
                replies,
            ) + seq![ActionModel::Continue, ActionModel::Continue]
            &&& run(start, all) == (MachineModel {
                frames: bind(after.frames, frame, name.lexeme, value),
                register: None,
                ..after
            })
            &&& lookup(run(start, all).frames, run(start, all).environment, name.lexeme) == Some(value)
        }),
{
    let whole = ExprModel::Assign { name, value: Box::new(value_of) };
    let start = m.with_task(TaskModel::Execute(assignment(name, value_of)));
    let dropping = m.with_task(TaskModel::Discard);
    let assigning = dropping.with_task(TaskModel::Assign(name));
    assert(start.tasks.drop_last() =~= m.tasks);
    let first = step(start, ReplyModel::Nothing);
    assert(first.0 == dropping.with_task(TaskModel::Evaluate(whole)));
    assert(first.0.tasks.drop_last() =~= dropping.tasks);
    let second = step(first.0, ReplyModel::Nothing);
    assert(second.0 == assigning.with_task(TaskModel::Evaluate(value_of)));
    assert(alone(assigning, value_of) == alone(m, value_of));
    lemma_evaluates_in_place(assigning, value_of, replies, value);
    let middle = evaluated(assigning, value_of, replies);
    assert(middle.tasks.drop_last() =~= dropping.tasks);
    let after = evaluated(m, value_of, replies);
    let frame = resolve(after.frames, after.environment, name.lexeme)->Some_0;
    let third = step(middle, ReplyModel::Nothing);
    let written = MachineModel { frames: bind(after.frames, frame, name.lexeme, value), ..after };
    assert(third.0 == written.with_task(TaskModel::Discard));
    assert(third.0.tasks.drop_last() =~= m.tasks);
    lemma_begin_twice_run_end_twice(start, replies);
    lemma_assign_then_lookup(after.frames, after.environment, name.lexeme, value);
}

/// `NAME = E` for any `E` that evaluates, where no scope binds the name
/// once `E` is evaluated: the step after the evaluation of `E` ends the
/// run with `Undefined variable 'NAME'.` at the name, in whatever scope
/// it happens, and no frame differs from what the evaluation of `E` left.
pub proof fn lemma_assignment_to_undefined(
    m: MachineModel,
    name: TokenModel,
    value_of: ExprModel,
    replies: Seq<ReplyModel>,
    value: ValueModel,
)
    requires
        m.register is None,
        m.awaiting == Awaiting::Nothing,
        evaluates(m, value_of, replies, value),
        resolve(
            evaluated(m, value_of, replies).frames,
            evaluated(m, value_of, replies).environment,
            name.lexeme,
        ) is None,
    ensures
        ({
            let start = m.with_task(
                TaskModel::Evaluate(ExprModel::Assign { name, value: Box::new(value_of) }),
            );
            let after = evaluated(m, value_of, replies);
            &&& goes_on(start, once() + replies)
            &&& step(run(start, once() + replies), ReplyModel::Nothing) == fail(
                after,
                name,
                undefined_variable(name.lexeme),
            )
            &&& fail(after, name, undefined_variable(name.lexeme)).0.frames == after.frames
        }),
{
    let start = m.with_task(TaskModel::Evaluate(ExprModel::Assign { name, value: Box::new(value_of) }));
    let assigning = m.with_task(TaskModel::Assign(name));
    assert(start.tasks.drop_last() =~= m.tasks);
    let first = step(start, ReplyModel::Nothing);
    assert(first.0 == assigning.with_task(TaskModel::Evaluate(value_of)));
    assert(alone(assigning, value_of) == alone(m, value_of));
    lemma_evaluates_in_place(assigning, value_of, replies, value);
    let middle = evaluated(assigning, value_of, replies);
    assert(middle.tasks.drop_last() =~= m.tasks);
    lemma_run_joins(start, once(), replies);
    reveal_with_fuel(run, 2);
    reveal_with_fuel(goes_on, 2);
    assert(once().skip(1) =~= Seq::<ReplyModel>::empty());
    assert(run(start, once()) == first.0);
}

} // verus!
