//! What holds of calls of any kind.
//!
//! A call evaluates its callee, then its arguments from left to right,
//! each in the state that the one before left, and only then looks at
//! what it is to call. Where the callee cannot be called, or takes
//! another number of arguments, the run ends there: nothing of a body is
//! scheduled, and the frames are as the callee and the arguments left
//! them.

use vstd::prelude::*;
use crate::environment::{bind, FrameModel};
use crate::evaluation::{alone, evaluated, evaluates, lemma_evaluates_in_place, once};
use crate::expr::ExprModel;
use crate::frame::{goes_on, lemma_run_joins, run};
use crate::function::FunctionModel;
use crate::semantics::{
    arity_mismatch, call_check, enter_call, invoke, step, ActionModel, Awaiting, MachineModel,
    ReplyModel, RuntimeErrorModel, SignalModel, TaskModel,
};
use crate::stmt::StmtModel;
use crate::token::TokenModel;
use crate::value::ValueModel;

verus! {

/// The value of the first of the expressions in the state of `m`.
pub open spec fn first_value(
    m: MachineModel,
    expressions: Seq<ExprModel>,
    evidence: Seq<Seq<ReplyModel>>,
) -> ValueModel {
    run(alone(m, expressions[0]), evidence[0]).register->Some_0
}

/// The machine `m` after the first of the expressions was evaluated and
/// its value taken.
pub open spec fn after_first(
    m: MachineModel,
    expressions: Seq<ExprModel>,
    evidence: Seq<Seq<ReplyModel>>,
) -> MachineModel {
    evaluated(m, expressions[0], evidence[0]).emptied()
}

/// Whether the expressions evaluate one after the other, each in the
/// state that the one before left, with the answers in `evidence` for
/// each of them.
pub open spec fn all_evaluate(
    m: MachineModel,
    expressions: Seq<ExprModel>,
    evidence: Seq<Seq<ReplyModel>>,
) -> bool
    decreases expressions.len(),
{
    &&& evidence.len() == expressions.len()
    &&& expressions.len() > 0 ==> {
        &&& evaluates(m, expressions[0], evidence[0], first_value(m, expressions, evidence))
        &&& all_evaluate(after_first(m, expressions, evidence), expressions.skip(1), evidence.skip(1))
    }
}

/// The values of the expressions, in order.
pub open spec fn values_of(
    m: MachineModel,
    expressions: Seq<ExprModel>,
    evidence: Seq<Seq<ReplyModel>>,
) -> Seq<ValueModel>
    decreases expressions.len(),
{
    if expressions.len() == 0 {
        Seq::empty()
    } else {
        seq![first_value(m, expressions, evidence)] + values_of(
            after_first(m, expressions, evidence),
            expressions.skip(1),
            evidence.skip(1),
        )
    }
}

/// The machine `m` after all the expressions were evaluated.
pub open spec fn after_all(
    m: MachineModel,
    expressions: Seq<ExprModel>,
    evidence: Seq<Seq<ReplyModel>>,
) -> MachineModel
    decreases expressions.len(),
{
    if expressions.len() == 0 {
        m
    } else {
        after_all(after_first(m, expressions, evidence), expressions.skip(1), evidence.skip(1))
    }
}

/// The answers to the evaluation of some arguments: those for each
/// argument, and an answer of nothing between two arguments.
pub open spec fn between(evidence: Seq<Seq<ReplyModel>>) -> Seq<ReplyModel>
    decreases evidence.len(),
{
    if evidence.len() == 0 {
        Seq::empty()
    } else if evidence.len() == 1 {
        evidence[0]
    } else {
        evidence[0] + once() + between(evidence.skip(1))
    }
}

/// There are as many values as expressions.
pub proof fn lemma_values_are_as_many(
    m: MachineModel,
    expressions: Seq<ExprModel>,
    evidence: Seq<Seq<ReplyModel>>,
)
    ensures
        values_of(m, expressions, evidence).len() == expressions.len(),
    decreases expressions.len(),
{
    if expressions.len() > 0 {
        lemma_values_are_as_many(after_first(m, expressions, evidence), expressions.skip(1), evidence.skip(1));
    }
}

/// The machine that has the callee `callee` and the arguments `done`, is
/// evaluating the next argument, and has `rest` to evaluate after it.
pub open spec fn gathering(
    m: MachineModel,
    paren: TokenModel,
    callee: ValueModel,
    done: Seq<ValueModel>,
    rest: Seq<ExprModel>,
) -> MachineModel {
    m.with_task(
        TaskModel::Arguments { paren, callee: Some(callee), done, rest: rest.skip(1) },
    ).with_task(TaskModel::Evaluate(rest[0]))
}

/// Arguments that evaluate are evaluated from left to right, each in the
/// state that the one before left. The step after the last of them makes
/// the call, with the values in this order.
pub proof fn lemma_arguments_are_gathered(
    m: MachineModel,
    paren: TokenModel,
    callee: ValueModel,
    done: Seq<ValueModel>,
    rest: Seq<ExprModel>,
    evidence: Seq<Seq<ReplyModel>>,
)
    requires
        m.register is None,
        m.awaiting == Awaiting::Nothing,
        rest.len() > 0,
        all_evaluate(m, rest, evidence),
    ensures
        goes_on(gathering(m, paren, callee, done, rest), between(evidence)),
        step(run(gathering(m, paren, callee, done, rest), between(evidence)), ReplyModel::Nothing)
            == invoke(after_all(m, rest, evidence), paren, callee, done + values_of(m, rest, evidence)),
    decreases rest.len(),
{
    let start = gathering(m, paren, callee, done, rest);
    let keeping = m.with_task(TaskModel::Arguments { paren, callee: Some(callee), done, rest: rest.skip(1) });
    let value = first_value(m, rest, evidence);
    let next = after_first(m, rest, evidence);
    assert(alone(keeping, rest[0]) == alone(m, rest[0]));
    lemma_evaluates_in_place(keeping, rest[0], evidence[0], value);
    let reached = evaluated(keeping, rest[0], evidence[0]);
    assert(reached.tasks.drop_last() =~= m.tasks);
    assert(reached.without_task().emptied() == next);
    let deciding = step(reached, ReplyModel::Nothing);
    if rest.len() == 1 {
        assert(rest.skip(1).len() == 0);
        assert(evidence.len() == 1);
        assert(values_of(next, rest.skip(1), evidence.skip(1)) =~= Seq::<ValueModel>::empty());
        assert(done + values_of(m, rest, evidence) =~= done.push(value));
        assert(after_all(m, rest, evidence) == next) by {
            reveal_with_fuel(after_all, 2);
        }
    } else {
        let others = rest.skip(1);
        assert(deciding.0 == gathering(next, paren, callee, done.push(value), others));
        lemma_arguments_are_gathered(next, paren, callee, done.push(value), others, evidence.skip(1));
        assert(done.push(value) + values_of(next, others, evidence.skip(1)) =~= done + values_of(
            m,
            rest,
            evidence,
        ));
        let tail = between(evidence.skip(1));
        lemma_run_joins(start, evidence[0], once() + tail);
        lemma_run_joins(reached, once(), tail);
        assert(run(reached, once()) == deciding.0 && goes_on(reached, once())) by {
            reveal_with_fuel(run, 2);
            reveal_with_fuel(goes_on, 2);
            assert(once().skip(1) =~= Seq::<ReplyModel>::empty());
        }
        assert(between(evidence) =~= evidence[0] + (once() + tail));
    }
}

/// The call of `callee` with `arguments`.
pub open spec fn call(callee: ExprModel, paren: TokenModel, arguments: Seq<ExprModel>) -> ExprModel {
    ExprModel::Call { callee: Box::new(callee), paren, arguments }
}

/// The answers to a call up to the step that makes it: one to begin,
/// those for the callee, and for the arguments one to go on and theirs.
pub open spec fn call_answers(callee: Seq<ReplyModel>, evidence: Seq<Seq<ReplyModel>>) -> Seq<ReplyModel> {
    if evidence.len() == 0 {
        once() + callee
    } else {
        once() + callee + (once() + between(evidence))
    }
}

/// The machine `m` after the callee was evaluated and its value taken.
pub open spec fn after_callee(m: MachineModel, callee: ExprModel, replies: Seq<ReplyModel>) -> MachineModel {
    evaluated(m, callee, replies).emptied()
}

/// A call whose callee and arguments evaluate: the callee is evaluated
/// first, then the arguments from left to right, and the step after the
/// last of them makes the call with these values, in the state that the
/// evaluations left.
pub proof fn lemma_call(
    m: MachineModel,
    callee: ExprModel,
    paren: TokenModel,
    arguments: Seq<ExprModel>,
    replies: Seq<ReplyModel>,
    target: ValueModel,
    evidence: Seq<Seq<ReplyModel>>,
)
    requires
        m.register is None,
        m.awaiting == Awaiting::Nothing,
        evaluates(m, callee, replies, target),
        all_evaluate(after_callee(m, callee, replies), arguments, evidence),
    ensures
        ({
            let start = m.with_task(TaskModel::Evaluate(call(callee, paren, arguments)));
            let ready = after_callee(m, callee, replies);
            &&& goes_on(start, call_answers(replies, evidence))
            &&& step(run(start, call_answers(replies, evidence)), ReplyModel::Nothing) == invoke(
                after_all(ready, arguments, evidence),
                paren,
                target,
                values_of(ready, arguments, evidence),
            )
            &&& values_of(ready, arguments, evidence).len() == arguments.len()
        }),
{
    let start = m.with_task(TaskModel::Evaluate(call(callee, paren, arguments)));
    let keeping = m.with_task(
        TaskModel::Arguments { paren, callee: None, done: Seq::empty(), rest: arguments },
    );
    let ready = after_callee(m, callee, replies);
    assert(start.tasks.drop_last() =~= m.tasks);
    let first = step(start, ReplyModel::Nothing);
    assert(first.0 == keeping.with_task(TaskModel::Evaluate(callee)));
    assert(alone(keeping, callee) == alone(m, callee));
    lemma_evaluates_in_place(keeping, callee, replies, target);
    let reached = evaluated(keeping, callee, replies);
    assert(reached.tasks.drop_last() =~= m.tasks);
    assert(reached.without_task().emptied() == ready);
    let deciding = step(reached, ReplyModel::Nothing);
    lemma_values_are_as_many(ready, arguments, evidence);
    lemma_run_joins(start, once(), replies);
    assert(run(start, once()) == first.0 && goes_on(start, once())) by {
        reveal_with_fuel(run, 2);
        reveal_with_fuel(goes_on, 2);
        assert(once().skip(1) =~= Seq::<ReplyModel>::empty());
    }
    if arguments.len() == 0 {
        assert(values_of(ready, arguments, evidence) =~= Seq::<ValueModel>::empty());
    } else {
        assert(deciding.0 == gathering(ready, paren, target, Seq::empty(), arguments));
        lemma_arguments_are_gathered(ready, paren, target, Seq::empty(), arguments, evidence);
        assert(Seq::<ValueModel>::empty() + values_of(ready, arguments, evidence) =~= values_of(
            ready,
            arguments,
            evidence,
        ));
        lemma_run_joins(start, once() + replies, once() + between(evidence));
        lemma_run_joins(reached, once(), between(evidence));
        assert(run(reached, once()) == deciding.0 && goes_on(reached, once())) by {
            reveal_with_fuel(run, 2);
            reveal_with_fuel(goes_on, 2);
            assert(once().skip(1) =~= Seq::<ReplyModel>::empty());
        }
    }
}

/// A call of something that cannot be called with this number of
/// arguments: a value that is no function, or a function, of the program
/// or of the host, that takes another number. Once the callee and all
/// arguments are evaluated the run ends with the message for it at the
/// closing parenthesis: `Expected N arguments but got M.` for a function
/// of `N` parameters and `M` arguments. Nothing of a body is run: no
/// frame is made or changed after the last argument, and nothing stays
/// scheduled.
pub proof fn lemma_call_is_refused(
    m: MachineModel,
    callee: ExprModel,
    paren: TokenModel,
    arguments: Seq<ExprModel>,
    replies: Seq<ReplyModel>,
    target: ValueModel,
    evidence: Seq<Seq<ReplyModel>>,
)
    requires
        m.register is None,
        m.awaiting == Awaiting::Nothing,
        evaluates(m, callee, replies, target),
        all_evaluate(after_callee(m, callee, replies), arguments, evidence),
        call_check(target, arguments.len()) is Err,
    ensures
        ({
            let start = m.with_task(TaskModel::Evaluate(call(callee, paren, arguments)));
            let ready = after_all(after_callee(m, callee, replies), arguments, evidence);
            let end = step(run(start, call_answers(replies, evidence)), ReplyModel::Nothing);
            &&& goes_on(start, call_answers(replies, evidence))
            &&& end.1 == ActionModel::Finished(
                Err(
                    SignalModel::Error(
                        RuntimeErrorModel {
                            token: paren,
                            message: call_check(target, arguments.len())->Err_0,
                        },
                    ),
                ),
            )
            &&& end.0.frames == ready.frames
            &&& end.0.tasks.len() == 0
            &&& target matches ValueModel::Function(f) ==> call_check(target, arguments.len())->Err_0
                == arity_mismatch(f.declaration.params.len(), arguments.len())
            &&& target matches ValueModel::NativeFunction(f) ==> call_check(
                target,
                arguments.len(),
            )->Err_0 == arity_mismatch(f.spec_arity(), arguments.len())
        }),
{
    lemma_call(m, callee, paren, arguments, replies, target, evidence);
}

/// Binding names in the scope in force changes the values of that frame
/// and nothing else of the frames.
pub proof fn lemma_bound_keeps_other_frames(m: MachineModel, names: Seq<TokenModel>, values: Seq<ValueModel>)
    ensures
        m.bound(names, values).frames.len() == m.frames.len(),
        m.bound(names, values).environment == m.environment,
        forall|i: int|
            0 <= i < m.frames.len() && i != m.environment ==> #[trigger] m.bound(names, values).frames[i]
                == m.frames[i],
        m.environment < m.frames.len() ==> m.bound(names, values).frames[m.environment as int].enclosing
            == m.frames[m.environment as int].enclosing,
    decreases names.len(),
{
    if names.len() > 0 && values.len() > 0 {
        let next = MachineModel {
            frames: bind(m.frames, m.environment, names[0].lexeme, values[0]),
            ..m
        };
        lemma_bound_keeps_other_frames(next, names.skip(1), values.skip(1));
    }
}

/// Scheduling statements changes no frame and no scope.
pub proof fn lemma_scheduled_keeps_frames(m: MachineModel, statements: Seq<StmtModel>)
    ensures
        m.scheduled(statements).frames == m.frames,
        m.scheduled(statements).environment == m.environment,
    decreases statements.len(),
{
    if statements.len() > 0 {
        lemma_scheduled_keeps_frames(
            m.with_task(TaskModel::Execute(statements.last())),
            statements.drop_last(),
        );
    }
}

/// Every call of a function makes a frame of its own: a new frame, put
/// behind all frames there are, inside the frame that the function closes
/// over and not inside the scope of the caller. It becomes the scope in
/// force, and no frame made before is changed. So two calls never share
/// the frame of their parameters and local variables.
pub proof fn lemma_call_makes_a_fresh_frame(m: MachineModel, function: FunctionModel, arguments: Seq<ValueModel>)
    ensures
        ({
            let entered = enter_call(m, function, arguments);
            &&& entered.environment == m.frames.len()
            &&& entered.frames.len() == m.frames.len() + 1
            &&& entered.frames[entered.environment as int].enclosing == Some(function.closure)
            &&& forall|i: int| 0 <= i < m.frames.len() ==> #[trigger] entered.frames[i] == m.frames[i]
        }),
{
    let inside = MachineModel {
        frames: m.frames.push(FrameModel { enclosing: Some(function.closure), values: Map::empty() }),
        environment: m.frames.len(),
        ..m
    };
    lemma_bound_keeps_other_frames(inside, function.declaration.params, arguments);
    let bound = inside.bound(function.declaration.params, arguments);
    lemma_scheduled_keeps_frames(
        bound.with_task(TaskModel::EndCall(m.environment)),
        function.declaration.body,
    );
}

} // verus!
