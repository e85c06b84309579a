//! What holds of a source over any calls of its handle, by the task and by its owner, in any order.
use vstd::prelude::*;

#[allow(unused_imports)]
use crate::ipc_encoded_source::{
    is_source_step, is_start, is_stop, is_stopped, same_setup, AlreadyStarted, IpcEncodedSource,
};
#[allow(unused_imports)]
use crate::run::{EventView, Run, RunOutput};
#[allow(unused_imports)]
use crate::source_state::{change_of, ChangeView, StateChangeEvent, StreamSourceState};
#[allow(unused_imports)]
use crate::text::text_of;

verus! {

/// A call that changes a source, with what came of it. A step can be one of any machine that the
/// source has given out: the task of a source that was stopped may outlive the wait for its end.
pub enum Call {
    Start { r: Result<Run, AlreadyStarted> },
    Step { run: Run, event: EventView, output: RunOutput, run_after: Run },
    Stop { running: bool },
    Stopped { change: Option<StateChangeEvent> },
}

/// Whether a call goes from `before` to `after`.
pub open spec fn is_call(before: IpcEncodedSource, call: Call, after: IpcEncodedSource) -> bool {
    match call {
        Call::Start { r } => is_start(before, r, after),
        Call::Step { run, event, output, run_after } => is_source_step(
            before,
            run,
            event,
            output,
            run_after,
            after,
        ),
        Call::Stop { running } => is_stop(before, running, after),
        Call::Stopped { change } => is_stopped(before, change, after),
    }
}

/// Whether `calls` are made one after the other, where `sources` are the source before, between and
/// after them.
pub open spec fn is_history(sources: Seq<IpcEncodedSource>, calls: Seq<Call>) -> bool {
    &&& sources.len() == calls.len() + 1
    &&& forall|k: int|
        #![trigger calls[k]]
        0 <= k < calls.len() ==> is_call(sources[k], calls[k], sources[k + 1])
}

/// The change of state that a call publishes.
pub open spec fn change_by(call: Call) -> Option<ChangeView> {
    match call {
        Call::Step { output, .. } => change_of(output.change),
        Call::Stopped { change } => change_of(change),
        _ => None,
    }
}

/// The changes of state that `calls` publish.
pub open spec fn changes_by(calls: Seq<Call>) -> Seq<ChangeView>
    decreases calls.len(),
{
    if calls.len() == 0 {
        Seq::empty()
    } else {
        match change_by(calls.last()) {
            Some(change) => changes_by(calls.drop_last()).push(change),
            None => changes_by(calls.drop_last()),
        }
    }
}

/// Whether a source is started after `calls`, when `started` says whether it was before them.
pub open spec fn started_by(started: bool, calls: Seq<Call>) -> bool
    decreases calls.len(),
{
    if calls.len() == 0 {
        started
    } else {
        match calls.last() {
            Call::Start { .. } => true,
            Call::Stop { .. } => false,
            _ => started_by(started, calls.drop_last()),
        }
    }
}

proof fn lemma_history_before(sources: Seq<IpcEncodedSource>, calls: Seq<Call>)
    requires
        is_history(sources, calls),
        calls.len() > 0,
    ensures
        is_history(sources.drop_last(), calls.drop_last()),
        sources.drop_last()[0] == sources[0],
        is_call(sources.drop_last().last(), calls.last(), sources.last()),
{
    let earlier = calls.drop_last();
    assert forall|k: int| #![trigger earlier[k]] 0 <= k < earlier.len() implies is_call(
        sources.drop_last()[k],
        earlier[k],
        sources.drop_last()[k + 1],
    ) by {
        assert(earlier[k] == calls[k]);
    }
    assert(calls[calls.len() - 1] == calls.last());
}

/// Who follows the published changes knows the state of the source, whoever called it: the first
/// change starts from the state that the source was in, each next one where the one before it
/// ended, the last one ends in the state that the source is in, and none of them is from a state to
/// itself.
pub proof fn law_published_changes_tell_the_state(
    sources: Seq<IpcEncodedSource>,
    calls: Seq<Call>,
)
    requires
        is_history(sources, calls),
    ensures
        ({
            let c = changes_by(calls);
            &&& forall|i: int|
                0 <= i < c.len() ==> (#[trigger] c[i]).old_state != c[i].new_state
            &&& forall|i: int, j: int|
                #![trigger c[i], c[j]]
                0 <= i && j == i + 1 && j < c.len() ==> c[i].new_state == c[j].old_state
            &&& c.len() == 0 ==> sources.last().status().state == sources[0].status().state
            &&& c.len() > 0 ==> c[0].old_state == sources[0].status().state && c.last().new_state
                == sources.last().status().state
        }),
    decreases calls.len(),
{
    if calls.len() > 0 {
        lemma_history_before(sources, calls);
        law_published_changes_tell_the_state(sources.drop_last(), calls.drop_last());
    }
}

/// A source keeps its configuration and its codec, and so stays well formed.
pub proof fn law_setup_is_kept(sources: Seq<IpcEncodedSource>, calls: Seq<Call>)
    requires
        is_history(sources, calls),
    ensures
        same_setup(sources[0], sources.last()),
        sources[0].wf() ==> sources.last().wf(),
    decreases calls.len(),
{
    if calls.len() > 0 {
        lemma_history_before(sources, calls);
        law_setup_is_kept(sources.drop_last(), calls.drop_last());
    }
}

/// A source is started from a start on until it is stopped, and a start in that time is refused: no
/// machine is given out. A start at any other time succeeds.
pub proof fn law_start_is_refused_until_stopped(
    sources: Seq<IpcEncodedSource>,
    calls: Seq<Call>,
    r: Result<Run, AlreadyStarted>,
    after: IpcEncodedSource,
)
    requires
        is_history(sources, calls),
        is_start(sources.last(), r, after),
    ensures
        sources.last().started() == started_by(sources[0].started(), calls),
        r is Err <==> started_by(sources[0].started(), calls),
{
    lemma_started(sources, calls);
}

proof fn lemma_started(sources: Seq<IpcEncodedSource>, calls: Seq<Call>)
    requires
        is_history(sources, calls),
    ensures
        sources.last().started() == started_by(sources[0].started(), calls),
    decreases calls.len(),
{
    if calls.len() > 0 {
        lemma_history_before(sources, calls);
        lemma_started(sources.drop_last(), calls.drop_last());
    }
}

/// The profile that a bitstream has announced is kept, over stops and new starts too.
pub proof fn law_profile_outlives_restarts(sources: Seq<IpcEncodedSource>, calls: Seq<Call>)
    requires
        is_history(sources, calls),
        sources[0].status().dynamic_profile is Some,
    ensures
        text_of(sources.last().status().dynamic_profile) == text_of(
            sources[0].status().dynamic_profile,
        ),
    decreases calls.len(),
{
    if calls.len() > 0 {
        lemma_history_before(sources, calls);
        law_profile_outlives_restarts(sources.drop_last(), calls.drop_last());
        match calls.last() {
            Call::Step { run, event, output, run_after } => {
                assert(run_after.model(sources.last().status()).profile == text_of(
                    sources.last().status().dynamic_profile,
                ));
            },
            _ => {},
        }
    }
}

/// Stopping leaves a source disconnected and not started, whatever came before it and whatever
/// steps the task still made while it was waited for.
pub proof fn law_stop_leaves_a_source_disconnected(
    sources: Seq<IpcEncodedSource>,
    calls: Seq<Call>,
)
    requires
        is_history(sources, calls),
        calls.len() >= 2,
        calls[0] is Stop,
        calls.last() is Stopped,
        forall|k: int| 0 < k < calls.len() - 1 ==> (#[trigger] calls[k]) is Step,
    ensures
        !sources.last().started(),
        sources.last().status().state == StreamSourceState::Disconnected,
{
    lemma_started(sources, calls);
    lemma_history_before(sources, calls);
    let waiting = calls.drop_last();
    assert(started_by(sources[0].started(), calls) == started_by(sources[0].started(), waiting));
    lemma_steps_keep_started(sources[0].started(), waiting);
}

proof fn lemma_steps_keep_started(started: bool, calls: Seq<Call>)
    requires
        calls.len() >= 1,
        calls[0] is Stop,
        forall|k: int| 0 < k < calls.len() ==> (#[trigger] calls[k]) is Step,
    ensures
        !started_by(started, calls),
    decreases calls.len(),
{
    if calls.len() > 1 {
        lemma_steps_keep_started(started, calls.drop_last());
        assert(calls[calls.len() - 1] is Step);
    }
}

} // verus!
