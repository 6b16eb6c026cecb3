//! The order in which the engine is called to run one script.
//!
//! The engine can bail out of any call: control then comes back without the call having
//! returned. What is still to be done depends on how far the request has come.
use vstd::prelude::*;

verus! {

/// A call into the engine.
#[derive(Clone, Copy, Debug, PartialEq, Eq, Structural)]
pub enum EngineCall {
    /// Start the request.
    RequestStartup,
    /// Run the script.
    ExecuteScript,
    /// Release the handle of the script's file.
    DestroyFileHandle,
    /// End the request.
    RequestShutdown,
}

/// How a call into the engine ended.
#[derive(Clone, Copy, Debug, PartialEq, Eq, Structural)]
pub enum EngineEvent {
    /// It returned, and reported no failure.
    Returned,
    /// It returned, and reported a failure.
    Failed,
    /// The engine bailed out of it.
    Bailout,
}

/// How far a request has come.
#[derive(Clone, Copy, Debug, PartialEq, Eq, Structural)]
pub enum Stage {
    /// The request is being started.
    Startup,
    /// The script is running.
    Script,
    /// The script is done, its file handle is being released.
    Release,
    /// The request is being ended.
    Shutdown,
    /// The request could not be started, the file handle is being released.
    Abandon,
    /// The engine bailed out before the end was begun: the file handle is being released.
    RecoverRelease,
    /// The request is being ended after a bailout.
    RecoverShutdown,
    /// The request was served.
    Served,
    /// The request failed, and the engine cannot be used for another one.
    Broken,
}

/// What a bailout out of a call at some stage calls for.
#[derive(Clone, Copy, Debug, PartialEq, Eq, Structural)]
pub enum Guard {
    /// The call belongs to the run of the script.
    Run,
    /// The call is made without a guard.
    Bare,
    /// The call belongs to the recovery from a bailout.
    Recovery,
}

/// The call to be made at a stage.
pub open spec fn call_at(stage: Stage) -> Option<EngineCall> {
    match stage {
        Stage::Startup => Some(EngineCall::RequestStartup),
        Stage::Script => Some(EngineCall::ExecuteScript),
        Stage::Release => Some(EngineCall::DestroyFileHandle),
        Stage::Shutdown => Some(EngineCall::RequestShutdown),
        Stage::Abandon => Some(EngineCall::DestroyFileHandle),
        Stage::RecoverRelease => Some(EngineCall::DestroyFileHandle),
        Stage::RecoverShutdown => Some(EngineCall::RequestShutdown),
        Stage::Served => None,
        Stage::Broken => None,
    }
}

/// The guard under which the call of a stage is made.
pub open spec fn guard_at(stage: Stage) -> Option<Guard> {
    match stage {
        Stage::Startup | Stage::Script | Stage::Release | Stage::Shutdown => Some(Guard::Run),
        Stage::Abandon => Some(Guard::Bare),
        Stage::RecoverRelease | Stage::RecoverShutdown => Some(Guard::Recovery),
        Stage::Served | Stage::Broken => None,
    }
}

/// The stage that follows when the call of a stage ends. A failure matters when the request
/// is started, and nowhere else.
pub open spec fn next_stage(stage: Stage, event: EngineEvent) -> Stage {
    let bailout = event == EngineEvent::Bailout;
    match stage {
        Stage::Startup => match event {
            EngineEvent::Returned => Stage::Script,
            EngineEvent::Failed => Stage::Abandon,
            EngineEvent::Bailout => Stage::RecoverRelease,
        },
        Stage::Script => if bailout {
            Stage::RecoverRelease
        } else {
            Stage::Release
        },
        Stage::Release => if bailout {
            Stage::RecoverRelease
        } else {
            Stage::Shutdown
        },
        Stage::Shutdown => if bailout {
            Stage::Broken
        } else {
            Stage::Served
        },
        Stage::Abandon => Stage::Broken,
        Stage::RecoverRelease => if bailout {
            Stage::Broken
        } else {
            Stage::RecoverShutdown
        },
        Stage::RecoverShutdown => Stage::Broken,
        Stage::Served => Stage::Served,
        Stage::Broken => Stage::Broken,
    }
}

/// The run of one script.
#[derive(Clone, Copy, Debug)]
pub struct Execution {
    /// How far the request has come.
    pub stage: Stage,
}

impl Execution {
    /// The run of a script that has not been started.
    pub fn new() -> (run: Execution)
        ensures
            run.stage == Stage::Startup,
    {
        Execution { stage: Stage::Startup }
    }

    /// The call to be made next; `None` when the request is over.
    pub fn pending(&self) -> (call: Option<EngineCall>)
        ensures
            call == call_at(self.stage),
    {
        match self.stage {
            Stage::Startup => Some(EngineCall::RequestStartup),
            Stage::Script => Some(EngineCall::ExecuteScript),
            Stage::Release => Some(EngineCall::DestroyFileHandle),
            Stage::Shutdown => Some(EngineCall::RequestShutdown),
            Stage::Abandon => Some(EngineCall::DestroyFileHandle),
            Stage::RecoverRelease => Some(EngineCall::DestroyFileHandle),
            Stage::RecoverShutdown => Some(EngineCall::RequestShutdown),
            Stage::Served => None,
            Stage::Broken => None,
        }
    }

    /// The guard under which the next call is to be made.
    pub fn guard(&self) -> (guard: Option<Guard>)
        ensures
            guard == guard_at(self.stage),
    {
        match self.stage {
            Stage::Startup | Stage::Script | Stage::Release | Stage::Shutdown => Some(Guard::Run),
            Stage::Abandon => Some(Guard::Bare),
            Stage::RecoverRelease | Stage::RecoverShutdown => Some(Guard::Recovery),
            Stage::Served | Stage::Broken => None,
        }
    }

    /// Takes note of how the pending call ended.
    pub fn advance(&mut self, event: EngineEvent)
        ensures
            final(self).stage == next_stage(old(self).stage, event),
    {
        let bailout: bool = event == EngineEvent::Bailout;
        self.stage = match self.stage {
            Stage::Startup => match event {
                EngineEvent::Returned => Stage::Script,
                EngineEvent::Failed => Stage::Abandon,
                EngineEvent::Bailout => Stage::RecoverRelease,
            },
            Stage::Script => if bailout {
                Stage::RecoverRelease
            } else {
                Stage::Release
            },
            Stage::Release => if bailout {
                Stage::RecoverRelease
            } else {
                Stage::Shutdown
            },
            Stage::Shutdown => if bailout {
                Stage::Broken
            } else {
                Stage::Served
            },
            Stage::Abandon => Stage::Broken,
            Stage::RecoverRelease => if bailout {
                Stage::Broken
            } else {
                Stage::RecoverShutdown
            },
            Stage::RecoverShutdown => Stage::Broken,
            Stage::Served => Stage::Served,
            Stage::Broken => Stage::Broken,
        };
    }

    /// How the request ended; `None` while it is under way.
    pub fn outcome(&self) -> (outcome: Option<Result<(), ()>>)
        ensures
            outcome == match self.stage {
                Stage::Served => Some(Ok::<(), ()>(())),
                Stage::Broken => Some(Err::<(), ()>(())),
                _ => None,
            },
    {
        match self.stage {
            Stage::Served => Some(Ok(())),
            Stage::Broken => Some(Err(())),
            _ => None,
        }
    }
}

/// The stage of a request whose calls have ended as `events` say.
pub open spec fn stage_after(events: Seq<EngineEvent>) -> Stage
    decreases events.len(),
{
    if events.len() == 0 {
        Stage::Startup
    } else {
        next_stage(stage_after(events.drop_last()), events.last())
    }
}

/// The calls that were made for a request whose calls have ended as `events` say.
pub open spec fn calls_made(events: Seq<EngineEvent>) -> Seq<EngineCall>
    decreases events.len(),
{
    if events.len() == 0 {
        Seq::empty()
    } else {
        match call_at(stage_after(events.drop_last())) {
            Some(call) => calls_made(events.drop_last()).push(call),
            None => calls_made(events.drop_last()),
        }
    }
}

/// The calls that are made for a request that is served.
pub open spec fn regular_calls() -> Seq<EngineCall> {
    seq![
        EngineCall::RequestStartup,
        EngineCall::ExecuteScript,
        EngineCall::DestroyFileHandle,
        EngineCall::RequestShutdown,
    ]
}

proof fn lemma_calls_by_stage(events: Seq<EngineEvent>)
    ensures
        ({
            let calls = calls_made(events);
            &&& calls.len() <= 5
            &&& match stage_after(events) {
                Stage::Startup => calls == regular_calls().take(0),
                Stage::Script => calls == regular_calls().take(1),
                Stage::Release => calls == regular_calls().take(2),
                Stage::Shutdown => calls == regular_calls().take(3),
                Stage::Served => calls == regular_calls(),
                Stage::Abandon => calls == regular_calls().take(1),
                Stage::RecoverRelease => exists|n: int|
                    1 <= n <= 3 && calls == #[trigger] regular_calls().take(n),
                Stage::RecoverShutdown => exists|n: int|
                    1 <= n <= 3 && calls == (#[trigger] regular_calls().take(n)).push(
                        EngineCall::DestroyFileHandle,
                    ),
                Stage::Broken => calls == regular_calls() || exists|n: int|
                    1 <= n <= 3 && (calls == (#[trigger] regular_calls().take(n)).push(
                        EngineCall::DestroyFileHandle,
                    ) || calls == regular_calls().take(n).push(EngineCall::DestroyFileHandle).push(
                        EngineCall::RequestShutdown,
                    )),
            }
        }),
    decreases events.len(),
{
    if events.len() == 0 {
        assert(calls_made(events) =~= regular_calls().take(0));
    } else {
        let before = events.drop_last();
        lemma_calls_by_stage(before);
        let calls = calls_made(events);
        match stage_after(before) {
            Stage::Startup => {
                assert(calls =~= regular_calls().take(1));
            },
            Stage::Script => {
                assert(calls =~= regular_calls().take(2));
            },
            Stage::Release => {
                assert(calls =~= regular_calls().take(3));
            },
            Stage::Shutdown => {
                assert(calls =~= regular_calls());
            },
            Stage::Abandon => {
                assert(calls == regular_calls().take(1).push(EngineCall::DestroyFileHandle));
            },
            _ => {},
        }
    }
}

/// Whether the first `count` calls were made and none of them failed the request.
pub open spec fn went_well(events: Seq<EngineEvent>, count: int) -> bool {
    &&& events.len() >= count
    &&& count > 0 ==> events[0] == EngineEvent::Returned
    &&& forall|i: int| 0 <= i < count ==> #[trigger] events[i] != EngineEvent::Bailout
}

proof fn lemma_regular_stages_went_well(events: Seq<EngineEvent>)
    ensures
        match stage_after(events) {
            Stage::Startup => events.len() == 0,
            Stage::Script => events.len() == 1 && went_well(events, 1),
            Stage::Release => events.len() == 2 && went_well(events, 2),
            Stage::Shutdown => events.len() == 3 && went_well(events, 3),
            Stage::Served => went_well(events, 4),
            _ => true,
        },
    decreases events.len(),
{
    if events.len() > 0 {
        let before = events.drop_last();
        lemma_regular_stages_went_well(before);
        assert forall|i: int| 0 <= i < before.len() implies #[trigger] events[i] == before[i] by {}
    }
}

/// A request counts as served only if it was started, its script run, its file handle
/// released and it was ended, each once and in this order, the start without failure and
/// all of it without a bailout.
pub proof fn law_served_request_made_every_call(events: Seq<EngineEvent>)
    requires
        stage_after(events) == Stage::Served,
    ensures
        calls_made(events) == regular_calls(),
        went_well(events, 4),
{
    lemma_calls_by_stage(events);
    lemma_regular_stages_went_well(events);
}

/// A request is ended at most once, and right after its file handle was released.
pub proof fn law_request_is_ended_once_after_release(events: Seq<EngineEvent>, i: int)
    requires
        0 <= i < calls_made(events).len(),
        calls_made(events)[i] == EngineCall::RequestShutdown,
    ensures
        i > 0,
        calls_made(events)[i - 1] == EngineCall::DestroyFileHandle,
        forall|j: int|
            0 <= j < calls_made(events).len() && j != i ==> #[trigger] calls_made(events)[j]
                != EngineCall::RequestShutdown,
{
    lemma_calls_by_stage(events);
}

/// The file handle of a request that is over was released.
pub proof fn law_file_handle_is_released(events: Seq<EngineEvent>)
    requires
        call_at(stage_after(events)) is None,
    ensures
        calls_made(events).contains(EngineCall::DestroyFileHandle),
{
    lemma_calls_by_stage(events);
    let calls = calls_made(events);
    assert(exists|i: int|
        0 <= i < calls.len() && calls[i] == EngineCall::DestroyFileHandle) by {
        if calls == regular_calls() {
            assert(calls[2] == EngineCall::DestroyFileHandle);
        } else {
            let n = choose|n: int|
                1 <= n <= 3 && (calls == (#[trigger] regular_calls().take(n)).push(
                    EngineCall::DestroyFileHandle,
                ) || calls == regular_calls().take(n).push(EngineCall::DestroyFileHandle).push(
                    EngineCall::RequestShutdown,
                ));
            assert(calls[n] == EngineCall::DestroyFileHandle);
        }
    }
}

/// A request that could not be started is not ended either.
pub proof fn law_failed_start_is_not_ended(events: Seq<EngineEvent>)
    requires
        events.len() > 0,
        events[0] == EngineEvent::Failed,
    ensures
        stage_after(events) == Stage::Abandon || stage_after(events) == Stage::Broken,
        !calls_made(events).contains(EngineCall::RequestShutdown),
    decreases events.len(),
{
    let before = events.drop_last();
    if before.len() > 0 {
        law_failed_start_is_not_ended(before);
        assert forall|i: int| 0 <= i < calls_made(events).len() implies calls_made(events)[i]
            != EngineCall::RequestShutdown by {
            if i < calls_made(before).len() {
                assert(calls_made(before).contains(calls_made(before)[i]));
            }
        }
    } else {
        assert(stage_after(before) == Stage::Startup);
        assert(calls_made(before) =~= Seq::<EngineCall>::empty());
        assert(calls_made(events) =~= seq![EngineCall::RequestStartup]);
        assert(events.last() == events[0]);
    }
}

/// Five calls at the most, and a request is over.
pub proof fn law_request_comes_to_an_end(events: Seq<EngineEvent>)
    requires
        events.len() >= 5,
    ensures
        call_at(stage_after(events)) is None,
{
    lemma_pending_counts_calls(events);
    lemma_calls_by_stage(events);
}

proof fn lemma_pending_counts_calls(events: Seq<EngineEvent>)
    ensures
        call_at(stage_after(events)) is Some ==> calls_made(events).len() == events.len(),
    decreases events.len(),
{
    if events.len() > 0 {
        lemma_pending_counts_calls(events.drop_last());
    }
}

proof fn lemma_next_event(events: Seq<EngineEvent>, k: int)
    requires
        0 <= k < events.len(),
    ensures
        stage_after(events.take(k + 1)) == next_stage(stage_after(events.take(k)), events[k]),
        calls_made(events.take(k + 1)) == match call_at(stage_after(events.take(k))) {
            Some(call) => calls_made(events.take(k)).push(call),
            None => calls_made(events.take(k)),
        },
{
    assert(events.take(k + 1).drop_last() =~= events.take(k));
}

proof fn lemma_no_event(events: Seq<EngineEvent>)
    ensures
        stage_after(events.take(0)) == Stage::Startup,
        calls_made(events.take(0)) == Seq::<EngineCall>::empty(),
{
}

/// A run that is over stays so, whatever is reported.
proof fn lemma_over_is_over(events: Seq<EngineEvent>, k: int)
    requires
        0 <= k <= events.len(),
        stage_after(events.take(k)) == Stage::Served || stage_after(events.take(k))
            == Stage::Broken,
    ensures
        stage_after(events) == stage_after(events.take(k)),
        calls_made(events) == calls_made(events.take(k)),
    decreases events.len() - k,
{
    if k == events.len() {
        assert(events.take(k) =~= events);
    } else {
        lemma_next_event(events, k);
        lemma_over_is_over(events, k + 1);
    }
}

/// A run starts at the beginning and takes note of one call after the other: what `events` say
/// of its calls is where it stands, and what is pending is the call that is made next.
pub proof fn law_run_follows_its_calls(
    fresh: Execution,
    run: &mut Execution,
    events: Seq<EngineEvent>,
    event: EngineEvent,
    call: Option<EngineCall>,
)
    requires
        call_ensures(Execution::new, (), fresh),
        run.stage == stage_after(events),
        call_ensures(Execution::pending, (&*run,), call),
        call_ensures(Execution::advance, (run, event), ()),
    ensures
        fresh.stage == stage_after(Seq::empty()),
        final(run).stage == stage_after(events.push(event)),
        call is Some ==> calls_made(events.push(event)) == calls_made(events).push(call->0),
        call is None ==> calls_made(events.push(event)) == calls_made(events),
{
    assert(events.push(event).drop_last() =~= events);
}

/// A request whose start succeeds and whose calls do not bail out is served: it is started, its
/// script is run, the file handle is released and the request is ended.
pub proof fn law_undisturbed_request_is_served(
    events: Seq<EngineEvent>,
    run: &Execution,
    outcome: Option<Result<(), ()>>,
)
    requires
        run.stage == stage_after(events),
        call_ensures(Execution::outcome, (run,), outcome),
        events.len() >= 4,
        events[0] == EngineEvent::Returned,
        forall|i: int| 0 <= i < 4 ==> #[trigger] events[i] != EngineEvent::Bailout,
    ensures
        outcome == Some(Ok::<(), ()>(())),
        calls_made(events) == seq![
            EngineCall::RequestStartup,
            EngineCall::ExecuteScript,
            EngineCall::DestroyFileHandle,
            EngineCall::RequestShutdown,
        ],
{
    lemma_no_event(events);
    lemma_next_event(events, 0);
    lemma_next_event(events, 1);
    lemma_next_event(events, 2);
    lemma_next_event(events, 3);
    assert(events[1] != EngineEvent::Bailout);
    assert(events[2] != EngineEvent::Bailout);
    assert(events[3] != EngineEvent::Bailout);
    lemma_over_is_over(events, 4);
    assert(calls_made(events) =~= seq![
        EngineCall::RequestStartup,
        EngineCall::ExecuteScript,
        EngineCall::DestroyFileHandle,
        EngineCall::RequestShutdown,
    ]);
}

/// A request whose start fails has its file handle released and fails.
pub proof fn law_failed_start_releases_the_file(
    events: Seq<EngineEvent>,
    run: &Execution,
    outcome: Option<Result<(), ()>>,
)
    requires
        run.stage == stage_after(events),
        call_ensures(Execution::outcome, (run,), outcome),
        events.len() >= 2,
        events[0] == EngineEvent::Failed,
    ensures
        outcome == Some(Err::<(), ()>(())),
        calls_made(events) == seq![EngineCall::RequestStartup, EngineCall::DestroyFileHandle],
{
    lemma_no_event(events);
    lemma_next_event(events, 0);
    lemma_next_event(events, 1);
    lemma_over_is_over(events, 2);
    assert(calls_made(events) =~= seq![
        EngineCall::RequestStartup,
        EngineCall::DestroyFileHandle,
    ]);
}

/// Whether the start succeeded and no call bailed out before the call at `at`, which did.
pub open spec fn bails_out_at(events: Seq<EngineEvent>, at: int) -> bool {
    &&& 0 <= at < events.len()
    &&& at > 0 ==> events[0] == EngineEvent::Returned
    &&& forall|i: int| 0 <= i < at ==> #[trigger] events[i] != EngineEvent::Bailout
    &&& events[at] == EngineEvent::Bailout
}

proof fn lemma_until_bailout(events: Seq<EngineEvent>, at: int)
    requires
        bails_out_at(events, at),
        at <= 3,
    ensures
        calls_made(events.take(at + 1)) == regular_calls().take(at + 1),
        at < 3 ==> stage_after(events.take(at + 1)) == Stage::RecoverRelease,
        at == 3 ==> stage_after(events.take(at + 1)) == Stage::Broken,
{
    lemma_no_event(events);
    lemma_next_event(events, 0);
    if at > 0 {
        lemma_next_event(events, 1);
        if at > 1 {
            assert(events[1] != EngineEvent::Bailout);
            lemma_next_event(events, 2);
            if at > 2 {
                assert(events[2] != EngineEvent::Bailout);
                lemma_next_event(events, 3);
            }
        }
    }
    assert(calls_made(events.take(at + 1)) =~= regular_calls().take(at + 1));
}

/// When the engine bails out before the request is being ended, the file handle is released and
/// the request is ended after all, the latter unless the release bails out too. When it bails
/// out of the ending itself, nothing is made up for. Either way the request fails.
pub proof fn law_bailout_is_recovered_from(
    events: Seq<EngineEvent>,
    at: int,
    run: &Execution,
    outcome: Option<Result<(), ()>>,
)
    requires
        run.stage == stage_after(events),
        call_ensures(Execution::outcome, (run,), outcome),
        bails_out_at(events, at),
        at <= 3,
        at < 3 ==> events.len() >= at + 3,
    ensures
        outcome == Some(Err::<(), ()>(())),
        at == 3 ==> calls_made(events) == regular_calls(),
        at < 3 && events[at + 1] == EngineEvent::Bailout ==> calls_made(events)
            == regular_calls().take(at + 1).push(EngineCall::DestroyFileHandle),
        at < 3 && events[at + 1] != EngineEvent::Bailout ==> calls_made(events)
            == regular_calls().take(at + 1).push(EngineCall::DestroyFileHandle).push(
            EngineCall::RequestShutdown,
        ),
{
    lemma_until_bailout(events, at);
    if at == 3 {
        lemma_over_is_over(events, 4);
        assert(calls_made(events) =~= regular_calls());
    } else {
        lemma_next_event(events, at + 1);
        if events[at + 1] == EngineEvent::Bailout {
            lemma_over_is_over(events, at + 2);
        } else {
            lemma_next_event(events, at + 2);
            lemma_over_is_over(events, at + 3);
        }
    }
}

/// The calls of an undisturbed run are made under one guard. What a bailout calls for is made
/// under a guard of its own, and the release after a failed start under none.
pub proof fn law_bailouts_are_guarded_against(
    events: Seq<EngineEvent>,
    run: &Execution,
    guard: Option<Guard>,
)
    requires
        run.stage == stage_after(events),
        call_ensures(Execution::guard, (run,), guard),
        0 < events.len() <= 4,
    ensures
        events.len() < 4 && events[0] == EngineEvent::Returned && (forall|i: int|
            0 <= i < events.len() ==> #[trigger] events[i] != EngineEvent::Bailout) ==> guard
            == Some(Guard::Run),
        events.len() == 1 && events[0] == EngineEvent::Failed ==> guard == Some(Guard::Bare),
        events.len() <= 3 && bails_out_at(events, events.len() - 1) ==> guard == Some(
            Guard::Recovery,
        ),
        events.len() == 4 && bails_out_at(events, 3) ==> guard is None,
        events.len() > 1 && events.len() <= 4 && bails_out_at(events, events.len() - 2)
            && events.last() != EngineEvent::Bailout ==> guard == Some(Guard::Recovery),
{
    lemma_no_event(events);
    lemma_next_event(events, 0);
    if events.len() > 1 {
        lemma_next_event(events, 1);
    }
    if events.len() > 2 {
        lemma_next_event(events, 2);
    }
    if events.len() > 3 {
        lemma_next_event(events, 3);
    }
    assert(events.take(events.len() as int) =~= events);
    if bails_out_at(events, events.len() - 1) {
        lemma_until_bailout(events, events.len() - 1);
    }
    if events.len() > 1 && bails_out_at(events, events.len() - 2) {
        lemma_until_bailout(events, events.len() - 2);
    }
    if events[0] == EngineEvent::Returned && forall|i: int|
        0 <= i < events.len() ==> #[trigger] events[i] != EngineEvent::Bailout {
        if events.len() > 1 {
            assert(events[1] != EngineEvent::Bailout);
        }
        if events.len() > 2 {
            assert(events[2] != EngineEvent::Bailout);
        }
    }
}

/// While a call is pending the request has not ended either way, and there is a guard for the
/// call; once none is, it has, and there is none.
pub proof fn law_request_is_over_when_nothing_is_pending(
    run: &Execution,
    call: Option<EngineCall>,
    guard: Option<Guard>,
    outcome: Option<Result<(), ()>>,
)
    requires
        call_ensures(Execution::pending, (run,), call),
        call_ensures(Execution::guard, (run,), guard),
        call_ensures(Execution::outcome, (run,), outcome),
    ensures
        call is Some <==> guard is Some,
        call is Some <==> outcome is None,
{
}

} // verus!
