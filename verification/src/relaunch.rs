//! Restarting the desktop program with a theme: the order of the steps, and what ends them.

use crate::error::{fault, AppError, ErrorModel};
use crate::outside::maybe;
use crate::platform::{
    budget, restart_failure, restart_next, stop_round, stop_swept, Installation,
    InstallationModel, Restart, RestartAction, RestartEvent, RestartEventModel, RestartModel,
    StopAction, StopModel, STOP_MILLIS,
};
use vstd::prelude::*;

verus! {

/// What to do next for a restart.
#[derive(Debug)]
pub enum Stage {
    /// Find the installation.
    Discover,
    /// Wait so many milliseconds, then begin a round of stopping that installation.
    Wait(Installation, u64),
    /// Send the signal of [`stop_signal`](crate::platform::stop_signal) to each process of the
    /// installation.
    Sweep(Installation),
    /// Start the installation, with its debugging port.
    Start(Installation),
    /// Wait so many milliseconds, then begin a round of theming.
    Pause(u64),
    /// Ask whether the program answers on its port.
    Check,
    /// Inject, within so many milliseconds.
    Inject(u64),
    /// The theme is in, or will not be.
    Done(Result<(), AppError>),
}

/// What a [`Stage`] says.
pub enum StageModel {
    Discover,
    Wait(InstallationModel, u64),
    Sweep(InstallationModel),
    Start(InstallationModel),
    Pause(u64),
    Check,
    Inject(u64),
    Done(Option<ErrorModel>),
}

impl View for Stage {
    type V = StageModel;

    open spec fn view(&self) -> StageModel {
        match self {
            Stage::Discover => StageModel::Discover,
            Stage::Wait(installation, pause) => StageModel::Wait(installation@, *pause),
            Stage::Sweep(installation) => StageModel::Sweep(installation@),
            Stage::Start(installation) => StageModel::Start(installation@),
            Stage::Pause(pause) => StageModel::Pause(*pause),
            Stage::Check => StageModel::Check,
            Stage::Inject(time) => StageModel::Inject(*time),
            Stage::Done(outcome) => StageModel::Done(fault(*outcome)),
        }
    }
}

/// What happened during a restart.
#[derive(Debug)]
pub enum RelaunchEvent {
    /// The installation to use, or why there is none.
    Discovered(Result<Installation, AppError>),
    /// A round of stopping begins, so many milliseconds after the first.
    StopRound(u64),
    /// Whether a sweep met any process.
    Swept(Result<bool, AppError>),
    /// How starting went.
    Started(Result<(), AppError>),
    /// What happened while the started program was being themed.
    Themed(RestartEvent),
}

/// What a [`RelaunchEvent`] tells.
pub enum RelaunchEventModel {
    Discovered(Result<InstallationModel, ErrorModel>),
    StopRound(u64),
    Swept(Result<bool, ErrorModel>),
    Started(Option<ErrorModel>),
    Themed(RestartEventModel),
}

impl View for RelaunchEvent {
    type V = RelaunchEventModel;

    open spec fn view(&self) -> RelaunchEventModel {
        match self {
            RelaunchEvent::Discovered(Ok(installation)) => RelaunchEventModel::Discovered(
                Ok(installation@),
            ),
            RelaunchEvent::Discovered(Err(error)) => RelaunchEventModel::Discovered(Err(error@)),
            RelaunchEvent::StopRound(elapsed) => RelaunchEventModel::StopRound(*elapsed),
            RelaunchEvent::Swept(Ok(found)) => RelaunchEventModel::Swept(Ok(*found)),
            RelaunchEvent::Swept(Err(error)) => RelaunchEventModel::Swept(Err(error@)),
            RelaunchEvent::Started(outcome) => RelaunchEventModel::Started(fault(*outcome)),
            RelaunchEvent::Themed(event) => RelaunchEventModel::Themed(event@),
        }
    }
}

/// A restart under way.
#[derive(Debug)]
pub struct Relaunch {
    pub stage: Stage,
    pub restart: Restart,
}

/// What a [`Relaunch`] stands at.
pub struct RelaunchModel {
    pub stage: StageModel,
    /// How long the theming may take, in milliseconds.
    pub timeout: u64,
    /// Why the last injection did not succeed.
    pub last_error: Option<Seq<char>>,
}

impl View for Relaunch {
    type V = RelaunchModel;

    open spec fn view(&self) -> RelaunchModel {
        RelaunchModel {
            stage: self.stage@,
            timeout: self.restart.timeout,
            last_error: maybe(self.restart.last_error),
        }
    }
}

/// The stage that an action of the theming stands for.
pub open spec fn theming(action: RestartModel) -> StageModel {
    match action {
        RestartModel::Check => StageModel::Check,
        RestartModel::Inject(time) => StageModel::Inject(time),
        RestartModel::Pause(pause) => StageModel::Pause(pause),
        RestartModel::Finish(outcome) => StageModel::Done(outcome),
    }
}

/// Whether an event of the theming answers a stage.
pub open spec fn answers(stage: StageModel, event: RestartEventModel) -> bool {
    match event {
        RestartEventModel::Round(_) => stage is Pause,
        RestartEventModel::Ready(_, _) => stage is Check,
        RestartEventModel::Injected(_) => stage is Inject,
    }
}

/// What the user reads when the program did not stop.
pub open spec fn not_stopped() -> ErrorModel {
    ErrorModel::Message("Codex 未能完全退出，请重试。"@)
}

impl RelaunchModel {
    /// The same restart at another stage.
    pub open spec fn at(self, stage: StageModel) -> RelaunchModel {
        RelaunchModel { stage, ..self }
    }
}

/// A restart at its beginning.
pub open spec fn relaunch_begun(timeout: u64) -> RelaunchModel {
    RelaunchModel { stage: StageModel::Discover, timeout, last_error: None }
}

/// What an event leads to. One that does not answer the stage changes nothing.
pub open spec fn relaunch_next(state: RelaunchModel, event: RelaunchEventModel) -> RelaunchModel {
    match (state.stage, event) {
        (StageModel::Discover, RelaunchEventModel::Discovered(Ok(installation))) => state.at(
            StageModel::Wait(installation, 0),
        ),
        (StageModel::Discover, RelaunchEventModel::Discovered(Err(error))) => state.at(
            StageModel::Done(Some(error)),
        ),
        (StageModel::Wait(installation, _), RelaunchEventModel::StopRound(elapsed)) => state.at(
            if elapsed < STOP_MILLIS {
                StageModel::Sweep(installation)
            } else {
                StageModel::Done(Some(not_stopped()))
            },
        ),
        (StageModel::Sweep(installation), RelaunchEventModel::Swept(Ok(found))) => state.at(
            if found {
                StageModel::Wait(installation, 250)
            } else {
                StageModel::Start(installation)
            },
        ),
        (StageModel::Sweep(_), RelaunchEventModel::Swept(Err(error))) => state.at(
            StageModel::Done(Some(error)),
        ),
        (StageModel::Start(_), RelaunchEventModel::Started(None)) => state.at(
            StageModel::Pause(0),
        ),
        (StageModel::Start(_), RelaunchEventModel::Started(Some(error))) => state.at(
            StageModel::Done(Some(error)),
        ),
        (stage, RelaunchEventModel::Themed(themed)) => if answers(stage, themed) {
            let (last_error, action) = restart_next(state.timeout, state.last_error, themed);
            RelaunchModel { stage: theming(action), timeout: state.timeout, last_error }
        } else {
            state
        },
        _ => state,
    }
}

/// A restart whose theming may take so many milliseconds.
pub fn begin_relaunch(timeout: u64) -> (r: Relaunch)
    ensures
        r@ == relaunch_begun(timeout),
{
    Relaunch { stage: Stage::Discover, restart: Restart { timeout, last_error: None } }
}

fn theme_step(restart: Restart, event: RestartEvent) -> (r: Relaunch)
    ensures
        ({
            let (last_error, action) = restart_next(
                restart.timeout,
                maybe(restart.last_error),
                event@,
            );
            r@ == RelaunchModel { stage: theming(action), timeout: restart.timeout, last_error }
        }),
{
    let mut restart = restart;
    let stage = match restart.restart_and_inject(event) {
        RestartAction::Check => Stage::Check,
        RestartAction::Inject(time) => Stage::Inject(time),
        RestartAction::Pause(pause) => Stage::Pause(pause),
        RestartAction::Finish(outcome) => Stage::Done(outcome),
    };
    Relaunch { stage, restart }
}

fn stop_step(installation: Installation, action: StopAction) -> (r: Stage)
    ensures
        r@ == (match action@ {
            StopModel::Sweep => StageModel::Sweep(installation@),
            StopModel::Pause(pause) => StageModel::Wait(installation@, pause),
            StopModel::Finish(None) => StageModel::Start(installation@),
            StopModel::Finish(Some(error)) => StageModel::Done(Some(error)),
        }),
{
    match action {
        StopAction::Sweep => Stage::Sweep(installation),
        StopAction::Pause(pause) => Stage::Wait(installation, pause),
        StopAction::Finish(Ok(())) => Stage::Start(installation),
        StopAction::Finish(Err(error)) => Stage::Done(Err(error)),
    }
}

/// Takes a restart one event further.
pub fn relaunch(state: Relaunch, event: RelaunchEvent) -> (r: Relaunch)
    ensures
        r@ == relaunch_next(state@, event@),
{
    let Relaunch { stage, restart } = state;
    match (stage, event) {
        (Stage::Discover, RelaunchEvent::Discovered(Ok(installation))) => Relaunch {
            stage: Stage::Wait(installation, 0),
            restart,
        },
        (Stage::Discover, RelaunchEvent::Discovered(Err(error))) => Relaunch {
            stage: Stage::Done(Err(error)),
            restart,
        },
        (Stage::Wait(installation, _), RelaunchEvent::StopRound(elapsed)) => Relaunch {
            stage: stop_step(installation, stop_round(elapsed)),
            restart,
        },
        (Stage::Sweep(installation), RelaunchEvent::Swept(Ok(found))) => Relaunch {
            stage: stop_step(installation, stop_swept(found)),
            restart,
        },
        (Stage::Sweep(_), RelaunchEvent::Swept(Err(error))) => Relaunch {
            stage: Stage::Done(Err(error)),
            restart,
        },
        (Stage::Start(_), RelaunchEvent::Started(Ok(()))) => Relaunch {
            stage: Stage::Pause(0),
            restart,
        },
        (Stage::Start(_), RelaunchEvent::Started(Err(error))) => Relaunch {
            stage: Stage::Done(Err(error)),
            restart,
        },
        (Stage::Pause(_), RelaunchEvent::Themed(RestartEvent::Round(now))) => theme_step(
            restart,
            RestartEvent::Round(now),
        ),
        (Stage::Check, RelaunchEvent::Themed(RestartEvent::Ready(ready, now))) => theme_step(
            restart,
            RestartEvent::Ready(ready, now),
        ),
        (Stage::Inject(_), RelaunchEvent::Themed(RestartEvent::Injected(outcome))) => theme_step(
            restart,
            RestartEvent::Injected(outcome),
        ),
        (stage, _) => Relaunch { stage, restart },
    }
}

/// Where a restart stands after these events.
pub open spec fn relaunched(timeout: u64, events: Seq<RelaunchEventModel>) -> RelaunchModel
    decreases events.len(),
{
    if events.len() == 0 {
        relaunch_begun(timeout)
    } else {
        relaunch_next(relaunched(timeout, events.drop_last()), events.last())
    }
}

/// The stage of a restart before the event of that number.
pub open spec fn stage_at(timeout: u64, events: Seq<RelaunchEventModel>, k: int) -> StageModel {
    relaunched(timeout, events.take(k)).stage
}

/// Whether the event of that number is a sweep of the installation that met no process.
pub open spec fn seen_gone(
    timeout: u64,
    events: Seq<RelaunchEventModel>,
    k: int,
    installation: InstallationModel,
) -> bool {
    &&& 0 <= k < events.len()
    &&& stage_at(timeout, events, k) == StageModel::Sweep(installation)
    &&& events[k] == RelaunchEventModel::Swept(Ok(false))
}

/// Whether the event of that number is a successful start.
pub open spec fn started(timeout: u64, events: Seq<RelaunchEventModel>, k: int) -> bool {
    &&& 0 <= k < events.len()
    &&& stage_at(timeout, events, k) is Start
    &&& events[k] == RelaunchEventModel::Started(None)
}

/// Whether the event of that number tells that the program answers on its port, at a moment that
/// leaves that much time for an injection.
pub open spec fn answered(timeout: u64, events: Seq<RelaunchEventModel>, k: int, time: u64) -> bool {
    &&& 0 <= k < events.len()
    &&& stage_at(timeout, events, k) is Check
    &&& events[k] matches RelaunchEventModel::Themed(RestartEventModel::Ready(true, now)) && time
        == budget(now, timeout) && now + time <= timeout
}

/// Whether the event of that number is an injection that took on a page.
pub open spec fn took(timeout: u64, events: Seq<RelaunchEventModel>, k: int) -> bool {
    &&& 0 <= k < events.len()
    &&& stage_at(timeout, events, k) is Inject
    &&& events[k] matches RelaunchEventModel::Themed(RestartEventModel::Injected(Ok(outcome)))
        && outcome.applied > 0
}

/// Whether the event of that number ends the restart with that error: a step failed with it, or
/// the time for stopping or theming ran out.
pub open spec fn failed(
    timeout: u64,
    events: Seq<RelaunchEventModel>,
    k: int,
    error: ErrorModel,
) -> bool {
    &&& 0 <= k < events.len()
    &&& match (stage_at(timeout, events, k), events[k]) {
        (StageModel::Discover, RelaunchEventModel::Discovered(Err(e))) => e == error,
        (StageModel::Wait(_, _), RelaunchEventModel::StopRound(elapsed)) => elapsed >= STOP_MILLIS
            && error == not_stopped(),
        (StageModel::Sweep(_), RelaunchEventModel::Swept(Err(e))) => e == error,
        (StageModel::Start(_), RelaunchEventModel::Started(Some(e))) => e == error,
        (StageModel::Pause(_), RelaunchEventModel::Themed(RestartEventModel::Round(now))) => now
            >= timeout && error == restart_failure(
            relaunched(timeout, events.take(k)).last_error,
        ),
        _ => false,
    }
}

proof fn timeout_is_kept(timeout: u64, events: Seq<RelaunchEventModel>)
    ensures
        relaunched(timeout, events).timeout == timeout,
    decreases events.len(),
{
    if events.len() > 0 {
        timeout_is_kept(timeout, events.drop_last());
    }
}

/// The last of the events leads on from where the others led, and what stands before an event is
/// the same with and without the last.
proof fn one_event_more(timeout: u64, events: Seq<RelaunchEventModel>)
    requires
        events.len() > 0,
    ensures
        stage_at(timeout, events, events.len() - 1) == relaunched(timeout, events.drop_last()).stage,
        relaunched(timeout, events.take(events.len() - 1)) == relaunched(
            timeout,
            events.drop_last(),
        ),
        forall|k: int|
            0 <= k < events.len() ==> #[trigger] events.take(k) == events.drop_last().take(k),
        relaunched(timeout, events) == relaunch_next(
            relaunched(timeout, events.drop_last()),
            events.last(),
        ),
        relaunched(timeout, events.drop_last()).timeout == timeout,
{
    let before = events.drop_last();
    assert(events.take(events.len() - 1) =~= before);
    assert forall|k: int| 0 <= k < events.len() implies #[trigger] events.take(k) == before.take(
        k,
    ) by {
        assert(events.take(k) =~= before.take(k));
    }
    timeout_is_kept(timeout, before);
}

/// The program is started only after a sweep of the same installation that met no process of
/// it: the earlier program has been seen to be gone.
pub proof fn starts_after_exit(
    timeout: u64,
    events: Seq<RelaunchEventModel>,
    installation: InstallationModel,
)
    requires
        relaunched(timeout, events).stage == StageModel::Start(installation),
    ensures
        exists|k: int| seen_gone(timeout, events, k, installation),
    decreases events.len(),
{
    if events.len() > 0 {
        let before = events.drop_last();
        one_event_more(timeout, events);
        if relaunched(timeout, before).stage == StageModel::Start(installation) {
            starts_after_exit(timeout, before, installation);
            let k = choose|k: int| seen_gone(timeout, before, k, installation);
            assert(events.take(k) == before.take(k));
            assert(seen_gone(timeout, events, k, installation));
        } else {
            assert(seen_gone(timeout, events, events.len() - 1, installation));
        }
    }
}

/// Nothing is asked of the program's port, and nothing injected, before a start that succeeded;
/// nor does a restart succeed without one.
pub proof fn themes_after_start(timeout: u64, events: Seq<RelaunchEventModel>)
    requires
        match relaunched(timeout, events).stage {
            StageModel::Pause(_) => true,
            StageModel::Check => true,
            StageModel::Inject(_) => true,
            StageModel::Done(None) => true,
            _ => false,
        },
    ensures
        exists|k: int| started(timeout, events, k),
    decreases events.len(),
{
    if events.len() > 0 {
        let before = events.drop_last();
        one_event_more(timeout, events);
        if relaunched(timeout, before).stage is Start {
            assert(started(timeout, events, events.len() - 1));
        } else {
            themes_after_start(timeout, before);
            let k = choose|k: int| started(timeout, before, k);
            assert(events.take(k) == before.take(k));
            assert(started(timeout, events, k));
        }
    }
}

/// An injection is made only after the program answered on its port; it gets some time, ten
/// seconds at most, and none beyond the time for the whole.
pub proof fn injects_when_answered(timeout: u64, events: Seq<RelaunchEventModel>, time: u64)
    requires
        relaunched(timeout, events).stage == StageModel::Inject(time),
    ensures
        0 < time <= 10000,
        exists|k: int| answered(timeout, events, k, time),
    decreases events.len(),
{
    if events.len() > 0 {
        let before = events.drop_last();
        one_event_more(timeout, events);
        if relaunched(timeout, before).stage == StageModel::Inject(time) {
            injects_when_answered(timeout, before, time);
            let k = choose|k: int| answered(timeout, before, k, time);
            assert(events.take(k) == before.take(k));
            assert(answered(timeout, events, k, time));
        } else {
            assert(answered(timeout, events, events.len() - 1, time));
        }
    }
}

/// A restart that has ended stays as it is: no later step runs.
pub proof fn ended_restarts_stay(timeout: u64, events: Seq<RelaunchEventModel>, k: int)
    requires
        0 <= k <= events.len(),
        stage_at(timeout, events, k) is Done,
    ensures
        relaunched(timeout, events).stage == stage_at(timeout, events, k),
    decreases events.len(),
{
    if k == events.len() {
        assert(events.take(k) =~= events);
    } else {
        one_event_more(timeout, events);
        assert(events.take(k) == events.drop_last().take(k));
        ended_restarts_stay(timeout, events.drop_last(), k);
    }
}

/// A restart succeeds if and only if some injection took on a page.
pub proof fn restarts_succeed(timeout: u64, events: Seq<RelaunchEventModel>)
    ensures
        relaunched(timeout, events).stage == StageModel::Done(None) <==> exists|k: int|
            took(timeout, events, k),
    decreases events.len(),
{
    if events.len() > 0 {
        let before = events.drop_last();
        let last = events.len() - 1;
        one_event_more(timeout, events);
        restarts_succeed(timeout, before);
        if relaunched(timeout, events).stage == StageModel::Done(None) {
            if relaunched(timeout, before).stage == StageModel::Done(None) {
                let k = choose|k: int| took(timeout, before, k);
                assert(events.take(k) == before.take(k));
                assert(took(timeout, events, k));
            } else {
                assert(took(timeout, events, last));
            }
        }
        if exists|k: int| took(timeout, events, k) {
            let k = choose|k: int| took(timeout, events, k);
            if k < last {
                assert(events.take(k) == before.take(k));
                assert(took(timeout, before, k));
            }
        }
    }
}

/// A restart fails with an error if and only if a step failed with it or the time ran out: an
/// error of finding, stopping or starting the program is the outcome as it came.
pub proof fn restarts_fail(timeout: u64, events: Seq<RelaunchEventModel>, error: ErrorModel)
    ensures
        relaunched(timeout, events).stage == StageModel::Done(Some(error)) <==> exists|k: int|
            failed(timeout, events, k, error),
    decreases events.len(),
{
    if events.len() > 0 {
        let before = events.drop_last();
        let last = events.len() - 1;
        one_event_more(timeout, events);
        restarts_fail(timeout, before, error);
        if relaunched(timeout, events).stage == StageModel::Done(Some(error)) {
            if relaunched(timeout, before).stage == StageModel::Done(Some(error)) {
                let k = choose|k: int| failed(timeout, before, k, error);
                assert(events.take(k) == before.take(k));
                assert(failed(timeout, events, k, error));
            } else {
                assert(failed(timeout, events, last, error));
            }
        }
        if exists|k: int| failed(timeout, events, k, error) {
            let k = choose|k: int| failed(timeout, events, k, error);
            if k < last {
                assert(events.take(k) == before.take(k));
                assert(failed(timeout, before, k, error));
            }
        }
    }
}

} // verus!
