//! What holds of finding, stopping, starting and theming the desktop program, in the plainest
//! terms.

use crate::cdp::{InjectionOutcome, DEBUG_PORT};
use crate::error::{AppError, ErrorModel};
use crate::macos_platform::{
    first_named, idle, place_models, runs_by, Bundle, Place, EXECUTABLE_NAMES,
};
use crate::platform::{
    restart_next, Installation, InstallationModel, RestartEvent, RestartEventModel, RestartModel,
    KILL_MILLIS, STOP_MILLIS,
};
use crate::relaunch::{
    relaunch_begun, relaunch_next, Relaunch, RelaunchEvent, RelaunchEventModel, RelaunchModel,
    Stage, StageModel,
};
use crate::text::{lower, occurs, replaced, texts};
use crate::text_laws::occurrences_cut;
use crate::windows_platform::{
    below, earlier, first_found, found, installation_of, located_installation, location_models,
    manifest_names, named_executable, newest, run_arguments, start_of, store_package, usual_places,
    Candidate, Located, Location, Start, StartModel, EXECUTABLE_LOCATIONS, LOCAL_LOCATIONS,
    MANIFEST_PATTERN, PROGRAM_LOCATIONS,
};
use vstd::prelude::*;

verus! {

/// A round of theming goes by the clock: before the time is over the program is asked whether it
/// answers; after that the restart is given up, with the last error, if there was any.
pub proof fn rounds_go_by_the_clock(timeout: u64, last_error: Option<Seq<char>>, now: u64)
    ensures
        now < timeout ==> restart_next(timeout, last_error, RestartEventModel::Round(now)) == (
            last_error,
            RestartModel::Check,
        ),
        now >= timeout ==> restart_next(timeout, last_error, RestartEventModel::Round(now)) == (
            last_error,
            RestartModel::Finish(
                Some(
                    ErrorModel::Message(
                        "Codex 已启动，但主题未能在 90 秒内完成 CDP 注入："@
                            + match last_error {
                            Some(text) => text,
                            None => "未检测到本机 127.0.0.1:9229 调试端口；请确认 Codex 未被安全软件阻止启动。"@,
                        },
                    ),
                ),
            ),
        ),
{
}

/// Whenever the program answers on its port before the time is over, the theme is injected, for
/// what is left of the time but at most ten seconds, whatever the last error was. Where it does
/// not answer, or the time is over, the next round comes half a second later.
pub proof fn every_answer_is_used(
    timeout: u64,
    last_error: Option<Seq<char>>,
    other: Option<Seq<char>>,
    ready: bool,
    now: u64,
)
    ensures
        ready && now < timeout ==> restart_next(
            timeout,
            last_error,
            RestartEventModel::Ready(ready, now),
        ).1 == RestartModel::Inject(
            if timeout - now <= 10000 {
                (timeout - now) as u64
            } else {
                10000
            },
        ),
        !ready || now >= timeout ==> restart_next(
            timeout,
            last_error,
            RestartEventModel::Ready(ready, now),
        ).1 == RestartModel::Pause(500),
        restart_next(timeout, last_error, RestartEventModel::Ready(ready, now)).0 == last_error,
        restart_next(timeout, last_error, RestartEventModel::Ready(ready, now)).1 == restart_next(
            timeout,
            other,
            RestartEventModel::Ready(ready, now),
        ).1,
{
}

/// An injection that took on a page ends the restart; any other is followed by another round half
/// a second later, and its reason is kept.
pub proof fn injections_are_judged(
    timeout: u64,
    last_error: Option<Seq<char>>,
    outcome: InjectionOutcome,
    error: ErrorModel,
)
    ensures
        outcome.applied > 0 ==> restart_next(
            timeout,
            last_error,
            RestartEventModel::Injected(Ok(outcome)),
        ).1 == RestartModel::Finish(None),
        outcome.applied == 0 ==> restart_next(
            timeout,
            last_error,
            RestartEventModel::Injected(Ok(outcome)),
        ) == (
            Some(
                if outcome.candidates == 0 {
                    "Codex 主窗口尚未完成初始化。"@
                } else {
                    "当前 Codex 页面结构暂不受支持，请更新 Codex-Skin。"@
                },
            ),
            RestartModel::Pause(500),
        ),
        restart_next(timeout, last_error, RestartEventModel::Injected(Err(error))) == (
            Some(error.text()),
            RestartModel::Pause(500),
        ),
{
}

/// The text of an error is the text that it holds, whatever its kind.
pub proof fn errors_hold_their_texts(text: Seq<char>, error: AppError)
    ensures
        ErrorModel::Message(text).text() == text,
        ErrorModel::Io(text).text() == text,
        ErrorModel::Json(text).text() == text,
        ErrorModel::Http(text).text() == text,
        error matches AppError::Message(held) ==> error@ == ErrorModel::Message(held@),
        error matches AppError::Io(held) ==> error@ == ErrorModel::Io(held@),
        error matches AppError::Json(held) ==> error@ == ErrorModel::Json(held@),
        error matches AppError::Http(held) ==> error@ == ErrorModel::Http(held@),
{
}

/// One round of theming: when it began, whether and when the program answered, and what came of
/// an injection, where one was made.
pub struct Round {
    pub at: u64,
    pub ready: bool,
    pub answered: u64,
    pub outcome: Result<InjectionOutcome, ErrorModel>,
}

impl Round {
    /// Whether the round's injection takes on a page.
    pub open spec fn takes(self, timeout: u64) -> bool {
        &&& self.ready
        &&& self.answered < timeout
        &&& self.outcome matches Ok(outcome) && outcome.applied > 0
    }
}

/// Where a restart stands after a round.
pub open spec fn after_round(state: RelaunchModel, round: Round) -> RelaunchModel {
    let begun = relaunch_next(
        state,
        RelaunchEventModel::Themed(RestartEventModel::Round(round.at)),
    );
    let asked = relaunch_next(
        begun,
        RelaunchEventModel::Themed(RestartEventModel::Ready(round.ready, round.answered)),
    );
    relaunch_next(asked, RelaunchEventModel::Themed(RestartEventModel::Injected(round.outcome)))
}

/// Where a restart stands after some rounds.
pub open spec fn after_rounds(state: RelaunchModel, rounds: Seq<Round>) -> RelaunchModel
    decreases rounds.len(),
{
    if rounds.len() == 0 {
        state
    } else {
        after_rounds(after_round(state, rounds[0]), rounds.skip(1))
    }
}

/// The theme is tried again as often as the time allows: however many rounds were in vain, and
/// for whatever reason, the restart succeeds with the first round whose injection takes; and it
/// goes on as long as none does.
pub proof fn restarts_try_again(state: RelaunchModel, rounds: Seq<Round>)
    requires
        state.stage is Pause,
        forall|i: int| 0 <= i < rounds.len() ==> (#[trigger] rounds[i]).at < state.timeout,
    ensures
        (exists|i: int| 0 <= i < rounds.len() && (#[trigger] rounds[i]).takes(state.timeout))
            ==> after_rounds(state, rounds).stage == StageModel::Done(None),
        (forall|i: int| 0 <= i < rounds.len() ==> !(#[trigger] rounds[i]).takes(state.timeout))
            ==> after_rounds(state, rounds).stage is Pause,
    decreases rounds.len(),
{
    if rounds.len() > 0 {
        let rest = rounds.skip(1);
        let next = after_round(state, rounds[0]);
        assert(rounds[0].at < state.timeout);
        assert(next.timeout == state.timeout);
        assert forall|i: int| 0 <= i < rest.len() implies (#[trigger] rest[i]).at
            < next.timeout by {
            assert(rest[i] == rounds[i + 1]);
        }
        if rounds[0].takes(state.timeout) {
            assert(next.stage == StageModel::Done(None));
            done_rounds(next, rest);
        } else {
            assert(next.stage is Pause);
            restarts_try_again(next, rest);
            if exists|i: int| 0 <= i < rounds.len() && (#[trigger] rounds[i]).takes(state.timeout) {
                let i = choose|i: int|
                    0 <= i < rounds.len() && (#[trigger] rounds[i]).takes(state.timeout);
                assert(rest[i - 1].takes(next.timeout));
            }
            if forall|i: int|
                0 <= i < rounds.len() ==> !(#[trigger] rounds[i]).takes(state.timeout) {
                assert forall|i: int| 0 <= i < rest.len() implies !(#[trigger] rest[i]).takes(
                    next.timeout,
                ) by {
                    assert(rest[i] == rounds[i + 1]);
                }
            }
        }
    }
}

proof fn done_rounds(state: RelaunchModel, rounds: Seq<Round>)
    requires
        state.stage is Done,
    ensures
        after_rounds(state, rounds) == state,
    decreases rounds.len(),
{
    if rounds.len() > 0 {
        assert(after_round(state, rounds[0]) == state);
        done_rounds(state, rounds.skip(1));
    }
}

/// A restart goes from finding the installation over stopping it and starting it to theming it,
/// each step with the installation that was found: it waits a quarter of a second between sweeps,
/// for fifteen seconds in all.
pub proof fn restarts_go_on(
    state: RelaunchModel,
    installation: InstallationModel,
    elapsed: u64,
    pause: u64,
)
    ensures
        ({
            let at = |stage: StageModel| RelaunchModel { stage, ..state };
            &&& relaunch_next(
                at(StageModel::Discover),
                RelaunchEventModel::Discovered(Ok(installation)),
            ) == at(StageModel::Wait(installation, 0))
            &&& elapsed < 15000 ==> relaunch_next(
                at(StageModel::Wait(installation, pause)),
                RelaunchEventModel::StopRound(elapsed),
            ) == at(StageModel::Sweep(installation))
            &&& elapsed >= 15000 ==> relaunch_next(
                at(StageModel::Wait(installation, pause)),
                RelaunchEventModel::StopRound(elapsed),
            ) == at(
                StageModel::Done(
                    Some(ErrorModel::Message("Codex 未能完全退出，请重试。"@)),
                ),
            )
            &&& relaunch_next(
                at(StageModel::Sweep(installation)),
                RelaunchEventModel::Swept(Ok(true)),
            ) == at(StageModel::Wait(installation, 250))
            &&& relaunch_next(
                at(StageModel::Sweep(installation)),
                RelaunchEventModel::Swept(Ok(false)),
            ) == at(StageModel::Start(installation))
            &&& relaunch_next(
                at(StageModel::Start(installation)),
                RelaunchEventModel::Started(None),
            ) == at(StageModel::Pause(0))
        }),
{
}

/// A restart that is being themed asks, injects, pauses and ends as the theming says.
pub proof fn theming_is_followed(
    state: RelaunchModel,
    event: RestartEventModel,
    pause: u64,
    time: u64,
)
    ensures
        ({
            let (last_error, action) = restart_next(state.timeout, state.last_error, event);
            let awaited = match event {
                RestartEventModel::Round(_) => StageModel::Pause(pause),
                RestartEventModel::Ready(_, _) => StageModel::Check,
                RestartEventModel::Injected(_) => StageModel::Inject(time),
            };
            let next = relaunch_next(
                RelaunchModel { stage: awaited, ..state },
                RelaunchEventModel::Themed(event),
            );
            &&& next.last_error == last_error
            &&& next.timeout == state.timeout
            &&& action is Check ==> next.stage is Check
            &&& action matches RestartModel::Inject(given) ==> next.stage == StageModel::Inject(
                given,
            )
            &&& action matches RestartModel::Pause(given) ==> next.stage == StageModel::Pause(given)
            &&& action matches RestartModel::Finish(outcome) ==> next.stage == StageModel::Done(
                outcome,
            )
        }),
{
}

/// The program has fifteen seconds to stop, and is killed from the tenth on; it is asked on port
/// 9229.
pub proof fn platform_limits()
    ensures
        STOP_MILLIS == 15000,
        KILL_MILLIS == 10000,
        DEBUG_PORT == 9229,
{
}

/// An installation is known by its directory and its executable.
pub proof fn installations_are_what_they_hold(installation: Installation)
    ensures
        installation@.app_path == installation.app_path@,
        installation@.executable == installation.executable@,
{
}

/// Events and stages are told apart, and keep what they hold.
pub proof fn events_are_what_they_hold(
    event: RestartEvent,
    other: RelaunchEvent,
    stage: Stage,
    relaunch: Relaunch,
)
    ensures
        event matches RestartEvent::Round(now) ==> event@ == RestartEventModel::Round(now),
        event matches RestartEvent::Ready(ready, now) ==> event@ == RestartEventModel::Ready(
            ready,
            now,
        ),
        event matches RestartEvent::Injected(Ok(outcome)) ==> event@ == RestartEventModel::Injected(
            Ok(outcome),
        ),
        event matches RestartEvent::Injected(Err(error)) ==> event@ == RestartEventModel::Injected(
            Err(error@),
        ),
        other matches RelaunchEvent::Discovered(Ok(installation)) ==> other@
            == RelaunchEventModel::Discovered(Ok(installation@)),
        other matches RelaunchEvent::Discovered(Err(error)) ==> other@
            == RelaunchEventModel::Discovered(Err(error@)),
        other matches RelaunchEvent::StopRound(elapsed) ==> other@ == RelaunchEventModel::StopRound(
            elapsed,
        ),
        other matches RelaunchEvent::Swept(Ok(met)) ==> other@ == RelaunchEventModel::Swept(Ok(met)),
        other matches RelaunchEvent::Swept(Err(error)) ==> other@ == RelaunchEventModel::Swept(
            Err(error@),
        ),
        other matches RelaunchEvent::Started(Ok(())) ==> other@ == RelaunchEventModel::Started(None),
        other matches RelaunchEvent::Started(Err(error)) ==> other@ == RelaunchEventModel::Started(
            Some(error@),
        ),
        other matches RelaunchEvent::Themed(inner) ==> other@ == RelaunchEventModel::Themed(inner@),
        stage is Discover ==> stage@ is Discover,
        stage matches Stage::Wait(installation, pause) ==> stage@ == StageModel::Wait(
            installation@,
            pause,
        ),
        stage matches Stage::Sweep(installation) ==> stage@ == StageModel::Sweep(installation@),
        stage matches Stage::Start(installation) ==> stage@ == StageModel::Start(installation@),
        stage matches Stage::Pause(pause) ==> stage@ == StageModel::Pause(pause),
        stage is Check ==> stage@ is Check,
        stage matches Stage::Inject(time) ==> stage@ == StageModel::Inject(time),
        stage matches Stage::Done(Ok(())) ==> stage@ == StageModel::Done(None),
        stage matches Stage::Done(Err(error)) ==> stage@ == StageModel::Done(Some(error@)),
        relaunch@.stage == relaunch.stage@,
        relaunch@.timeout == relaunch.restart.timeout,
        relaunch.restart.last_error matches Some(text) ==> relaunch@.last_error == Some(text@),
        relaunch.restart.last_error is None ==> relaunch@.last_error is None,
{
}

/// On Windows the configured installation is used; else the one changed last, an unknown time
/// counting as the earliest and the later in the list winning among equals; and where there is
/// none, the error says how to name one.
pub proof fn the_newest_is_used(
    configured: Option<Installation>,
    candidates: Seq<Candidate>,
    outcome: Result<Installation, AppError>,
)
    requires
        found(configured, candidates, outcome),
    ensures
        configured matches Some(installation) ==> outcome is Ok && outcome->Ok_0@ == installation@,
        configured is None && candidates.len() == 0 ==> outcome is Err && outcome->Err_0@
            == ErrorModel::Message(
            "未找到 Windows Codex 安装。请安装 Codex，或将 CODEX_APP_PATH 设置为 Codex.exe、ChatGPT.exe 或其安装目录。"@,
        ),
        configured is None && candidates.len() > 0 ==> outcome is Ok && exists|k: int|
            {
                &&& 0 <= k < candidates.len()
                &&& outcome->Ok_0@ == (#[trigger] candidates[k]).installation@
                &&& forall|i: int|
                    0 <= i < candidates.len() && (#[trigger] candidates[i]).modified is Some ==> {
                        &&& candidates[k].modified is Some
                        &&& candidates[i].modified->0 <= candidates[k].modified->0
                        &&& i > k ==> candidates[i].modified->0 < candidates[k].modified->0
                    }
                &&& candidates[k].modified is None ==> k == candidates.len() - 1
            },
{
    if configured is None && candidates.len() > 0 {
        let k = choose|k: int| #[trigger]
            newest(candidates, k) && outcome->Ok_0@ == candidates[k].installation@;
        assert forall|i: int|
            0 <= i < candidates.len() && (#[trigger] candidates[i]).modified is Some implies {
            &&& candidates[k].modified is Some
            &&& candidates[i].modified->0 <= candidates[k].modified->0
            &&& i > k ==> candidates[i].modified->0 < candidates[k].modified->0
        } by {
            if i < k {
                assert(!earlier(candidates[k].modified, candidates[i].modified));
            } else if i > k {
                assert(earlier(candidates[i].modified, candidates[k].modified));
            }
        }
        if candidates[k].modified is None && k < candidates.len() - 1 {
            let last = candidates.len() - 1;
            assert(earlier(candidates[last].modified, candidates[k].modified));
        }
    }
}

/// A file runs from the directory that holds it; of several places the first that holds a file
/// counts.
pub proof fn files_run_from_their_directory(located: Located, places: Seq<Option<Located>>, k: int)
    ensures
        located.parent matches Some(parent) ==> located_installation(located) == Some(
            InstallationModel { app_path: parent@, executable: located.executable@ },
        ),
        located.parent is None ==> located_installation(located) is None,
        first_found(places, k) <==> 0 <= k < places.len() && places[k] is Some && forall|i: int|
            0 <= i < k ==> (#[trigger] places[i]) is None,
{
}

/// Where an installation is looked for on Windows: four places below the user's data, then two
/// below each directory of programs, as far as these are known; and where its executable stands.
pub proof fn windows_places(
    local: Option<String>,
    programs: Option<String>,
    programs_x86: Option<String>,
    a: Seq<char>,
    b: Seq<char>,
    c: Seq<char>,
)
    requires
        local matches Some(text) ==> text@ == a,
        programs matches Some(text) ==> text@ == b,
        programs_x86 matches Some(text) ==> text@ == c,
    ensures
        usual_places(local, programs, programs_x86) == (if local is Some {
            seq![
                (a, "Programs\\Codex"@),
                (a, "Programs\\OpenAI Codex"@),
                (a, "Codex"@),
                (a, "OpenAI\\Codex"@),
            ]
        } else {
            Seq::empty()
        }) + (if programs is Some {
            seq![(b, "Codex"@), (b, "OpenAI\\Codex"@)]
        } else {
            Seq::empty()
        }) + (if programs_x86 is Some {
            seq![(c, "Codex"@), (c, "OpenAI\\Codex"@)]
        } else {
            Seq::empty()
        }),
        texts(EXECUTABLE_LOCATIONS@) == seq![
            "app\\Codex.exe"@,
            "app\\ChatGPT.exe"@,
            "Codex.exe"@,
            "ChatGPT.exe"@,
            "OpenAI Codex.exe"@,
            "app\\OpenAI Codex.exe"@,
        ],
        MANIFEST_PATTERN@
            == "(?i)<Application\\b[^>]*\\bExecutable\\s*=\\s*[\\\"']([^\\\"']+)[\\\"']"@,
{
    assert(texts(EXECUTABLE_LOCATIONS@) =~= seq![
        "app\\Codex.exe"@,
        "app\\ChatGPT.exe"@,
        "Codex.exe"@,
        "ChatGPT.exe"@,
        "OpenAI Codex.exe"@,
        "app\\OpenAI Codex.exe"@,
    ]);
    if let Some(text) = local {
        assert(below(local, LOCAL_LOCATIONS@) =~= seq![
            (a, "Programs\\Codex"@),
            (a, "Programs\\OpenAI Codex"@),
            (a, "Codex"@),
            (a, "OpenAI\\Codex"@),
        ]);
    }
    if let Some(text) = programs {
        assert(below(programs, PROGRAM_LOCATIONS@) =~= seq![
            (b, "Codex"@),
            (b, "OpenAI\\Codex"@),
        ]);
    }
    if let Some(text) = programs_x86 {
        assert(below(programs_x86, PROGRAM_LOCATIONS@) =~= seq![
            (c, "Codex"@),
            (c, "OpenAI\\Codex"@),
        ]);
    }
}

/// The executable that a package's manifest names is a path with backslashes in the place of its
/// slashes.
pub proof fn packages_name_executables(contents: Seq<char>, captured: Seq<char>, i: int)
    ensures
        crate::outside::regex_group(MANIFEST_PATTERN@, contents) is None ==> manifest_names(
            contents,
        ) is None,
        crate::outside::regex_group(MANIFEST_PATTERN@, contents) == Some(captured)
            ==> manifest_names(contents) == Some(replaced(captured, '/', '\\')),
        named_executable(Some(captured)) is Some,
        0 <= i < captured.len() ==> named_executable(Some(captured))->0[i] == (if captured[i]
            == '/' {
            '\\'
        } else {
            captured[i]
        }),
        named_executable(Some(captured))->0.len() == captured.len(),
{
}

/// An executable below the store's directory of the program's package is started by activating
/// the package, any other by running it; either way the debugging port is opened where that is
/// asked for, and on the loopback address only.
pub proof fn programs_are_started(
    before: Seq<char>,
    package: Seq<char>,
    after: Seq<char>,
    executable: Seq<char>,
)
    requires
        lower(package) == "\\windowsapps\\openai.codex_"@,
    ensures
        start_of(before + package + after, true) == StartModel::Activate(
            "OpenAI.Codex_2p2nqsd0c76g0!App"@,
            "--remote-debugging-address=127.0.0.1 --remote-debugging-port=9229"@,
        ),
        start_of(before + package + after, false) == StartModel::Activate(
            "OpenAI.Codex_2p2nqsd0c76g0!App"@,
            ""@,
        ),
        !occurs(lower(executable), "\\windowsapps\\openai.codex_"@) ==> start_of(executable, true)
            == StartModel::Run(
            seq!["--remote-debugging-address=127.0.0.1"@, "--remote-debugging-port=9229"@],
        ) && start_of(executable, false) == StartModel::Run(Seq::empty()),
{
    let whole = before + package + after;
    assert(lower(whole) =~= lower(before) + lower(package) + lower(after));
    occurrences_cut(lower(whole), "\\windowsapps\\openai.codex_"@);
    assert(store_package(whole));
}

/// On macOS the first bundle that holds something to run is used: of the known names the first
/// that it holds, or else the first entry of its directory. Where none does, the error says how
/// to name one.
pub proof fn the_first_bundle_is_used(
    bundles: Seq<Bundle>,
    outcome: Result<Installation, AppError>,
    k: int,
)
    requires
        crate::macos_platform::found(bundles, outcome),
    ensures
        (forall|i: int|
            0 <= i < bundles.len() ==> empty_bundle(#[trigger] bundles[i])) ==> outcome is Err
            && outcome->Err_0@ == ErrorModel::Message(
            "未找到 macOS Codex 安装，可通过 CODEX_APP_PATH 指定位置。"@,
        ),
        0 <= k < bundles.len() && !empty_bundle(bundles[k]) && (forall|i: int|
            0 <= i < k ==> empty_bundle(#[trigger] bundles[i])) ==> {
            &&& outcome is Ok
            &&& outcome->Ok_0.app_path@ == bundles[k].app_path@
            &&& forall|n: int|
                0 <= n < bundles[k].named@.len() && (#[trigger] bundles[k].named@[n]) is Some && (
                forall|i: int| 0 <= i < n ==> (#[trigger] bundles[k].named@[i]) is None)
                    ==> outcome->Ok_0.executable@ == bundles[k].named@[n]->0@
            &&& (forall|i: int|
                0 <= i < bundles[k].named@.len() ==> (#[trigger] bundles[k].named@[i]) is None)
                ==> bundles[k].first_entry is Some && outcome->Ok_0.executable@
                == bundles[k].first_entry->0@
        },
{
    assert(forall|i: int|
        0 <= i < bundles.len() ==> (idle(bundles[i]) <==> empty_bundle(#[trigger] bundles[i])));
    if let Ok(installation) = outcome {
        let m = choose|m: int|
            0 <= m < bundles.len() && (forall|i: int| 0 <= i < m ==> idle(bundles[i]))
                && installation.app_path@ == (#[trigger] bundles[m]).app_path@ && runs_by(
                bundles[m],
                installation.executable@,
            );
        assert(!empty_bundle(bundles[m])) by {
            if exists|n: int| #[trigger]
                first_named(bundles[m], n) && bundles[m].named@[n]->0@ == installation.executable@ {
                let n = choose|n: int| #[trigger]
                    first_named(bundles[m], n) && bundles[m].named@[n]->0@
                        == installation.executable@;
                assert(bundles[m].named@[n] is Some);
            }
        }
        if 0 <= k < bundles.len() && !empty_bundle(bundles[k]) && (forall|i: int|
            0 <= i < k ==> empty_bundle(#[trigger] bundles[i])) {
            if m < k {
                assert(empty_bundle(bundles[m]));
            }
            if k < m {
                assert(idle(bundles[k]));
            }
            let bundle = bundles[k];
            assert forall|n: int|
                0 <= n < bundle.named@.len() && (#[trigger] bundle.named@[n]) is Some && (forall|
                    i: int,
                |
                    0 <= i < n ==> (#[trigger] bundle.named@[i]) is None) implies
                installation.executable@ == bundle.named@[n]->0@ by {
                assert(first_named(bundle, n));
                assert forall|o: int| #[trigger] first_named(bundle, o) implies o == n by {
                    if o < n {
                        assert(bundle.named@[o] is None);
                    }
                    if n < o {
                        assert(bundle.named@[n] is None);
                    }
                }
            }
            if forall|i: int|
                0 <= i < bundle.named@.len() ==> (#[trigger] bundle.named@[i]) is None {
                assert forall|n: int| !#[trigger] first_named(bundle, n) by {
                    if first_named(bundle, n) {
                        assert(bundle.named@[n] is None);
                    }
                }
            }
        }
    }
}

/// Whether a bundle holds nothing to run: none of the known names, and no first entry.
pub open spec fn empty_bundle(bundle: Bundle) -> bool {
    &&& forall|i: int| 0 <= i < bundle.named@.len() ==> (#[trigger] bundle.named@[i]) is None
    &&& bundle.first_entry is None
}

/// Where the program is looked for on macOS: at the configured place first, then as Codex and as
/// ChatGPT, for all users before the one at hand; and under which names.
pub proof fn macos_places(configured: Option<String>)
    ensures
        crate::macos_platform::places(configured) == (match configured {
            Some(path) => seq![(false, path@)],
            None => Seq::empty(),
        }) + seq![
            (false, "/Applications/Codex.app"@),
            (true, "Applications/Codex.app"@),
            (false, "/Applications/ChatGPT.app"@),
            (true, "Applications/ChatGPT.app"@),
        ],
        texts(EXECUTABLE_NAMES@) == seq!["Codex"@, "ChatGPT"@, "OpenAI Codex"@],
{
    assert(texts(EXECUTABLE_NAMES@) =~= seq!["Codex"@, "ChatGPT"@, "OpenAI Codex"@]);
    assert(crate::macos_platform::places(configured) =~= (match configured {
        Some(path) => seq![(false, path@)],
        None => Seq::empty(),
    }) + seq![
        (false, "/Applications/Codex.app"@),
        (true, "Applications/Codex.app"@),
        (false, "/Applications/ChatGPT.app"@),
        (true, "Applications/ChatGPT.app"@),
    ]);
}

/// A restart begins with finding the installation, and what it did not ask for changes nothing.
pub proof fn restarts_begin_and_wait(
    timeout: u64,
    state: RelaunchModel,
    event: RelaunchEventModel,
)
    ensures
        relaunch_begun(timeout).stage is Discover,
        relaunch_begun(timeout).timeout == timeout,
        relaunch_begun(timeout).last_error is None,
        !(state.stage is Discover && event is Discovered) && !(state.stage is Wait
            && event is StopRound) && !(state.stage is Sweep && event is Swept) && !(
        state.stage is Start && event is Started) && !(state.stage is Pause
            && event matches RelaunchEventModel::Themed(RestartEventModel::Round(_))) && !(
        state.stage is Check && event matches RelaunchEventModel::Themed(
            RestartEventModel::Ready(_, _),
        )) && !(state.stage is Inject && event matches RelaunchEventModel::Themed(
            RestartEventModel::Injected(_),
        )) ==> relaunch_next(state, event) == state,
{
}

/// An error on the way ends a restart as it came: of finding, of stopping, of starting.
pub proof fn restarts_end_with_their_errors(
    state: RelaunchModel,
    installation: InstallationModel,
    error: ErrorModel,
)
    ensures
        ({
            let at = |stage: StageModel| RelaunchModel { stage, ..state };
            let ended = at(StageModel::Done(Some(error)));
            &&& relaunch_next(
                at(StageModel::Discover),
                RelaunchEventModel::Discovered(Err(error)),
            ) == ended
            &&& relaunch_next(
                at(StageModel::Sweep(installation)),
                RelaunchEventModel::Swept(Err(error)),
            ) == ended
            &&& relaunch_next(
                at(StageModel::Start(installation)),
                RelaunchEventModel::Started(Some(error)),
            ) == ended
        }),
{
}

/// Places and installations say what they hold.
pub proof fn places_are_what_they_hold(
    list: Seq<Place>,
    locations: Seq<Location>,
    installation: Installation,
    arguments: Vec<&'static str>,
    name: &'static str,
    line: &'static str,
    i: int,
)
    ensures
        location_models(locations).len() == locations.len(),
        0 <= i < locations.len() ==> location_models(locations)[i] == (
            locations[i].base@,
            locations[i].relative@,
        ),
        Start::Run(arguments)@ == StartModel::Run(
            Seq::new(arguments@.len(), |k: int| arguments@[k]@),
        ),
        Start::Activate(name, line)@ == StartModel::Activate(name@, line@),
        run_arguments(true) == seq![
            "--remote-debugging-address=127.0.0.1"@,
            "--remote-debugging-port=9229"@,
        ],
        run_arguments(false) == Seq::<Seq<char>>::empty(),
        place_models(list).len() == list.len(),
        0 <= i < list.len() ==> place_models(list)[i] == (list[i].in_home, list[i].path@),
        installation_of(None) is None,
        installation_of(Some(installation)) == Some(installation@),
{
    assert(texts(arguments@) =~= Seq::new(arguments@.len(), |k: int| arguments@[k]@));
}

} // verus!
