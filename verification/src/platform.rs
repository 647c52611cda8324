//! Finding, stopping and restarting the desktop program.

use crate::cdp::InjectionOutcome;
use crate::error::{fault, AppError, ErrorModel};
use crate::macos_platform::Bundle;
use crate::outside::maybe;
use crate::text::join2;
use crate::windows_platform::{run_arguments, start_of, Candidate, Start, StartModel};
use vstd::prelude::*;

verus! {

/// Where the desktop program is installed.
#[derive(Clone, Debug)]
pub struct Installation {
    pub app_path: String,
    pub executable: String,
}

/// What an [`Installation`] holds.
pub struct InstallationModel {
    pub app_path: Seq<char>,
    pub executable: Seq<char>,
}

impl View for Installation {
    type V = InstallationModel;

    open spec fn view(&self) -> InstallationModel {
        InstallationModel { app_path: self.app_path@, executable: self.executable@ }
    }
}

/// A copy of an installation.
pub fn same_installation(installation: &Installation) -> (r: Installation)
    ensures
        r@ == installation@,
{
    Installation {
        app_path: installation.app_path.clone(),
        executable: installation.executable.clone(),
    }
}

/// The system that the library runs on.
#[derive(Clone, Copy, Debug, PartialEq, Eq, Structural)]
pub enum Host {
    Windows,
    Macos,
    Other,
}

/// What was found on this system.
#[derive(Debug)]
pub enum Survey {
    /// On Windows: the configured installation, and the others.
    Windows(Option<Installation>, Vec<Candidate>),
    /// On macOS: the bundles, in the order of their places.
    Macos(Vec<Bundle>),
    /// On any other system.
    Other,
}

/// The installation to use on this system.
pub fn discover(survey: Survey) -> (r: Result<Installation, AppError>)
    ensures
        match survey {
            Survey::Windows(configured, candidates) => crate::windows_platform::found(
                configured,
                candidates@,
                r,
            ),
            Survey::Macos(bundles) => crate::macos_platform::found(bundles@, r),
            Survey::Other => r is Err && r->Err_0@ == ErrorModel::Message(
                "当前系统不支持 Codex 平台适配器。"@,
            ),
        },
{
    match survey {
        Survey::Windows(configured, candidates) => crate::windows_platform::discover(
            configured,
            &candidates,
        ),
        Survey::Macos(bundles) => crate::macos_platform::discover(&bundles),
        Survey::Other => Err(
            AppError::Message("当前系统不支持 Codex 平台适配器。".to_owned()),
        ),
    }
}

/// Whether a process belongs to an installation: it runs the executable, or a file below the
/// installation's directory. Nowhere but on Windows and macOS.
pub fn belongs_to(host: Host, is_executable: bool, below_app_path: bool) -> (r: bool)
    ensures
        r == (host != Host::Other && (is_executable || below_app_path)),
{
    match host {
        Host::Windows => is_executable || below_app_path,
        Host::Macos => is_executable || below_app_path,
        Host::Other => false,
    }
}

/// How an installation is started on this system.
pub fn start(host: Host, installation: &Installation, enable_cdp: bool) -> (r: Result<
    Start,
    AppError,
>)
    ensures
        match host {
            Host::Windows => r is Ok && r->Ok_0@ == start_of(installation.executable@, enable_cdp),
            Host::Macos => r is Ok && r->Ok_0@ == StartModel::Run(run_arguments(enable_cdp)),
            Host::Other => r is Err && r->Err_0@ == ErrorModel::Message(
                "当前系统不支持 Codex 启动。"@,
            ),
        },
{
    match host {
        Host::Windows => Ok(crate::windows_platform::start(installation, enable_cdp)),
        Host::Macos => Ok(Start::Run(crate::macos_platform::launch_arguments(enable_cdp))),
        Host::Other => Err(AppError::Message("当前系统不支持 Codex 启动。".to_owned())),
    }
}

/// How a process is asked to end.
#[derive(Clone, Copy, Debug, PartialEq, Eq, Structural)]
pub enum Signal {
    Terminate,
    Kill,
}

/// What to do while the program is being stopped.
#[derive(Debug)]
pub enum StopAction {
    /// Send the signal of [`stop_signal`] to each of its processes.
    Sweep,
    /// Wait so many milliseconds.
    Pause(u64),
    /// It has stopped, or it will not.
    Finish(Result<(), AppError>),
}

/// What a [`StopAction`] says.
pub enum StopModel {
    Sweep,
    Pause(u64),
    Finish(Option<ErrorModel>),
}

impl View for StopAction {
    type V = StopModel;

    open spec fn view(&self) -> StopModel {
        match self {
            StopAction::Sweep => StopModel::Sweep,
            StopAction::Pause(pause) => StopModel::Pause(*pause),
            StopAction::Finish(outcome) => StopModel::Finish(fault(*outcome)),
        }
    }
}

/// How long the program is given to stop, in milliseconds.
pub const STOP_MILLIS: u64 = 15000;

/// After how long its processes are killed, in milliseconds.
pub const KILL_MILLIS: u64 = 10000;

/// What to do at the start of a round, so many milliseconds after the first.
pub fn stop_round(elapsed: u64) -> (r: StopAction)
    ensures
        r@ == (if elapsed < STOP_MILLIS {
            StopModel::Sweep
        } else {
            StopModel::Finish(Some(ErrorModel::Message("Codex 未能完全退出，请重试。"@)))
        }),
{
    if elapsed >= STOP_MILLIS {
        StopAction::Finish(Err(AppError::Message("Codex 未能完全退出，请重试。".to_owned())))
    } else {
        StopAction::Sweep
    }
}

/// The signal of a sweep, so many milliseconds after the first round began.
pub fn stop_signal(elapsed: u64) -> (r: Signal)
    ensures
        r == (if elapsed >= KILL_MILLIS {
            Signal::Kill
        } else {
            Signal::Terminate
        }),
{
    if elapsed >= KILL_MILLIS {
        Signal::Kill
    } else {
        Signal::Terminate
    }
}

/// What to do after a sweep, by whether it met any process.
pub fn stop_swept(found: bool) -> (r: StopAction)
    ensures
        r@ == (if found {
            StopModel::Pause(250)
        } else {
            StopModel::Finish(None)
        }),
{
    if found {
        StopAction::Pause(250)
    } else {
        StopAction::Finish(Ok(()))
    }
}

/// What happened while the restarted program was being themed.
#[derive(Debug)]
pub enum RestartEvent {
    /// A round begins, so many milliseconds after the start.
    Round(u64),
    /// Whether the program answers on its port, and when that was known.
    Ready(bool, u64),
    /// How an injection went.
    Injected(Result<InjectionOutcome, AppError>),
}

/// What a [`RestartEvent`] tells.
pub enum RestartEventModel {
    Round(u64),
    Ready(bool, u64),
    Injected(Result<InjectionOutcome, ErrorModel>),
}

impl View for RestartEvent {
    type V = RestartEventModel;

    open spec fn view(&self) -> RestartEventModel {
        match self {
            RestartEvent::Round(now) => RestartEventModel::Round(*now),
            RestartEvent::Ready(ready, now) => RestartEventModel::Ready(*ready, *now),
            RestartEvent::Injected(Ok(outcome)) => RestartEventModel::Injected(Ok(*outcome)),
            RestartEvent::Injected(Err(error)) => RestartEventModel::Injected(Err(error@)),
        }
    }
}

/// What to do while the restarted program is being themed.
#[derive(Debug)]
pub enum RestartAction {
    /// Ask whether the program answers on its port.
    Check,
    /// Inject, within so many milliseconds.
    Inject(u64),
    /// Wait so many milliseconds before the next round.
    Pause(u64),
    /// The theme is in, or will not be.
    Finish(Result<(), AppError>),
}

/// What a [`RestartAction`] says.
pub enum RestartModel {
    Check,
    Inject(u64),
    Pause(u64),
    Finish(Option<ErrorModel>),
}

impl View for RestartAction {
    type V = RestartModel;

    open spec fn view(&self) -> RestartModel {
        match self {
            RestartAction::Check => RestartModel::Check,
            RestartAction::Inject(budget) => RestartModel::Inject(*budget),
            RestartAction::Pause(pause) => RestartModel::Pause(*pause),
            RestartAction::Finish(outcome) => RestartModel::Finish(fault(*outcome)),
        }
    }
}

/// The theming of the restarted program.
#[derive(Debug)]
pub struct Restart {
    /// How long it may take, in milliseconds.
    pub timeout: u64,
    /// Why the last injection did not succeed.
    pub last_error: Option<String>,
}

/// Why the theme is not in, after an injection that took on no page.
pub open spec fn not_applied(outcome: InjectionOutcome) -> Seq<char> {
    if outcome.candidates == 0 {
        "Codex 主窗口尚未完成初始化。"@
    } else {
        "当前 Codex 页面结构暂不受支持，请更新 Codex-Skin。"@
    }
}

/// What the user reads when the time has run out.
pub open spec fn restart_failure(last_error: Option<Seq<char>>) -> ErrorModel {
    let detail = match last_error {
        Some(text) => text,
        None => "未检测到本机 127.0.0.1:9229 调试端口；请确认 Codex 未被安全软件阻止启动。"@,
    };
    ErrorModel::Message("Codex 已启动，但主题未能在 90 秒内完成 CDP 注入："@ + detail)
}

/// The time that an injection gets: what is left, but ten seconds at most.
pub open spec fn budget(now: u64, timeout: u64) -> u64 {
    if now >= timeout {
        0
    } else if timeout - now < 10000 {
        (timeout - now) as u64
    } else {
        10000
    }
}

/// What an event leads to: the last error then, and what to do.
pub open spec fn restart_next(
    timeout: u64,
    last_error: Option<Seq<char>>,
    event: RestartEventModel,
) -> (Option<Seq<char>>, RestartModel) {
    match event {
        RestartEventModel::Round(now) => if now < timeout {
            (last_error, RestartModel::Check)
        } else {
            (last_error, RestartModel::Finish(Some(restart_failure(last_error))))
        },
        RestartEventModel::Ready(ready, now) => if ready && budget(now, timeout) > 0 {
            (last_error, RestartModel::Inject(budget(now, timeout)))
        } else {
            (last_error, RestartModel::Pause(500))
        },
        RestartEventModel::Injected(Ok(outcome)) => if outcome.applied > 0 {
            (last_error, RestartModel::Finish(None))
        } else {
            (Some(not_applied(outcome)), RestartModel::Pause(500))
        },
        RestartEventModel::Injected(Err(error)) => (Some(error.text()), RestartModel::Pause(500)),
    }
}

/// What the user reads when an injection took on no page.
pub fn not_applied_reason(outcome: InjectionOutcome) -> (text: &'static str)
    ensures
        text@ == not_applied(outcome),
{
    if outcome.candidates == 0 {
        "Codex 主窗口尚未完成初始化。"
    } else {
        "当前 Codex 页面结构暂不受支持，请更新 Codex-Skin。"
    }
}

impl Restart {
    /// What an event leads to.
    pub fn restart_and_inject(&mut self, event: RestartEvent) -> (r: RestartAction)
        ensures
            final(self).timeout == old(self).timeout,
            (maybe(final(self).last_error), r@) == restart_next(
                old(self).timeout,
                maybe(old(self).last_error),
                event@,
            ),
    {
        match event {
            RestartEvent::Round(now) => {
                if now < self.timeout {
                    return RestartAction::Check;
                }
                let text = match &self.last_error {
                    Some(detail) => join2(
                        "Codex 已启动，但主题未能在 90 秒内完成 CDP 注入：",
                        detail,
                    ),
                    None => join2(
                        "Codex 已启动，但主题未能在 90 秒内完成 CDP 注入：",
                        "未检测到本机 127.0.0.1:9229 调试端口；请确认 Codex 未被安全软件阻止启动。",
                    ),
                };
                RestartAction::Finish(Err(AppError::Message(text)))
            },
            RestartEvent::Ready(ready, now) => {
                if !ready || now >= self.timeout {
                    return RestartAction::Pause(500);
                }
                let left: u64 = self.timeout - now;
                RestartAction::Inject(
                    if left < 10000 {
                        left
                    } else {
                        10000
                    },
                )
            },
            RestartEvent::Injected(Ok(outcome)) => {
                if outcome.applied > 0 {
                    return RestartAction::Finish(Ok(()));
                }
                self.last_error = Some(not_applied_reason(outcome).to_owned());
                RestartAction::Pause(500)
            },
            RestartEvent::Injected(Err(error)) => {
                self.last_error = Some(error.message());
                RestartAction::Pause(500)
            },
        }
    }
}

/// The error when the program could not be started.
pub fn start_failed(error: &str) -> (r: AppError)
    ensures
        r@ == ErrorModel::Message("启动 Codex 失败："@ + error@),
{
    AppError::Message(join2("启动 Codex 失败：", error))
}

/// The theming of the restarted program succeeds exactly when an injection took on a page, and
/// it is given up only when the time has run out.
pub proof fn restart_ends(timeout: u64, last_error: Option<Seq<char>>, event: RestartEventModel)
    ensures
        restart_next(timeout, last_error, event).1 == RestartModel::Finish(None) <==> (
        event matches RestartEventModel::Injected(Ok(outcome)) && outcome.applied > 0),
        (restart_next(timeout, last_error, event).1 matches RestartModel::Finish(Some(_))) <==> (
        event matches RestartEventModel::Round(now) && now >= timeout),
{
}

/// Each injection into the restarted program gets some time, ten seconds at most, and none
/// beyond the time for the whole.
pub proof fn injections_end_in_time(
    timeout: u64,
    last_error: Option<Seq<char>>,
    ready: bool,
    now: u64,
)
    ensures
        restart_next(timeout, last_error, RestartEventModel::Ready(ready, now)).1 matches
            RestartModel::Inject(time) ==> ready && 0 < time <= 10000 && now + time <= timeout,
{
}

} // verus!
