use codex_skin::cdp::InjectionOutcome;
use codex_skin::error::AppError;
use codex_skin::macos_platform::Bundle;
use codex_skin::platform::{
    belongs_to, discover, start, start_failed, stop_round, stop_signal, stop_swept, Host,
    Installation, Restart, RestartAction, RestartEvent, Signal, StopAction, Survey,
};
use codex_skin::relaunch::{begin_relaunch, relaunch, Relaunch, RelaunchEvent, Stage};
use codex_skin::windows_platform::{
    common_install_locations, executable_path, installation_from_path, manifest_executable,
    Candidate, Located, Probe, Start,
};
use codex_skin::{macos_platform, windows_platform};

#[test]
fn platform_starts_cdp_on_loopback_only() {
    assert_eq!(
        windows_platform::launch_arguments(true),
        [
            "--remote-debugging-address=127.0.0.1",
            "--remote-debugging-port=9229"
        ]
    );
    assert_eq!(windows_platform::launch_arguments(false), ["", ""]);
    assert_eq!(
        macos_platform::launch_arguments(true),
        [
            "--remote-debugging-address=127.0.0.1",
            "--remote-debugging-port=9229"
        ]
    );
    assert!(macos_platform::launch_arguments(false).is_empty());
}

#[test]
fn ignores_missing_override() {
    let path = std::path::Path::new("Z:\\missing-codex");
    let probe = if path.is_file() {
        Probe::File(Located {
            executable: path.to_string_lossy().into_owned(),
            parent: None,
        })
    } else if path.is_dir() {
        Probe::Directory(vec![], None)
    } else {
        Probe::Missing
    };
    assert!(installation_from_path(&probe).is_none());
}

fn located(executable: &str) -> Located {
    Located {
        executable: executable.into(),
        parent: Some("C:\\app".into()),
    }
}

#[test]
fn executables_are_found_by_their_places() {
    let file = installation_from_path(&Probe::File(located("C:\\app\\x.exe"))).unwrap();
    assert_eq!(file.executable, "C:\\app\\x.exe");
    assert_eq!(file.app_path, "C:\\app");
    let places = vec![None, Some(located("second")), Some(located("third"))];
    let directory = Probe::Directory(places, Some(located("manifest")));
    assert_eq!(installation_from_path(&directory).unwrap().executable, "second");
    let packaged = Probe::Directory(vec![None, None], Some(located("manifest")));
    assert_eq!(installation_from_path(&packaged).unwrap().executable, "manifest");
    assert!(installation_from_path(&Probe::Directory(vec![None], None)).is_none());
    let orphan = Located { executable: "x".into(), parent: None };
    assert!(installation_from_path(&Probe::File(orphan)).is_none());
}

#[test]
fn manifests_name_their_executable() {
    let contents = r#"<Package><Applications><Application Id="App" Executable="binaries/DesktopClient.exe" /></Applications></Package>"#;
    assert_eq!(
        manifest_executable(contents),
        Some("binaries\\DesktopClient.exe".to_string())
    );
    assert_eq!(manifest_executable("<Package/>"), None);
    assert_eq!(
        executable_path(Some("a/b".to_string())),
        Some("a\\b".to_string())
    );
    assert_eq!(executable_path(None), None);
}

#[test]
fn usual_places_depend_on_the_environment() {
    let list = common_install_locations(Some("L".into()), None, Some("P".into()));
    let found: Vec<(&str, &str)> = list
        .iter()
        .map(|item| (item.base.as_str(), item.relative))
        .collect();
    assert_eq!(
        found,
        [
            ("L", "Programs\\Codex"),
            ("L", "Programs\\OpenAI Codex"),
            ("L", "Codex"),
            ("L", "OpenAI\\Codex"),
            ("P", "Codex"),
            ("P", "OpenAI\\Codex"),
        ]
    );
    assert!(windows_platform::is_codex_package("OpenAI.CODEX_1"));
    assert!(!windows_platform::is_codex_package("OpenAI.ChatGPT"));
}

fn installation(executable: &str) -> Installation {
    Installation {
        app_path: "app".into(),
        executable: executable.into(),
    }
}

fn candidate(executable: &str, modified: Option<i128>) -> Candidate {
    Candidate {
        installation: installation(executable),
        modified,
    }
}

#[test]
fn the_newest_installation_is_used() {
    let found = |configured: Option<Installation>, list: Vec<Candidate>| {
        discover(Survey::Windows(configured, list)).map(|item| item.executable)
    };
    let list = || {
        vec![
            candidate("unknown", None),
            candidate("new", Some(5)),
            candidate("old", Some(-1)),
            candidate("as new", Some(5)),
        ]
    };
    assert_eq!(found(None, list()).unwrap(), "as new");
    assert_eq!(found(Some(installation("mine")), list()).unwrap(), "mine");
    assert_eq!(found(None, vec![candidate("unknown", None)]).unwrap(), "unknown");
    assert!(found(None, vec![]).unwrap_err().message().starts_with("未找到 Windows Codex 安装。"));
}

#[test]
fn the_first_bundle_that_runs_is_used() {
    let bundle = |app: &str, named: Vec<Option<String>>, first: Option<String>| Bundle {
        app_path: app.into(),
        named,
        first_entry: first,
    };
    let found = |list: Vec<Bundle>| discover(Survey::Macos(list));
    let empty = || bundle("empty", vec![None, None, None], None);
    let named = bundle("named", vec![None, Some("ChatGPT".into()), None], Some("x".into()));
    let taken = found(vec![empty(), named]).unwrap();
    assert_eq!((taken.app_path.as_str(), taken.executable.as_str()), ("named", "ChatGPT"));
    let other = bundle("other", vec![None], Some("first".into()));
    assert_eq!(found(vec![empty(), other]).unwrap().executable, "first");
    assert_eq!(
        found(vec![empty()]).unwrap_err().message(),
        "未找到 macOS Codex 安装，可通过 CODEX_APP_PATH 指定位置。"
    );
    assert_eq!(
        discover(Survey::Other).unwrap_err().message(),
        "当前系统不支持 Codex 平台适配器。"
    );
    let places: Vec<(bool, String)> = macos_platform::candidate_places(Some("/x".into()))
        .into_iter()
        .map(|place| (place.in_home, place.path))
        .collect();
    assert_eq!(places[0], (false, "/x".to_string()));
    assert_eq!(places[2], (true, "Applications/Codex.app".to_string()));
    assert_eq!(places.len(), 5);
}

#[test]
fn starting_depends_on_the_system() {
    let store = installation("C:\\Program Files\\WindowsApps\\OpenAI.Codex_1.0\\app\\Codex.exe");
    match start(Host::Windows, &store, true).unwrap() {
        Start::Activate(application, arguments) => {
            assert_eq!(application, "OpenAI.Codex_2p2nqsd0c76g0!App");
            assert_eq!(
                arguments,
                "--remote-debugging-address=127.0.0.1 --remote-debugging-port=9229"
            );
        }
        other => panic!("{other:?}"),
    }
    match start(Host::Windows, &store, false).unwrap() {
        Start::Activate(_, arguments) => assert_eq!(arguments, ""),
        other => panic!("{other:?}"),
    }
    let plain = installation("C:\\Codex\\Codex.exe");
    match start(Host::Windows, &plain, true).unwrap() {
        Start::Run(arguments) => assert_eq!(arguments.len(), 2),
        other => panic!("{other:?}"),
    }
    match start(Host::Macos, &plain, false).unwrap() {
        Start::Run(arguments) => assert!(arguments.is_empty()),
        other => panic!("{other:?}"),
    }
    assert_eq!(
        start(Host::Other, &plain, true).unwrap_err().message(),
        "当前系统不支持 Codex 启动。"
    );
    assert!(windows_platform::after_activation(true, true).is_none());
    assert!(matches!(
        windows_platform::after_activation(false, true),
        Some(Start::Run(_))
    ));
    assert!(belongs_to(Host::Windows, false, true));
    assert!(belongs_to(Host::Macos, true, false));
    assert!(!belongs_to(Host::Macos, false, false));
    assert!(!belongs_to(Host::Other, true, true));
}

#[test]
fn stopping_gets_stricter() {
    assert!(matches!(stop_round(0), StopAction::Sweep));
    assert!(matches!(stop_round(14999), StopAction::Sweep));
    match stop_round(15000) {
        StopAction::Finish(Err(error)) => {
            assert_eq!(error.message(), "Codex 未能完全退出，请重试。")
        }
        other => panic!("{other:?}"),
    }
    assert_eq!(stop_signal(9999), Signal::Terminate);
    assert_eq!(stop_signal(10000), Signal::Kill);
    assert!(matches!(stop_swept(true), StopAction::Pause(250)));
    assert!(matches!(stop_swept(false), StopAction::Finish(Ok(()))));
}

#[test]
fn restarting_ends_with_the_theme_or_the_time() {
    let mut restart = Restart { timeout: 90000, last_error: None };
    assert!(matches!(
        restart.restart_and_inject(RestartEvent::Round(0)),
        RestartAction::Check
    ));
    assert!(matches!(
        restart.restart_and_inject(RestartEvent::Ready(false, 10)),
        RestartAction::Pause(500)
    ));
    assert!(matches!(
        restart.restart_and_inject(RestartEvent::Ready(true, 10)),
        RestartAction::Inject(10000)
    ));
    assert!(matches!(
        restart.restart_and_inject(RestartEvent::Ready(true, 89999)),
        RestartAction::Inject(1)
    ));
    assert!(matches!(
        restart.restart_and_inject(RestartEvent::Ready(true, 90000)),
        RestartAction::Pause(500)
    ));
    let given_up = |restart: &mut Restart| match restart.restart_and_inject(RestartEvent::Round(90000)) {
        RestartAction::Finish(Err(error)) => error.message(),
        other => panic!("{other:?}"),
    };
    let text = "Codex 已启动，但主题未能在 90 秒内完成 CDP 注入：";
    assert_eq!(
        given_up(&mut restart),
        format!("{text}未检测到本机 127.0.0.1:9229 调试端口；请确认 Codex 未被安全软件阻止启动。")
    );
    let outcome = |applied: usize, candidates: usize| InjectionOutcome { applied, candidates };
    restart.restart_and_inject(RestartEvent::Injected(Ok(outcome(0, 0))));
    assert_eq!(given_up(&mut restart), format!("{text}Codex 主窗口尚未完成初始化。"));
    restart.restart_and_inject(RestartEvent::Injected(Ok(outcome(0, 1))));
    assert_eq!(
        given_up(&mut restart),
        format!("{text}当前 Codex 页面结构暂不受支持，请更新 Codex-Skin。")
    );
    restart.restart_and_inject(RestartEvent::Injected(Err(AppError::Message("x".into()))));
    assert_eq!(given_up(&mut restart), format!("{text}x"));
    assert!(matches!(
        restart.restart_and_inject(RestartEvent::Injected(Ok(outcome(1, 1)))),
        RestartAction::Finish(Ok(()))
    ));
    assert_eq!(start_failed("x").message(), "启动 Codex 失败：x");
    assert_eq!(windows_platform::com_failed("x").message(), "初始化 Windows COM 失败：x");
    assert_eq!(windows_platform::activator_failed("x").message(), "创建 Codex 激活器失败：x");
}

fn codex() -> Installation {
    Installation { app_path: "/codex".to_string(), executable: "/codex/run".to_string() }
}

fn after(events: Vec<RelaunchEvent>) -> Relaunch {
    events.into_iter().fold(begin_relaunch(90000), relaunch)
}

fn message(state: Relaunch) -> String {
    match state.stage {
        Stage::Done(Err(error)) => error.message(),
        other => panic!("{other:?}"),
    }
}

fn wrong(text: &str) -> AppError {
    AppError::Message(text.to_string())
}

#[test]
fn a_restart_keeps_its_order() {
    let state = begin_relaunch(90000);
    assert!(matches!(state.stage, Stage::Discover));
    let state = relaunch(state, RelaunchEvent::Discovered(Ok(codex())));
    assert!(matches!(state.stage, Stage::Wait(_, 0)));
    let state = relaunch(state, RelaunchEvent::Started(Ok(())));
    assert!(matches!(state.stage, Stage::Wait(_, 0)));
    let state = relaunch(state, RelaunchEvent::StopRound(0));
    assert!(matches!(state.stage, Stage::Sweep(_)));
    let state = relaunch(state, RelaunchEvent::Swept(Ok(true)));
    assert!(matches!(state.stage, Stage::Wait(_, 250)));
    let state = relaunch(state, RelaunchEvent::StopRound(14999));
    let state = relaunch(state, RelaunchEvent::Swept(Ok(false)));
    assert!(matches!(&state.stage, Stage::Start(found) if found.executable == "/codex/run"));
    let state = relaunch(state, RelaunchEvent::Started(Ok(())));
    assert!(matches!(state.stage, Stage::Pause(0)));
    let state = relaunch(state, RelaunchEvent::Themed(RestartEvent::Round(0)));
    assert!(matches!(state.stage, Stage::Check));
    let state = relaunch(state, RelaunchEvent::Themed(RestartEvent::Round(90000)));
    assert!(matches!(state.stage, Stage::Check));
    let state = relaunch(state, RelaunchEvent::Themed(RestartEvent::Ready(true, 85000)));
    assert!(matches!(state.stage, Stage::Inject(5000)));
    let outcome = InjectionOutcome { applied: 1, candidates: 1 };
    let state = relaunch(state, RelaunchEvent::Themed(RestartEvent::Injected(Ok(outcome))));
    assert!(matches!(state.stage, Stage::Done(Ok(()))));
    let state = relaunch(state, RelaunchEvent::Discovered(Err(wrong("late"))));
    assert!(matches!(state.stage, Stage::Done(Ok(()))));
}

#[test]
fn a_restart_ends_at_the_first_error() {
    let found = || RelaunchEvent::Discovered(Ok(codex()));
    assert_eq!(message(after(vec![RelaunchEvent::Discovered(Err(wrong("none")))])), "none");
    assert_eq!(
        message(after(vec![found(), RelaunchEvent::StopRound(15000)])),
        "Codex 未能完全退出，请重试。"
    );
    assert_eq!(
        message(after(vec![
            found(),
            RelaunchEvent::StopRound(0),
            RelaunchEvent::Swept(Err(wrong("unseen"))),
            RelaunchEvent::Started(Ok(())),
        ])),
        "unseen"
    );
    assert_eq!(
        message(after(vec![
            found(),
            RelaunchEvent::StopRound(0),
            RelaunchEvent::Swept(Ok(false)),
            RelaunchEvent::Started(Err(wrong("stuck"))),
            RelaunchEvent::Themed(RestartEvent::Round(0)),
        ])),
        "stuck"
    );
    assert_eq!(
        message(after(vec![
            found(),
            RelaunchEvent::StopRound(0),
            RelaunchEvent::Swept(Ok(false)),
            RelaunchEvent::Started(Ok(())),
            RelaunchEvent::Themed(RestartEvent::Round(0)),
            RelaunchEvent::Themed(RestartEvent::Ready(true, 0)),
            RelaunchEvent::Themed(RestartEvent::Injected(Err(wrong("closed")))),
            RelaunchEvent::Themed(RestartEvent::Round(90000)),
        ])),
        "Codex 已启动，但主题未能在 90 秒内完成 CDP 注入：closed"
    );
}
