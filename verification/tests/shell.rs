use codex_skin::cdp::InjectionOutcome;
use codex_skin::error::AppError;
use codex_skin::shell::{
    apply_theme, delete_theme, download_theme, import_failed, initial_activations, is_activation,
    preview_target, preview_type, read_preview, repeated_activations, rollback_pause, rollback_theme,
    theme_applied, ActivationQueue, ApplyStep, PreviewTarget, Rollback, RollbackEvent,
};
use codex_skin::{catalog_index, catalog_pack, catalog_validate, verify_dreamskin};

fn list(values: &[&str]) -> Vec<String> {
    values.iter().map(|value| value.to_string()).collect()
}

#[test]
fn activations_are_picked() {
    assert!(is_activation("dreamskin:install?x=1"));
    assert!(is_activation("C:\\Themes\\Rain.DreamSkin"));
    assert!(!is_activation("DREAMSKIN:install"));
    assert!(!is_activation("--flag"));
    let arguments = list(&["app.dreamskin", "--flag", "a.dreamskin", "dreamskin:b"]);
    assert_eq!(
        initial_activations(&arguments),
        ["a.dreamskin", "dreamskin:b"]
    );
    assert_eq!(
        repeated_activations(&arguments),
        ["app.dreamskin", "a.dreamskin", "dreamskin:b"]
    );
    assert!(initial_activations(&vec![]).is_empty());
}

#[test]
fn activations_wait_until_they_are_asked_for() {
    let mut queue = ActivationQueue::new();
    queue.extend(list(&["a", "b"]));
    queue.extend(list(&["c"]));
    assert_eq!(queue.pending_activations(), ["a", "b", "c"]);
    assert!(queue.pending_activations().is_empty());
}

#[test]
fn previews_are_links() {
    assert!(matches!(preview_target("remote://abc"), PreviewTarget::Remote(id) if id == "abc"));
    assert!(matches!(preview_target("/tmp/a.png"), PreviewTarget::Local(path) if path == "/tmp/a.png"));
    assert_eq!(preview_type(true, "PNG").unwrap(), "image/png");
    assert_eq!(preview_type(true, "jpeg").unwrap(), "image/jpeg");
    assert_eq!(preview_type(true, "jpg").unwrap(), "image/jpeg");
    assert_eq!(preview_type(true, "webp").unwrap(), "image/webp");
    assert_eq!(preview_type(true, "avif").unwrap(), "image/avif");
    assert_eq!(
        preview_type(true, "svg").unwrap_err().message(),
        "不支持的预览图片格式。"
    );
    assert_eq!(
        preview_type(false, "svg").unwrap_err().message(),
        "拒绝读取主题目录之外的图片。"
    );
    assert_eq!(
        read_preview("image/png", &b"\xfb\xff\xfeMa".to_vec()).unwrap(),
        "data:image/png;base64,+//+TWE="
    );
    assert_eq!(read_preview("x", &vec![]).unwrap(), "data:x;base64,");
    assert_eq!(
        read_preview("x", &vec![0; 20 * 1024 * 1024 + 1]).unwrap_err().message(),
        "预览图片超过 20 MB 限制。"
    );
}

#[test]
fn themes_are_tried_three_times() {
    let none = InjectionOutcome { applied: 0, candidates: 0 };
    let refused = InjectionOutcome { applied: 0, candidates: 2 };
    let taken = InjectionOutcome { applied: 1, candidates: 2 };
    assert!(matches!(apply_theme(0, none), ApplyStep::Retry(350)));
    assert!(matches!(apply_theme(1, refused), ApplyStep::Retry(350)));
    assert!(matches!(apply_theme(2, taken), ApplyStep::Applied));
    assert!(matches!(apply_theme(0, taken), ApplyStep::Applied));
    let text = |step: ApplyStep| match step {
        ApplyStep::Failed(error) => error.message(),
        other => panic!("{other:?}"),
    };
    assert_eq!(
        text(apply_theme(2, none)),
        "已连接 Codex 主题端口，但主窗口尚未完成初始化，请稍后重试。"
    );
    assert_eq!(
        text(apply_theme(2, refused)),
        "已连接 Codex 主题端口，但当前 Codex 页面结构暂不受支持，请更新 Codex-Skin。"
    );
}

fn rolled(events: Vec<RollbackEvent>) -> Rollback {
    events.into_iter().fold(Rollback::Start, rollback_theme)
}

fn failed(text: &str) -> RollbackEvent {
    RollbackEvent::Removed(Err(AppError::Message(text.into())))
}

#[test]
fn themes_are_taken_off() {
    let text = |state: Rollback| match state {
        Rollback::Done(Ok(text)) => text,
        Rollback::Done(Err(error)) => format!("error {}", error.message()),
        other => panic!("{other:?}"),
    };
    let plain = "当前已经是默认主题";
    assert_eq!(text(rolled(vec![RollbackEvent::Ready(false)])), plain);
    assert_eq!(
        text(rolled(vec![RollbackEvent::Ready(true), RollbackEvent::Removed(Ok(0))])),
        plain
    );
    assert_eq!(
        text(rolled(vec![
            RollbackEvent::Ready(true),
            failed("a"),
            RollbackEvent::Removed(Ok(2)),
        ])),
        "已恢复默认主题"
    );
    let thrice = |last: bool| {
        text(rolled(vec![
            RollbackEvent::Ready(true),
            failed("a"),
            failed("b"),
            failed("c"),
            RollbackEvent::Ready(last),
        ]))
    };
    assert_eq!(thrice(false), plain);
    assert_eq!(
        thrice(true),
        "error 恢复默认主题失败，请关闭并重新打开 Codex 后重试：c"
    );
    assert!(matches!(
        rolled(vec![RollbackEvent::Ready(true), failed("a")]),
        Rollback::Remove(1)
    ));
    assert!(matches!(rolled(vec![failed("a")]), Rollback::Start));
}

#[test]
fn messages() {
    assert_eq!(download_theme("雨"), "雨 已下载");
    assert_eq!(delete_theme("雨", true), "雨 已从本地删除");
    assert_eq!(delete_theme("雨", false), "雨 没有可删除的本地文件");
    assert_eq!(theme_applied("雨"), "雨 已应用");
    assert_eq!(import_failed("x").message(), "主题导入任务失败：x");
}

#[test]
fn outcomes_are_reported() {
    assert_eq!(verify_dreamskin::<u8>(Ok(1)), Ok(()));
    assert_eq!(
        verify_dreamskin::<u8>(Err(AppError::Io("gone".into()))),
        Err("gone".to_string())
    );
    assert_eq!(catalog_index(Ok(3)), Ok(3));
    assert_eq!(catalog_validate(Ok(4)), Ok(4));
    assert_eq!(
        catalog_pack(Err(AppError::Message("no".into()))),
        Err("no".to_string())
    );
}

#[test]
fn attempts_but_the_first_wait() {
    assert_eq!([0, 1, 2].map(rollback_pause), [0, 350, 350]);
}
