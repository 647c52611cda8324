use codex_skin::catalog::{RemoteCatalog, RemoteResource, RemoteTheme};
use codex_skin::library::{
    check_deletion, clear_compiled_state, delete_theme_files, ensure_preview, ensure_theme,
    names_theme, FileDeletion, Leftover, SubscriptionSync, ThemeLibraryState,
};
use codex_skin::json::read_json;
use codex_skin::rules::allowed;

fn file(path: &str) -> RemoteResource {
    RemoteResource {
        path: path.into(),
        sha256: "a".repeat(64),
        size: 1,
    }
}

fn catalog() -> RemoteCatalog {
    RemoteCatalog {
        schema_version: 2,
        name: "c".into(),
        revision: "2026-07-17T12:00:00Z".into(),
        themes: vec![RemoteTheme {
            id: "example-theme".into(),
            version: "1.0.0".into(),
            name: "Example".into(),
            description: String::new(),
            category: "极简".into(),
            variant: "light".into(),
            manifest: file("themes/example-theme.json"),
            preview: file("previews/example-theme.png"),
            assets: vec![
                file("previews/example-theme.png"),
                file("backgrounds/example-theme.jpg"),
            ],
        }],
    }
}

#[test]
fn downloads_are_remembered_in_order() {
    let mut state = ThemeLibraryState::default();
    state.record_download("bb", "1.0.0");
    state.record_download("aa", "2.0.0");
    state.record_download("cc", "3.0.0");
    state.record_download("bb", "1.1.0");
    let expected: Vec<(String, String)> = [("aa", "2.0.0"), ("bb", "1.1.0"), ("cc", "3.0.0")]
        .iter()
        .map(|(id, version)| (id.to_string(), version.to_string()))
        .collect();
    assert_eq!(state.downloaded_versions, expected);
    assert_eq!(state.downloaded("bb"), Some("1.1.0".to_string()));
    assert_eq!(state.downloaded("dd"), None);
}

#[test]
fn subscriptions_come_and_go() {
    let mut state = ThemeLibraryState::default();
    state.set_subscription("bb", true).unwrap();
    state.set_subscription("aa", true).unwrap();
    state.set_subscription("bb", true).unwrap();
    assert_eq!(state.subscriptions, ["aa", "bb"]);
    assert!(state.is_subscribed("aa"));
    state.set_subscription("aa", false).unwrap();
    state.set_subscription("zz", false).unwrap();
    assert!(!state.is_subscribed("aa"));
    assert_eq!(state.subscriptions, ["bb"]);
    assert_eq!(
        state.set_subscription("A", true).unwrap_err().message(),
        "主题 ID 无效：A"
    );
    assert_eq!(state.subscriptions, ["bb"]);
}

#[test]
fn deleting_forgets_one_theme() {
    let mut state = ThemeLibraryState::default();
    state.record_download("aa", "1.0.0");
    state.record_download("bb", "1.0.0");
    state.set_subscription("aa", true).unwrap();
    state.set_subscription("bb", true).unwrap();
    assert!(state.delete_theme("aa", false));
    assert!(!state.delete_theme("aa", false));
    assert!(state.delete_theme("aa", true));
    assert_eq!(state.downloaded("aa"), None);
    assert_eq!(state.downloaded("bb"), Some("1.0.0".to_string()));
    assert_eq!(state.subscriptions, ["bb"]);
}

#[test]
fn deletions_need_an_identifier() {
    assert!(check_deletion("example.theme").is_ok());
    assert!(check_deletion("example-theme").is_ok());
    assert_eq!(
        check_deletion("../x").unwrap_err().message(),
        "主题 ID 无效：../x"
    );
}

#[test]
fn files_are_deleted_with_their_theme() {
    let catalog = catalog();
    let spell = |list: Vec<Leftover>| {
        list.into_iter()
            .map(|item| match item {
                Leftover::Installed(name) => format!("installed {name}"),
                Leftover::Cached(path) => format!("cached {path}"),
            })
            .collect::<Vec<_>>()
    };
    assert_eq!(
        spell(delete_theme_files("example-theme", Some(&catalog.themes[0]))),
        [
            "installed example-theme",
            "cached themes/example-theme.json",
            "cached previews/example-theme.png",
            "cached previews/example-theme.png",
            "cached backgrounds/example-theme.jpg",
        ]
    );
    assert_eq!(
        spell(delete_theme_files("example-theme", None)),
        ["installed example-theme", "cached themes/example-theme.json"]
    );
}

#[test]
fn compiled_files_go_with_the_theme_in_use() {
    let all = ["codex-theme.css", "codex-theme.js", "current-theme.json"];
    let current = br#"{"codeThemeId":"example-theme"}"#.to_vec();
    assert_eq!(clear_compiled_state(Some(&current), "example-theme"), all);
    assert!(clear_compiled_state(Some(&current), "other").is_empty());
    assert!(clear_compiled_state(None, "example-theme").is_empty());
    assert!(clear_compiled_state(Some(&b"{".to_vec()), "example-theme").is_empty());
    let named = read_json(br#"{"id":"aa","codeThemeId":"bb"}"#).unwrap();
    assert!(names_theme(&named, "aa"));
    assert!(!names_theme(&named, "bb"));
    let unnamed = read_json(br#"{"id":1,"codeThemeId":"bb"}"#).unwrap();
    assert!(!names_theme(&unnamed, "bb"));
}

#[test]
fn previews_need_the_catalog() {
    let catalog = catalog();
    assert_eq!(
        ensure_preview(Some(&catalog), "example-theme").unwrap().path,
        "previews/example-theme.png"
    );
    assert_eq!(
        ensure_preview(Some(&catalog), "other").unwrap_err().message(),
        "远程主题不存在：other"
    );
    assert_eq!(
        ensure_preview(None, "other").unwrap_err().message(),
        "尚未同步远程主题目录。"
    );
}

#[test]
fn themes_are_fetched_manifest_first() {
    let catalog = catalog();
    let (theme, list) = ensure_theme(Some(&catalog), "example-theme").unwrap();
    assert_eq!(theme.version, "1.0.0");
    let plan: Vec<(&str, bool)> = list
        .iter()
        .map(|item| (item.resource.path.as_str(), item.image))
        .collect();
    assert_eq!(
        plan,
        [
            ("themes/example-theme.json", false),
            ("previews/example-theme.png", true),
            ("backgrounds/example-theme.jpg", true),
        ]
    );
    assert!(ensure_theme(Some(&catalog), "other").is_none());
    assert!(ensure_theme(None, "example-theme").is_none());
}

#[test]
fn only_renewed_themes_count() {
    let mut state = ThemeLibraryState::default();
    for id in ["dd", "aa", "cc", "bb"] {
        state.set_subscription(id, true).unwrap();
    }
    let mut sync = SubscriptionSync::new(&state);
    let version = |text: &str| Some(text.to_string());
    let mut seen = Vec::new();
    for (before, after) in [
        (None, version("1.0.0")),
        (version("1.0.0"), version("1.0.0")),
        (version("1.0.0"), version("1.1.0")),
        (version("1.0.0"), None),
    ] {
        seen.push(sync.pending().unwrap().clone());
        sync.sync_subscriptions(before, after);
    }
    assert_eq!(seen, ["aa", "bb", "cc", "dd"]);
    assert!(sync.pending().is_none());
    assert_eq!(sync.updated, 2);
}

#[test]
fn deleted_files_are_files_of_the_catalog() {
    let catalog = catalog();
    for theme in [None, Some(&catalog.themes[0])] {
        for leftover in delete_theme_files("example-theme", theme) {
            if let Leftover::Cached(path) = leftover {
                assert!(allowed(&path), "{path}");
            }
        }
    }
    assert!(check_deletion(&catalog.themes[0].id).is_ok());
}

#[test]
fn a_second_deletion_finds_nothing() {
    let catalog = catalog();
    let mut directories = vec!["example-theme".to_string(), "other".to_string()];
    let mut files = vec![
        "backgrounds/example-theme.jpg".to_string(),
        "themes/other.json".to_string(),
    ];
    for expected in [true, false] {
        let mut deletion = FileDeletion::new("example-theme", Some(&catalog.themes[0]));
        while let Some(leftover) = deletion.pending() {
            let (list, name) = match leftover {
                Leftover::Installed(name) => (&mut directories, name),
                Leftover::Cached(path) => (&mut files, path),
            };
            let there = list.contains(name);
            list.retain(|item| item != name);
            deletion.deleted(there);
        }
        assert_eq!(deletion.removed, expected);
        assert_eq!(directories, ["other"]);
        assert_eq!(files, ["themes/other.json"]);
    }
}
