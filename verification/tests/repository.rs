use codex_skin::assets::Image;
use codex_skin::json::{read_json, Json};
use codex_skin::repository::{
    begin_repository, is_listed, validate_entry, validate_index, validate_repository, Finding,
    RepositoryCheck, Stage,
};

const MANIFEST: &str = r##"{"schemaVersion":1,"version":"1.0.0","displayName":"n","codeThemeId":"one-theme",
    "category":"其他","description":"d","author":"a","variant":"light","previewImage":"../previews/p.png",
    "theme":{"accent":"#000000","ink":"#000000","surface":"#000000"},
    "home":{"brand":"b","title":"t","quickActions":[{"title":"t","prompt":"p"},{"title":"t","prompt":"p"},
    {"title":"t","prompt":"p"},{"title":"t","prompt":"p"}]}}"##;

fn index(themes: &str) -> Vec<u8> {
    format!(r#"{{"schemaVersion":1,"name":"n","updatedAt":"u","themes":{themes}}}"#).into_bytes()
}

fn one() -> &'static str {
    r#"[{"id":"one-theme","manifest":"themes/one-theme.json"}]"#
}

fn run(findings: Vec<Finding>) -> RepositoryCheck {
    let mut check = begin_repository();
    for finding in findings {
        check = validate_repository(check, finding);
    }
    check
}

fn started(themes: &str) -> Vec<Finding> {
    vec![
        Finding::Present(true),
        Finding::Present(true),
        Finding::Document(Ok(index(themes))),
    ]
}

fn complaint(check: RepositoryCheck) -> String {
    match check.stage {
        Stage::Done(Err(error)) => error.message(),
        other => panic!("{other:?}"),
    }
}

#[test]
fn a_sound_repository_is_accepted() {
    let mut findings = started(one());
    assert!(matches!(run(vec![]).stage, Stage::Schema(0)));
    assert!(matches!(run(vec![Finding::Present(true)]).stage, Stage::Schema(1)));
    assert!(matches!(run(started(one())).stage, Stage::Present));
    findings.push(Finding::Present(true));
    findings.push(Finding::Document(Ok(MANIFEST.as_bytes().to_vec())));
    let check = run(findings);
    match &check.stage {
        Stage::Image(request) => assert_eq!(request.relative, "../previews/p.png"),
        other => panic!("{other:?}"),
    }
    let check = validate_repository(check, Finding::Image(Image::Found(1, Ok((1, 1)))));
    assert!(matches!(check.stage, Stage::Listing));
    let names = vec!["one-theme.json".to_string(), "notes.txt".to_string()];
    let check = validate_repository(check, Finding::Names(Ok(names)));
    assert!(matches!(check.stage, Stage::Done(Ok(()))));
}

#[test]
fn repositories_fail_at_the_first_fault() {
    assert_eq!(
        complaint(run(vec![Finding::Present(false)])),
        "主题仓库缺少 Schema：theme-v1.schema.json"
    );
    assert_eq!(
        complaint(run(vec![Finding::Present(true), Finding::Present(false)])),
        "主题仓库缺少 Schema：theme-repository-v1.schema.json"
    );
    let unread = vec![
        Finding::Present(true),
        Finding::Present(true),
        Finding::Document(Err("denied".into())),
    ];
    assert_eq!(complaint(run(unread)), "denied");
    assert_eq!(complaint(run(started("[]"))), "主题数量必须在 1 到 500 之间。");
    assert_eq!(complaint(run(started("3"))), "主题仓库 themes 无效。");
    assert_eq!(
        complaint(run(started(r#"[{"id":"one-theme","manifest":"themes/two.json"}]"#))),
        "主题索引条目无效：one-theme"
    );
    assert_eq!(
        complaint(run(started(r#"[{"id":"one-theme"}]"#))),
        "themes[] 缺少字段：manifest"
    );
    let mut absent = started(one());
    absent.push(Finding::Present(false));
    assert_eq!(complaint(run(absent)), "主题索引条目无效：one-theme");
    let mut broken = started(one());
    broken.push(Finding::Present(true));
    broken.push(Finding::Document(Ok(b"{}".to_vec())));
    assert_eq!(complaint(run(broken)), "theme 缺少字段：schemaVersion");
    let mut unlisted = started(one());
    unlisted.push(Finding::Present(true));
    unlisted.push(Finding::Document(Ok(MANIFEST.as_bytes().to_vec())));
    unlisted.push(Finding::Image(Image::Found(1, Ok((1, 1)))));
    unlisted.push(Finding::Names(Ok(vec![
        "one-theme.json".into(),
        "other.JSON".into(),
    ])));
    assert_eq!(complaint(run(unlisted)), "主题索引与 themes 目录不一致。");
}

#[test]
fn what_was_not_asked_for_changes_nothing() {
    let check = run(vec![Finding::Names(Ok(vec![]))]);
    assert!(matches!(check.stage, Stage::Schema(0)));
    let check = run(vec![Finding::Present(false), Finding::Present(true)]);
    assert!(matches!(check.stage, Stage::Done(Err(_))));
}

#[test]
fn indexes_are_of_the_first_version() {
    let json = |text: &str| read_json(text.as_bytes()).unwrap();
    let message = |text: &str| validate_index(&json(text)).unwrap_err().message();
    assert_eq!(
        message(r#"{"schemaVersion":2,"name":"n","updatedAt":"u","themes":[1]}"#),
        "只支持主题仓库标准 v1。"
    );
    assert_eq!(
        message(r#"{"schemaVersion":1,"name":"n","themes":[1]}"#),
        "theme-repository.json 缺少字段：updatedAt"
    );
    assert!(validate_index(&json(
        r#"{"$schema":"s","schemaVersion":1,"name":"n","updatedAt":"u","themes":[1]}"#
    ))
    .is_ok());
}

fn list(text: &str) -> Vec<Json> {
    match read_json(text.as_bytes()).unwrap() {
        Json::Array(items) => items,
        other => panic!("{other:?}"),
    }
}

#[test]
fn entries_are_different() {
    let entries = list(
        r#"[{"id":"aa","manifest":"themes/aa.json"},{"id":"bb","manifest":"themes/bb.json"},
        {"id":"aa","manifest":"themes/aa.json"}]"#,
    );
    assert!(validate_entry(&entries, 0).is_ok());
    assert!(validate_entry(&entries, 1).is_ok());
    assert_eq!(
        validate_entry(&entries, 2).unwrap_err().message(),
        "主题索引条目无效：aa"
    );
}

#[test]
fn listings_match_the_index() {
    let entries = list(r#"[{"id":"aa","manifest":"themes/aa.json"}]"#);
    let names = |list: &[&str]| list.iter().map(|name| name.to_string()).collect::<Vec<_>>();
    assert!(is_listed(&entries, &names(&["aa.json"])));
    assert!(is_listed(&entries, &names(&["readme.md", "aa.json", ".json"])));
    assert!(!is_listed(&entries, &names(&[])));
    assert!(!is_listed(&entries, &names(&["AA.JSON"])));
    assert!(!is_listed(&entries, &names(&["aa.json", "bb.json"])));
}
