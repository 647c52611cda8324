use codex_skin::cdp::{Scripts, CLEANUP, REMEMBERED};
use codex_skin::cdp_session::{
    begin_removal, connection_failed, evaluate, evaluation_value, is_true, read_document,
    read_reply, remove_script, remove_target, sending_failed, successful, successful_evaluation,
    Action, Command, Incoming, Injection, Removal, Reply,
};
use codex_skin::json::{read_json, Json};

fn json(text: &str) -> Json {
    read_json(text.as_bytes()).unwrap()
}

fn value(text: &str) -> Json {
    json(&format!(r#"{{"id":1,"result":{{"result":{{"value":{text}}}}}}}"#))
}

#[test]
fn commands_are_documents() {
    assert_eq!(
        evaluate(7, "1+\"1\"").text(),
        r#"{"id":7,"method":"Runtime.evaluate","params":{"awaitPromise":true,"expression":"1+\"1\"","returnByValue":true}}"#
    );
    assert_eq!(
        remove_script("s", 3).text(),
        r#"{"id":3,"method":"Page.removeScriptToEvaluateOnNewDocument","params":{"identifier":"s"}}"#
    );
}

#[test]
fn answers_are_awaited() {
    let answer = |text: &str| read_reply(&Incoming::Data(text.as_bytes().to_vec()), 5);
    let failure = |reply: Reply| match reply {
        Reply::Fail(error) => error.message(),
        other => panic!("{other:?}"),
    };
    assert!(matches!(answer(r#"{"id":5}"#), Reply::Answer(_)));
    assert!(matches!(answer(r#"{"id":4}"#), Reply::Wait));
    assert!(matches!(answer(r#"{"method":"Page.loaded"}"#), Reply::Wait));
    assert!(matches!(answer("{"), Reply::Fail(_)));
    assert!(matches!(read_reply(&Incoming::Control, 5), Reply::Wait));
    assert_eq!(failure(read_reply(&Incoming::Close, 5)), "CDP 连接已关闭。");
    assert_eq!(failure(read_reply(&Incoming::End, 5)), "CDP 未返回响应。");
    assert_eq!(
        failure(read_reply(&Incoming::Failed("x".into()), 5)),
        "CDP 接收失败：x"
    );
    assert_eq!(
        failure(read_reply(&Incoming::Data(vec![b' '; 4 * 1024 * 1024 + 1]), 5)),
        "CDP 响应超过 4 MB 安全限制。"
    );
    assert!(matches!(
        read_document(Ok(json(r#"{"id":5}"#)), 5),
        Reply::Answer(_)
    ));
    assert_eq!(failure(read_document(Err("bad".into()), 5)), "bad");
    assert_eq!(
        connection_failed("x").message(),
        "CDP WebSocket 连接失败：x"
    );
    assert_eq!(sending_failed("x").message(), "CDP 发送失败：x");
}

#[test]
fn answers_are_read() {
    assert!(successful(&json(r#"{"id":1}"#)));
    assert!(!successful(&json(r#"{"error":{}}"#)));
    assert!(successful_evaluation(&value("false")));
    assert!(!successful_evaluation(&json(
        r#"{"result":{"result":{},"exceptionDetails":{}}}"#
    )));
    assert!(!successful_evaluation(&json(r#"{"result":{}}"#)));
    assert!(is_true(&value("true")));
    assert!(!is_true(&value("false")));
    assert!(!is_true(&value("1")));
    assert!(matches!(evaluation_value(&value("3")), Some(Json::Unsigned(3))));
    assert!(evaluation_value(&json("{}")).is_none());
}

fn scripts() -> Scripts {
    Scripts {
        activation: "activate".into(),
        new_document: "new".into(),
        verification: "verify".into(),
    }
}

fn told(action: Action) -> String {
    let tell = |command: Command| command.text();
    match action {
        Action::Send(command) => tell(command),
        Action::PauseAndSend(pause, command) => format!("{pause} {}", tell(command)),
        Action::Finish(outcome) => format!("finish {outcome}"),
    }
}

fn evaluation(id: u64, expression: &str) -> String {
    evaluate(id, expression).text()
}

#[test]
fn an_injection_that_takes() {
    let (mut injection, first) = Injection::begin("main", scripts());
    assert_eq!(told(first), r#"{"id":1,"method":"Page.enable","params":{}}"#);
    assert!(told(injection.inject_target(&json(r#"{"id":1,"result":{}}"#)))
        .starts_with(r#"{"id":99,"method":"Runtime.evaluate""#));
    assert_eq!(
        told(injection.inject_target(&value("true"))),
        evaluation(2, REMEMBERED)
    );
    assert_eq!(
        told(injection.inject_target(&value("\"old\""))),
        r#"{"id":3,"method":"Page.removeScriptToEvaluateOnNewDocument","params":{"identifier":"old"}}"#
    );
    assert_eq!(
        told(injection.inject_target(&json("{}"))),
        r#"{"id":4,"method":"Page.addScriptToEvaluateOnNewDocument","params":{"source":"new"}}"#
    );
    assert!(told(injection.inject_target(&json(r#"{"result":{"identifier":"9"}}"#)))
        .starts_with(r#"{"id":5,"method":"Runtime.evaluate""#));
    assert_eq!(
        told(injection.inject_target(&value("true"))),
        evaluation(7, "activate")
    );
    assert_eq!(
        told(injection.inject_target(&value("true"))),
        evaluation(10, "verify")
    );
    assert_eq!(
        told(injection.inject_target(&value("false"))),
        format!("50 {}", evaluation(11, "verify"))
    );
    assert_eq!(told(injection.inject_target(&value("true"))), "finish true");
}

#[test]
fn an_injection_that_fails_withdraws_its_script() {
    let (mut injection, _) = Injection::begin("main", scripts());
    injection.inject_target(&json("{}"));
    injection.inject_target(&value("true"));
    assert_eq!(
        told(injection.inject_target(&value("\"\""))),
        r#"{"id":4,"method":"Page.addScriptToEvaluateOnNewDocument","params":{"source":"new"}}"#
    );
    injection.inject_target(&json(r#"{"result":{"identifier":"9"}}"#));
    injection.inject_target(&value("true"));
    injection.inject_target(&value("true"));
    for _ in 0..4 {
        injection.inject_target(&value("false"));
    }
    let last = told(injection.inject_target(&value("false")));
    assert!(last.ends_with(
        r#"{"id":20,"method":"Page.removeScriptToEvaluateOnNewDocument","params":{"identifier":"9"}}"#
    ));
    assert_eq!(told(injection.inject_target(&json("{}"))), "finish false");
}

#[test]
fn an_injection_stops_at_other_pages() {
    let (mut injection, _) = Injection::begin("main", scripts());
    injection.inject_target(&json("{}"));
    assert_eq!(told(injection.inject_target(&value("false"))), "finish false");
    let (mut injection, _) = Injection::begin("main", scripts());
    assert_eq!(
        told(injection.inject_target(&json(r#"{"error":{}}"#))),
        "finish false"
    );
}

#[test]
fn a_theme_is_taken_off_a_page() {
    let (stage, first) = begin_removal();
    assert_eq!(told(first), r#"{"id":1,"method":"Page.enable","params":{}}"#);
    let (stage, action) = remove_target(stage, &json("{}"));
    assert_eq!(told(action), evaluation(2, REMEMBERED));
    let (stage, action) = remove_target(stage, &value("\"old\""));
    assert_eq!(told(action), remove_script("old", 3).text());
    let (stage, action) = remove_target(stage, &json("{}"));
    assert_eq!(told(action), evaluation(4, CLEANUP));
    let (stage, action) = remove_target(stage, &value("true"));
    assert_eq!(told(action), "finish true");
    assert_eq!(stage, Removal::Done);
}
