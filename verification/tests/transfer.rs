use codex_skin::catalog::{RemoteCatalog, RemoteResource};
use codex_skin::error::AppError;
use codex_skin::sources::{address_of, order_for_feed, order_for_file, Source};
use codex_skin::transfer::{
    accept_feed, begin_download, download_address, download_resource, download_response,
    feed_request, settings_document, sync_feed, validate_bytes, validate_content, verify_cached,
    write_failed, CatalogSync, FeedAction, FeedReply, SyncState, SyncStep, Transfer, TransferEvent,
    TransferStage,
};

const ABC: &str = "ba7816bf8f01cfea414140de5dae2223b00361a396177a9cb410ff61f20015ad";

fn source(id: &str) -> Source {
    Source {
        id: id.into(),
        name: format!("server {id}"),
        prefix: format!("https://{id}/"),
    }
}

fn sources(ids: &[&str]) -> Vec<Source> {
    ids.iter().map(|id| source(id)).collect()
}

fn abc() -> RemoteResource {
    RemoteResource {
        path: "themes/abc.json".into(),
        sha256: ABC.into(),
        size: 3,
    }
}

#[test]
fn servers_are_tried_from_the_preferred_one_on() {
    let list = sources(&["a", "b", "c"]);
    assert_eq!(order_for_feed(&list, "b"), [1, 0, 2]);
    assert_eq!(order_for_file(&list, "b"), [1, 0, 2]);
    assert_eq!(order_for_feed(&list, "x"), [0, 1, 2]);
    assert_eq!(order_for_file(&list, "x"), [0, 1, 2]);
    let twice = sources(&["a", "b", "a", "b"]);
    assert_eq!(order_for_feed(&twice, "b"), [1, 0]);
    assert_eq!(order_for_file(&twice, "b"), [1, 3, 0]);
}

#[test]
fn addresses() {
    assert_eq!(
        address_of("https://mirror/", "themes/a.json"),
        "https://mirror/https://raw.githubusercontent.com/lixiaobaivv/Codex-Skin-Store/main/themes/a.json"
    );
}

#[test]
fn tags_are_sent_to_their_server() {
    let state = SyncState {
        source_id: "a".into(),
        etag: Some("W/1".into()),
    };
    let home = feed_request(&source("a"), &state);
    assert_eq!(
        home.url,
        "https://a/https://raw.githubusercontent.com/lixiaobaivv/Codex-Skin-Store/main/desktop-catalog-v2.json"
    );
    assert_eq!(home.etag, Some("W/1".to_string()));
    assert_eq!(feed_request(&source("b"), &state).etag, None);
    assert_eq!(feed_request(&source("a"), &SyncState::default()).etag, None);
}

#[test]
fn answers_for_the_catalog() {
    let failure = |action: FeedAction| match action {
        FeedAction::Fail(error) => error.message(),
        other => panic!("{other:?}"),
    };
    assert!(matches!(
        sync_feed(FeedReply::NotModified, true),
        FeedAction::UseCache
    ));
    assert_eq!(
        failure(sync_feed(FeedReply::NotModified, false)),
        "服务器返回未修改，但本地没有目录缓存。"
    );
    assert_eq!(failure(sync_feed(FeedReply::Failed("down".into()), true)), "down");
    assert!(matches!(
        sync_feed(FeedReply::Answered(Some(5 * 1024 * 1024)), true),
        FeedAction::Receive(5242880)
    ));
    assert!(matches!(
        sync_feed(FeedReply::Answered(None), false),
        FeedAction::Receive(5242880)
    ));
    assert_eq!(
        failure(sync_feed(FeedReply::Answered(Some(5 * 1024 * 1024 + 1)), true)),
        "远程主题目录超过 5 MB 限制。"
    );
}

#[test]
fn only_sound_catalogs_are_remembered() {
    let empty = RemoteCatalog {
        schema_version: 2,
        name: "c".into(),
        revision: "2026-07-17T12:00:00Z".into(),
        themes: vec![],
    };
    assert_eq!(
        accept_feed(&empty, "a", None).unwrap_err().message(),
        "远程主题目录元数据无效。"
    );
}

#[test]
fn pieces_add_up_to_the_limit() {
    let mut bytes = Vec::new();
    download_response(&mut bytes, &vec![1, 2], 4).unwrap();
    download_response(&mut bytes, &vec![3, 4], 4).unwrap();
    assert_eq!(bytes, [1, 2, 3, 4]);
    download_response(&mut bytes, &vec![], 4).unwrap();
    assert_eq!(
        download_response(&mut bytes, &vec![5], 4).unwrap_err().message(),
        "远程资源超过声明的大小限制。"
    );
    assert_eq!(bytes, [1, 2, 3, 4]);
}

#[test]
fn the_first_server_that_answers_is_chosen() {
    let list = sources(&["a", "b"]);
    let mut sync = CatalogSync::new(&list, "b");
    assert_eq!(sync.pending(&list), 1);
    assert!(matches!(
        sync.sync(&list, Err(AppError::Http("x".into()))),
        SyncStep::Try(0)
    ));
    assert_eq!(sync.pending(&list), 0);
    match sync.sync(&list, Ok(7)) {
        SyncStep::Chosen(result) => {
            assert_eq!(result.theme_count, 7);
            assert_eq!(result.source_id, "a");
            assert_eq!(result.source_name, "server a");
        }
        other => panic!("{other:?}"),
    }
    match sync.sync(&list, Err(AppError::Http("y".into()))) {
        SyncStep::Failed(error) => assert_eq!(error.message(), "所有主题同步线路均失败：y"),
        other => panic!("{other:?}"),
    }
}

#[test]
fn settings_are_written_as_a_document() {
    assert_eq!(
        settings_document("git\"hub"),
        b"{\n  \"sourceId\": \"git\\\"hub\"\n}"
    );
}

#[test]
fn bytes_are_held_against_the_catalog() {
    assert!(validate_bytes(&abc(), false, &b"abc".to_vec()).is_ok());
    assert_eq!(
        validate_bytes(&abc(), false, &b"abd".to_vec()).unwrap_err().message(),
        "主题资源完整性校验失败：themes/abc.json"
    );
    let mut upper = abc();
    upper.sha256 = ABC.to_uppercase();
    assert!(validate_bytes(&upper, false, &b"abc".to_vec()).is_err());
    assert!(validate_bytes(&abc(), true, &b"abc".to_vec())
        .unwrap_err()
        .message()
        .starts_with("主题图片无法解码：themes/abc.json："));
    assert!(verify_cached(Some(&b"abc".to_vec()), &abc(), false));
    assert!(!verify_cached(Some(&b"abc".to_vec()), &abc(), true));
    assert!(!verify_cached(Some(&b"ab".to_vec()), &abc(), false));
    assert!(!verify_cached(None, &abc(), false));
}

#[test]
fn contents_are_checked_by_digest() {
    let digest: Vec<u8> = (0..32).collect();
    let file = RemoteResource {
        path: "previews/p.png".into(),
        sha256: "000102030405060708090a0b0c0d0e0f101112131415161718191a1b1c1d1e1f".into(),
        size: 9,
    };
    assert!(validate_content(&file, 9, &digest, None).is_ok());
    assert!(validate_content(&file, 9, &digest, Some(Ok((1, 1)))).is_ok());
    assert_eq!(
        validate_content(&file, 9, &digest, Some(Err("bad".into())))
            .unwrap_err()
            .message(),
        "主题图片无法解码：previews/p.png：bad"
    );
    assert!(validate_content(&file, 8, &digest, None).is_err());
    assert!(validate_content(&file, 9, &vec![0; 32], None).is_err());
}

fn step(transfer: Transfer, event: TransferEvent) -> Transfer {
    download_resource(transfer, &abc(), false, event)
}

#[test]
fn files_in_the_cache_are_not_fetched() {
    let list = sources(&["a"]);
    let transfer = step(
        begin_download(&list, "a"),
        TransferEvent::Cached(Some(b"abc".to_vec())),
    );
    assert!(matches!(transfer.stage, TransferStage::Done(Ok(()))));
}

#[test]
fn files_are_fetched_from_the_next_server_when_one_fails() {
    let list = sources(&["a", "b", "c"]);
    let transfer = step(begin_download(&list, "b"), TransferEvent::Cached(None));
    assert!(matches!(transfer.stage, TransferStage::Request));
    assert!(download_address(&transfer, &list, &abc()).starts_with("https://b/"));
    let transfer = step(transfer, TransferEvent::Answered(Err("down".into())));
    assert!(download_address(&transfer, &list, &abc()).starts_with("https://a/"));
    let transfer = step(transfer, TransferEvent::Answered(Ok(None)));
    assert!(matches!(transfer.stage, TransferStage::Body));
    let transfer = step(transfer, TransferEvent::Received(Ok(b"xyz".to_vec())));
    assert!(matches!(transfer.stage, TransferStage::Request));
    let transfer = step(transfer, TransferEvent::Answered(Ok(Some(3))));
    let transfer = step(transfer, TransferEvent::Received(Ok(b"abc".to_vec())));
    match &transfer.stage {
        TransferStage::Store(bytes) => assert_eq!(bytes, b"abc"),
        other => panic!("{other:?}"),
    }
    let transfer = step(transfer, TransferEvent::Stored(Ok(())));
    assert!(matches!(transfer.stage, TransferStage::Done(Ok(()))));
}

#[test]
fn files_that_no_server_has() {
    let list = sources(&["a"]);
    let complaint = |transfer: Transfer| match transfer.stage {
        TransferStage::Done(Err(error)) => error.message(),
        other => panic!("{other:?}"),
    };
    let asking = || step(begin_download(&list, "a"), TransferEvent::Cached(None));
    let text = "所有线路均无法下载主题资源 themes/abc.json：";
    assert_eq!(
        complaint(step(asking(), TransferEvent::Answered(Ok(Some(4))))),
        format!("{text}主题资源大小不匹配：themes/abc.json")
    );
    let sent = step(asking(), TransferEvent::Answered(Ok(None)));
    assert_eq!(
        complaint(step(sent, TransferEvent::Received(Err(AppError::Http("cut".into()))))),
        format!("{text}cut")
    );
    let sent = step(asking(), TransferEvent::Answered(Ok(None)));
    let stored = step(sent, TransferEvent::Received(Ok(b"abc".to_vec())));
    assert_eq!(
        complaint(step(stored, TransferEvent::Stored(Err(write_failed("full"))))),
        format!("{text}原子写入失败：full")
    );
    let nowhere = sources(&[]);
    assert_eq!(
        complaint(step(begin_download(&nowhere, "a"), TransferEvent::Cached(None))),
        text
    );
}
