use codex_skin::cdp::{
    allowed_socket, arrange_targets, describes_debugger, inject, injection_scripts,
    is_loopback_socket, is_main_codex_page, is_main_page, is_ready, listed_pages, page_priority,
    persist_expression, prepare_injection, probe_expression, remove, targets, theme_expression,
    Payload, CLEANUP,
};
use codex_skin::json::read_json;
use codex_skin::outside::UrlParts;

#[test]
fn cleanup_removes_orphaned_theme_nodes() {
    assert!(CLEANUP.contains(".codex-theme-sidebar-logo"));
    assert!(CLEANUP.contains("#codex-theme-effect-overlay"));
    assert!(CLEANUP.contains("querySelectorAll"));
}

#[test]
fn only_loopback_cdp_urls_are_allowed() {
    assert!(allowed_socket("ws://127.0.0.1:9229/devtools/page/abc-123"));
    assert!(allowed_socket(
        "ws://localhost:9229/devtools/browser/abc_123"
    ));
    assert!(!allowed_socket("ws://0.0.0.0:9229/devtools/page/abc"));
    assert!(!allowed_socket("ws://127.0.0.1:9230/devtools/page/abc"));
    assert!(!allowed_socket(
        "ws://user@127.0.0.1:9229/devtools/page/abc"
    ));
    assert!(!allowed_socket("ws://127.0.0.1:9229/devtools/page/abc?x=1"));
}

#[test]
fn identifies_only_the_main_codex_app_page() {
    assert!(is_main_codex_page("app://-/index.html", "Codex"));
    assert!(is_main_codex_page("app:///index.html", "codex"));
    assert!(!is_main_codex_page(
        "app://-/index.html?initialRoute=%2Favatar-overlay",
        "Codex"
    ));
    assert!(!is_main_codex_page("https://chatgpt.com/", "Codex"));
}

#[test]
fn sockets_at_the_edges() {
    let socket = |path: &str| format!("ws://127.0.0.1:9229{path}");
    assert!(allowed_socket(&socket(&format!("/devtools/page/{}", "a".repeat(200)))));
    assert!(!allowed_socket(&socket(&format!("/devtools/page/{}", "a".repeat(201)))));
    assert!(!allowed_socket(&socket("/devtools/page/")));
    assert!(!allowed_socket(&socket("/devtools/worker/abc")));
    assert!(!allowed_socket(&socket("/devtools/page/abc/def")));
    assert!(!allowed_socket(&socket("/devtools/page/a%20b")));
    assert!(!allowed_socket(&socket("/devtools/page/abc#x")));
    assert!(!allowed_socket("wss://127.0.0.1:9229/devtools/page/abc"));
    assert!(!allowed_socket("ws://127.0.0.1/devtools/page/abc"));
    assert!(!allowed_socket("no url"));
}

fn parts() -> UrlParts {
    UrlParts {
        scheme: "ws".into(),
        username: String::new(),
        has_password: false,
        host: Some("localhost".into()),
        port: Some(9229),
        path: "/devtools/page/a".into(),
        has_query: false,
        has_fragment: false,
    }
}

#[test]
fn sockets_go_by_the_parts_of_their_url() {
    assert!(is_loopback_socket(&parts()));
    assert!(!is_loopback_socket(&UrlParts { port: None, ..parts() }));
    assert!(!is_loopback_socket(&UrlParts { host: None, ..parts() }));
    assert!(!is_loopback_socket(&UrlParts { has_password: true, ..parts() }));
    assert!(!is_loopback_socket(&UrlParts { has_query: true, ..parts() }));
    let page = UrlParts {
        scheme: "app".into(),
        path: "/INDEX.html".into(),
        ..parts()
    };
    assert!(is_main_page(&page, "CODEX"));
    assert!(!is_main_page(&page, "Codex 2"));
    assert!(!is_main_page(&UrlParts { has_query: true, ..page }, "Codex"));
}

#[test]
fn programs_are_ready_when_they_name_a_socket() {
    let ready = |text: &str| is_ready(Some(&text.as_bytes().to_vec()));
    assert!(ready(
        r#"{"webSocketDebuggerUrl":"ws://127.0.0.1:9229/devtools/browser/x"}"#
    ));
    assert!(!ready(r#"{"webSocketDebuggerUrl":"ws://example.com/devtools/browser/x"}"#));
    assert!(!ready(r#"{}"#));
    assert!(!ready("<html>"));
    assert!(!is_ready(None));
    assert!(describes_debugger(
        &read_json(br#"{"webSocketDebuggerUrl":"ws://localhost:9229/devtools/page/x"}"#).unwrap()
    ));
}

#[test]
fn pages_are_picked_main_window_first() {
    let pages = listed_pages(
        &br#"[
        {"type":"page","url":"https://chatgpt.com/codex","title":"x","webSocketDebuggerUrl":"ws://127.0.0.1:9229/devtools/page/b"},
        {"type":"page","url":"app://-/index.html?initialRoute=x","title":"Codex","webSocketDebuggerUrl":"ws://127.0.0.1:9229/devtools/page/c"},
        {"type":"worker","url":"app://-/index.html","title":"Codex","webSocketDebuggerUrl":"ws://127.0.0.1:9229/devtools/page/d"},
        {"type":"page","url":"https://example.com/","title":"Other","webSocketDebuggerUrl":"ws://127.0.0.1:9229/devtools/page/e"},
        {"type":"page","url":"https://x/","title":"My CODEX","webSocketDebuggerUrl":"ws://127.0.0.1:9229/devtools/page/a"},
        {"type":"page","url":"app://-/index.html","title":"Codex","webSocketDebuggerUrl":"ws://127.0.0.1:9229/devtools/page/z"},
        {"type":"page","url":"app://-/index.html","title":"Codex","webSocketDebuggerUrl":"ws://127.0.0.1:9229/devtools/page/z"},
        {"type":"page","url":"app://-/index.html","title":"Codex","webSocketDebuggerUrl":"ws://10.0.0.1:9229/devtools/page/y"}
    ]"#
        .to_vec(),
        "unreadable",
    )
    .unwrap();
    assert_eq!(
        targets(&pages),
        [
            "ws://127.0.0.1:9229/devtools/page/z",
            "ws://127.0.0.1:9229/devtools/page/a",
            "ws://127.0.0.1:9229/devtools/page/b",
        ]
    );
    for answer in ["{}", "["] {
        assert_eq!(
            listed_pages(&answer.as_bytes().to_vec(), "unreadable")
                .unwrap_err()
                .message(),
            "unreadable"
        );
    }
    assert!(targets(&vec![]).is_empty());
}

#[test]
fn targets_are_put_in_order() {
    let found = vec![
        (2, "b".to_string()),
        (0, "c".to_string()),
        (2, "a".to_string()),
        (2, "b".to_string()),
        (2, "c".to_string()),
    ];
    assert_eq!(arrange_targets(&found), ["c", "a", "b", "c"]);
    assert_eq!(page_priority(true, "app://-/index.html", "Codex"), Some(0));
    assert_eq!(page_priority(false, "APP://x", "Codex"), None);
    assert_eq!(page_priority(false, "https://x", "codex"), Some(2));
    assert_eq!(page_priority(false, "https://x", "y"), None);
}

fn payload(theme_id: Option<&str>) -> Payload {
    Payload {
        css: "a{content:\"x\"}".into(),
        javascript: "run();".into(),
        theme_id: theme_id.map(str::to_string),
    }
}

#[test]
fn themes_become_scripts() {
    let theme = "(() => { let style=document.getElementById(\"codex-theme-store-live-style\"); if(!style){ style=document.createElement('style'); style.id=\"codex-theme-store-live-style\"; const root=document.head||document.documentElement; if(!root)return false; root.appendChild(style); } style.dataset.codexThemeStoreInjectionId=\"id\"; style.textContent=\"a{content:\\\"x\\\"}\"; run(); if(!globalThis.__codexThemeStore)return false; globalThis.__codexThemeStore.injectionId=\"id\"; return true; })()";
    assert_eq!(theme_expression(&payload(None), "id"), theme);
    let scripts = injection_scripts(&payload(None), "id");
    assert_eq!(
        scripts.activation,
        format!("(() => {{ try {{ localStorage.setItem(\"__codexThemeStoreActiveInjection\", \"id\"); if (localStorage.getItem(\"__codexThemeStoreActiveInjection\") !== \"id\") return false; }} catch {{ return false; }} return {theme}; }})()")
    );
    assert_eq!(
        scripts.new_document,
        format!("(() => {{ if (window.top !== window) return; const applySavedTheme=()=>{{ try {{ if(localStorage.getItem(\"__codexThemeStoreActiveInjection\")!==\"id\") return; }} catch {{ return; }} {theme}; }}; if(document.documentElement) applySavedTheme(); else document.addEventListener('DOMContentLoaded',applySavedTheme,{{once:true}}); }})()")
    );
    assert_eq!(
        scripts.verification,
        "(() => { let active=false; try { active=localStorage.getItem(\"__codexThemeStoreActiveInjection\")===\"id\"; } catch {} const style=document.getElementById(\"codex-theme-store-live-style\"); const store=globalThis.__codexThemeStore; const root=document.documentElement; const actualTheme=root?.dataset?.codexThemeId||''; return active && style?.dataset.codexThemeStoreInjectionId===\"id\" && !!store && store.injectionId===\"id\" && store.surfaceDecorated===true && root?.classList.contains('codex-theme-native') && actualTheme.length>0 && (null===null || actualTheme===null); })()"
    );
    let named = injection_scripts(&payload(Some("rain")), "id");
    assert!(named
        .verification
        .ends_with("&& (\"rain\"===null || actualTheme===\"rain\"); })()"));
}

#[test]
fn injections_have_identifiers_of_their_own() {
    let (first, scripts) = prepare_injection(&payload(None));
    let (second, _) = prepare_injection(&payload(None));
    assert_eq!(first.len(), 32);
    assert_ne!(first, second);
    assert_eq!(&first[12..13], "4");
    assert_eq!(
        scripts.activation,
        injection_scripts(&payload(None), &first).activation
    );
}

#[test]
fn outcomes_count_the_pages() {
    let outcome = inject(Some(&vec![true, false, true])).unwrap();
    assert_eq!((outcome.applied, outcome.candidates), (2, 3));
    assert_eq!(inject(None).unwrap_err().message(), "CDP 注入超时。");
    assert_eq!(remove(Some(&vec![false, true])).unwrap(), 1);
    assert_eq!(remove(None).unwrap_err().message(), "CDP 回滚超时。");
}

#[test]
fn scripts_for_the_page() {
    assert_eq!(
        probe_expression("main[role=\"x\"]"),
        "!!document.body && !!document.querySelector('.app-shell-left-panel, aside.app-shell-left-panel') && !!document.querySelector(\"main[role=\\\"x\\\"]\") && (!!document.querySelector('.composer-surface-chrome, [role=main]') || !!document.querySelector('[contenteditable=\"true\"][role=\"textbox\"]'))"
    );
    assert_eq!(
        persist_expression("7"),
        "(() => { try { localStorage.setItem(\"__codexThemeStoreNewDocumentScript\",\"7\") ; return true; } catch { return false; } })()"
    );
}
