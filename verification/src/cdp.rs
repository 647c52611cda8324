//! Themes in the running program: what is injected over its debugging port, and where.

use crate::error::{AppError, ErrorModel};
use crate::json::{json_read, models, quote, read_json, write_json, Json, JsonModel};
use crate::json_text::{json_written, quoted};
use crate::outside::{maybe, new_uuid, random_uuid, read_url, url_read, UrlModel, UrlParts};
use crate::text::{
    ascii_alphanumeric, ascii_lowercase, before, before_irreflexive, before_total,
    before_transitive, begins, begins_with, chars_of, comes_before, contains_text, lower, occurs,
    same, same_ignoring_case, split, split_on, strings, text_of,
};
use vstd::prelude::*;

verus! {

/// The port on which the program answers.
pub const DEBUG_PORT: u16 = 9229;

/// The element that holds the style of a theme.
pub const LIVE_STYLE_ID: &'static str = "codex-theme-store-live-style";

/// Where the page remembers which injection is the active one.
pub const ACTIVE_KEY: &'static str = "__codexThemeStoreActiveInjection";

/// Where the page remembers the script that is run on each new document.
pub const SCRIPT_KEY: &'static str = "__codexThemeStoreNewDocumentScript";

/// The script that takes a theme out of a page.
pub const CLEANUP: &'static str = "(() => { try { localStorage.removeItem('__codexThemeStoreActiveInjection'); localStorage.removeItem('__codexThemeStoreNewDocumentScript'); } catch {} globalThis.__codexThemeStore?.dispose?.(); globalThis.__codexThemeStore?.observer?.disconnect(); globalThis.__codexThemeStore?.resizeHandler && window.removeEventListener('resize',globalThis.__codexThemeStore.resizeHandler); delete globalThis.__codexThemeStore; document.querySelectorAll('.codex-theme-sidebar-logo,#codex-theme-effect-ambient,#codex-theme-effect-overlay,#codex-theme-composer-accent').forEach(node=>node.remove()); document.getElementById('codex-theme-store-live-style')?.remove(); document.getElementById('codex-theme-home')?.remove(); document.documentElement.classList.remove('codex-theme-native'); document.documentElement.removeAttribute('data-codex-theme-id'); document.documentElement.style.removeProperty('--codex-theme-background-size'); setTimeout(()=>location.reload(),0); return true; })()";

/// A compiled theme.
#[derive(Clone, Debug)]
pub struct Payload {
    pub css: String,
    pub javascript: String,
    pub theme_id: Option<String>,
}

/// What a [`Payload`] holds.
pub struct PayloadModel {
    pub css: Seq<char>,
    pub javascript: Seq<char>,
    pub theme_id: Option<Seq<char>>,
}

impl View for Payload {
    type V = PayloadModel;

    open spec fn view(&self) -> PayloadModel {
        PayloadModel {
            css: self.css@,
            javascript: self.javascript@,
            theme_id: maybe(self.theme_id),
        }
    }
}

/// How an injection went: how many pages there were, and how many took the theme.
#[derive(Clone, Copy, Debug, PartialEq, Eq, Structural)]
pub struct InjectionOutcome {
    pub applied: usize,
    pub candidates: usize,
}

impl Default for InjectionOutcome {
    fn default() -> (r: InjectionOutcome)
        ensures
            r == (InjectionOutcome { applied: 0, candidates: 0 }),
    {
        InjectionOutcome { applied: 0, candidates: 0 }
    }
}

/// The script that puts a theme into the page.
pub open spec fn theme_script(payload: PayloadModel, injection_id: Seq<char>) -> Seq<char> {
    "(() => { let style=document.getElementById("@
        + quoted(LIVE_STYLE_ID@)
        + "); if(!style){ style=document.createElement('style'); style.id="@
        + quoted(LIVE_STYLE_ID@)
        + "; const root=document.head||document.documentElement; if(!root)return false; root.appendChild(style); } style.dataset.codexThemeStoreInjectionId="@
        + quoted(injection_id)
        + "; style.textContent="@
        + quoted(payload.css)
        + "; "@
        + payload.javascript
        + " if(!globalThis.__codexThemeStore)return false; globalThis.__codexThemeStore.injectionId="@
        + quoted(injection_id)
        + "; return true; })()"@
}

/// The script that puts a theme into the page, with its texts as string literals.
pub fn theme_expression(payload: &Payload, injection_id: &str) -> (text: String)
    ensures
        text@ == theme_script(payload@, injection_id@),
{
    let style_id = quote(LIVE_STYLE_ID);
    let injection = quote(injection_id);
    let css = quote(&payload.css);
    let mut text = "(() => { let style=document.getElementById(".to_owned();
    text.append(&style_id);
    text.append("); if(!style){ style=document.createElement('style'); style.id=");
    text.append(&style_id);
    text.append("; const root=document.head||document.documentElement; if(!root)return false; root.appendChild(style); } style.dataset.codexThemeStoreInjectionId=");
    text.append(&injection);
    text.append("; style.textContent=");
    text.append(&css);
    text.append("; ");
    text.append(&payload.javascript);
    text.append(" if(!globalThis.__codexThemeStore)return false; globalThis.__codexThemeStore.injectionId=");
    text.append(&injection);
    text.append("; return true; })()");
    text
}

/// The theme that the page must show in the end, as a literal; `null` where any will do.
pub open spec fn expected_theme(payload: PayloadModel) -> Seq<char> {
    match payload.theme_id {
        Some(theme_id) => quoted(theme_id),
        None => json_written(JsonModel::Null),
    }
}

/// The script that makes an injection the active one and puts its theme into the page.
pub open spec fn activation_script(payload: PayloadModel, injection_id: Seq<char>) -> Seq<char> {
    "(() => { try { localStorage.setItem("@
        + quoted(ACTIVE_KEY@)
        + ", "@
        + quoted(injection_id)
        + "); if (localStorage.getItem("@
        + quoted(ACTIVE_KEY@)
        + ") !== "@
        + quoted(injection_id)
        + ") return false; } catch { return false; } return "@
        + theme_script(payload, injection_id)
        + "; })()"@
}

/// The script that is run on each new document as long as the injection is the active one.
pub open spec fn new_document_script(payload: PayloadModel, injection_id: Seq<char>) -> Seq<char> {
    "(() => { if (window.top !== window) return; const applySavedTheme=()=>{ try { if(localStorage.getItem("@
        + quoted(ACTIVE_KEY@)
        + ")!=="@
        + quoted(injection_id)
        + ") return; } catch { return; } "@
        + theme_script(payload, injection_id)
        + "; }; if(document.documentElement) applySavedTheme(); else document.addEventListener('DOMContentLoaded',applySavedTheme,{once:true}); })()"@
}

/// The script that tells whether the page shows the theme of the injection.
pub open spec fn verification_script(payload: PayloadModel, injection_id: Seq<char>) -> Seq<char> {
    "(() => { let active=false; try { active=localStorage.getItem("@
        + quoted(ACTIVE_KEY@)
        + ")==="@
        + quoted(injection_id)
        + "; } catch {} const style=document.getElementById("@
        + quoted(LIVE_STYLE_ID@)
        + "); const store=globalThis.__codexThemeStore; const root=document.documentElement; const actualTheme=root?.dataset?.codexThemeId||''; return active && style?.dataset.codexThemeStoreInjectionId==="@
        + quoted(injection_id)
        + " && !!store && store.injectionId==="@
        + quoted(injection_id)
        + " && store.surfaceDecorated===true && root?.classList.contains('codex-theme-native') && actualTheme.length>0 && ("@
        + expected_theme(payload)
        + "===null || actualTheme==="@
        + expected_theme(payload)
        + "); })()"@
}

/// The scripts of one injection.
#[derive(Debug)]
pub struct Scripts {
    pub activation: String,
    pub new_document: String,
    pub verification: String,
}

/// What [`Scripts`] holds.
pub struct ScriptsModel {
    pub activation: Seq<char>,
    pub new_document: Seq<char>,
    pub verification: Seq<char>,
}

impl View for Scripts {
    type V = ScriptsModel;

    open spec fn view(&self) -> ScriptsModel {
        ScriptsModel {
            activation: self.activation@,
            new_document: self.new_document@,
            verification: self.verification@,
        }
    }
}

/// The scripts of the injection of a payload under an identifier.
pub open spec fn scripts(payload: PayloadModel, injection_id: Seq<char>) -> ScriptsModel {
    ScriptsModel {
        activation: activation_script(payload, injection_id),
        new_document: new_document_script(payload, injection_id),
        verification: verification_script(payload, injection_id),
    }
}

fn activation_expression(payload: &Payload, injection_id: &str) -> (text: String)
    ensures
        text@ == activation_script(payload@, injection_id@),
{
    let active = quote(ACTIVE_KEY);
    let id = quote(injection_id);
    let theme = theme_expression(payload, injection_id);
    let mut text = "(() => { try { localStorage.setItem(".to_owned();
    text.append(&active);
    text.append(", ");
    text.append(&id);
    text.append("); if (localStorage.getItem(");
    text.append(&active);
    text.append(") !== ");
    text.append(&id);
    text.append(") return false; } catch { return false; } return ");
    text.append(&theme);
    text.append("; })()");
    text
}

fn new_document_expression(payload: &Payload, injection_id: &str) -> (text: String)
    ensures
        text@ == new_document_script(payload@, injection_id@),
{
    let active = quote(ACTIVE_KEY);
    let id = quote(injection_id);
    let theme = theme_expression(payload, injection_id);
    let mut text = "(() => { if (window.top !== window) return; const applySavedTheme=()=>{ try { if(localStorage.getItem(".to_owned();
    text.append(&active);
    text.append(")!==");
    text.append(&id);
    text.append(") return; } catch { return; } ");
    text.append(&theme);
    text.append("; }; if(document.documentElement) applySavedTheme(); else document.addEventListener('DOMContentLoaded',applySavedTheme,{once:true}); })()");
    text
}

fn verification_expression(payload: &Payload, injection_id: &str) -> (text: String)
    ensures
        text@ == verification_script(payload@, injection_id@),
{
    let active = quote(ACTIVE_KEY);
    let id = quote(injection_id);
    let style_id = quote(LIVE_STYLE_ID);
    let expected = match &payload.theme_id {
        Some(theme_id) => quote(theme_id),
        None => write_json(&Json::Null),
    };
    let mut text = "(() => { let active=false; try { active=localStorage.getItem(".to_owned();
    text.append(&active);
    text.append(")===");
    text.append(&id);
    text.append("; } catch {} const style=document.getElementById(");
    text.append(&style_id);
    text.append("); const store=globalThis.__codexThemeStore; const root=document.documentElement; const actualTheme=root?.dataset?.codexThemeId||''; return active && style?.dataset.codexThemeStoreInjectionId===");
    text.append(&id);
    text.append(" && !!store && store.injectionId===");
    text.append(&id);
    text.append(" && store.surfaceDecorated===true && root?.classList.contains('codex-theme-native') && actualTheme.length>0 && (");
    text.append(&expected);
    text.append("===null || actualTheme===");
    text.append(&expected);
    text.append("); })()");
    text
}

/// Writes the scripts of an injection under the given identifier.
pub fn injection_scripts(payload: &Payload, injection_id: &str) -> (r: Scripts)
    ensures
        r@ == scripts(payload@, injection_id@),
{
    Scripts {
        activation: activation_expression(payload, injection_id),
        new_document: new_document_expression(payload, injection_id),
        verification: verification_expression(payload, injection_id),
    }
}

/// Prepares an injection under a new random identifier.
pub fn prepare_injection(payload: &Payload) -> (r: (String, Scripts))
    ensures
        random_uuid(r.0@),
        r.1@ == scripts(payload@, r.0@),
{
    let injection_id = new_uuid();
    let scripts = injection_scripts(payload, &injection_id);
    (injection_id, scripts)
}

/// How many of the pages took the theme.
pub open spec fn count(results: Seq<bool>) -> nat
    decreases results.len(),
{
    if results.len() == 0 {
        0
    } else {
        count(results.drop_last()) + if results.last() { 1nat } else { 0nat }
    }
}

fn successes(results: &Vec<bool>) -> (n: usize)
    ensures
        n == count(results@),
        n <= results@.len(),
{
    let mut n: usize = 0;
    let mut i: usize = 0;
    assert(results@.take(0) =~= Seq::empty());
    while i < results.len()
        invariant
            i <= results@.len(),
            n == count(results@.take(i as int)),
            n <= i,
        decreases results@.len() - i,
    {
        assert(results@.take(i + 1).drop_last() =~= results@.take(i as int));
        if results[i] {
            n += 1;
        }
        i += 1;
    }
    assert(results@.take(i as int) =~= results@);
    n
}

/// The outcome of an injection, from what happened on each page; `None` where the time ran out.
pub fn inject(results: Option<&Vec<bool>>) -> (r: Result<InjectionOutcome, AppError>)
    ensures
        match results {
            Some(list) => r is Ok && r->Ok_0.applied == count(list@) && r->Ok_0.candidates
                == list@.len(),
            None => r is Err && r->Err_0@ == ErrorModel::Message("CDP 注入超时。"@),
        },
{
    match results {
        Some(list) => Ok(InjectionOutcome { applied: successes(list), candidates: list.len() }),
        None => Err(AppError::Message("CDP 注入超时。".to_owned())),
    }
}

/// The number of pages that a theme was taken out of, from what happened on each page; `None`
/// where the time ran out.
pub fn remove(results: Option<&Vec<bool>>) -> (r: Result<usize, AppError>)
    ensures
        match results {
            Some(list) => r is Ok && r->Ok_0 == count(list@),
            None => r is Err && r->Err_0@ == ErrorModel::Message("CDP 回滚超时。"@),
        },
{
    match results {
        Some(list) => Ok(successes(list)),
        None => Err(AppError::Message("CDP 回滚超时。".to_owned())),
    }
}

/// The script that looks for the main window of the program in a page.
pub open spec fn probe_script(main_surface: Seq<char>) -> Seq<char> {
    "!!document.body && !!document.querySelector('.app-shell-left-panel, aside.app-shell-left-panel') && !!document.querySelector("@
        + quoted(main_surface)
        + ") && (!!document.querySelector('.composer-surface-chrome, [role=main]') || !!document.querySelector('[contenteditable=\"true\"][role=\"textbox\"]'))"@
}

/// The script that looks for the main window of the program in a page, whose main surface the
/// selector `main_surface` finds.
pub fn probe_expression(main_surface: &str) -> (text: String)
    ensures
        text@ == probe_script(main_surface@),
{
    let surface = quote(main_surface);
    let mut text = "!!document.body && !!document.querySelector('.app-shell-left-panel, aside.app-shell-left-panel') && !!document.querySelector(".to_owned();
    text.append(&surface);
    text.append(") && (!!document.querySelector('.composer-surface-chrome, [role=main]') || !!document.querySelector('[contenteditable=\"true\"][role=\"textbox\"]'))");
    text
}

/// The script that makes the page remember a registered script.
pub open spec fn persist_script(identifier: Seq<char>) -> Seq<char> {
    "(() => { try { localStorage.setItem("@
        + quoted(SCRIPT_KEY@)
        + ","@
        + quoted(identifier)
        + ") ; return true; } catch { return false; } })()"@
}

/// The script that makes the page remember a registered script.
pub fn persist_expression(identifier: &str) -> (text: String)
    ensures
        text@ == persist_script(identifier@),
{
    let key = quote(SCRIPT_KEY);
    let value = quote(identifier);
    let mut text = "(() => { try { localStorage.setItem(".to_owned();
    text.append(&key);
    text.append(",");
    text.append(&value);
    text.append(") ; return true; } catch { return false; } })()");
    text
}

/// The script that reads which script the page remembers.
pub const REMEMBERED: &'static str = "(() => { try { return localStorage.getItem('__codexThemeStoreNewDocumentScript') || ''; } catch { return ''; } })()";

/// A character of a page's identifier.
pub open spec fn page_char(c: char) -> bool {
    ascii_alphanumeric(c) || c == '.' || c == '_' || c == '-'
}

/// The segments of a URL's path; none where it does not begin with a slash.
pub open spec fn path_segments(path: Seq<char>) -> Option<Seq<Seq<char>>> {
    if path.len() > 0 && path[0] == '/' {
        Some(split_on(path.skip(1), '/'))
    } else {
        None
    }
}

/// Whether the path leads to a page or to the program itself, by an identifier of at most 200
/// characters.
pub open spec fn debugger_path(path: Seq<char>) -> bool {
    match path_segments(path) {
        Some(segments) => {
            &&& segments.len() == 3
            &&& segments[0] == "devtools"@
            &&& segments[1] == "page"@ || segments[1] == "browser"@
            &&& 0 < segments[2].len() <= 200
            &&& forall|i: int| 0 <= i < segments[2].len() ==> page_char(#[trigger] segments[2][i])
        },
        None => false,
    }
}

/// Whether a URL is a socket of the program on this machine: the debugging port of the loopback
/// address, no user, no query, no fragment, and a path that leads to a page.
pub open spec fn loopback_socket(url: UrlModel) -> bool {
    &&& url.scheme == "ws"@
    &&& url.port == Some(DEBUG_PORT)
    &&& url.username.len() == 0
    &&& !url.has_password
    &&& !url.has_query
    &&& !url.has_fragment
    &&& url.host == Some("127.0.0.1"@) || url.host == Some("localhost"@)
    &&& debugger_path(url.path)
}

/// Whether a text is a socket of the program on this machine.
pub open spec fn socket_text(text: Seq<char>) -> bool {
    match url_read(text) {
        Some(url) => loopback_socket(url),
        None => false,
    }
}

fn is_page_name(name: &str) -> (r: bool)
    ensures
        r == (0 < name@.len() <= 200 && forall|i: int|
            0 <= i < name@.len() ==> page_char(#[trigger] name@[i])),
{
    let chars = chars_of(name);
    if chars.len() == 0 || chars.len() > 200 {
        return false;
    }
    let mut i: usize = 0;
    while i < chars.len()
        invariant
            chars@ == name@,
            i <= chars@.len(),
            forall|j: int| 0 <= j < i ==> page_char(#[trigger] name@[j]),
        decreases chars@.len() - i,
    {
        let c = chars[i];
        if !(('a' <= c && c <= 'z') || ('A' <= c && c <= 'Z') || ('0' <= c && c <= '9') || c == '.'
            || c == '_' || c == '-') {
            return false;
        }
        i += 1;
    }
    true
}

fn is_debugger_path(path: &str) -> (r: bool)
    ensures
        r == debugger_path(path@),
{
    let chars = chars_of(path);
    if chars.len() == 0 || chars[0] != '/' {
        return false;
    }
    let rest = text_of(&chars, 1, chars.len());
    assert(rest@ =~= path@.skip(1));
    let segments = split(&rest, '/');
    if segments.len() != 3 {
        return false;
    }
    assert(segments@[0]@ == split_on(rest@, '/')[0]);
    assert(segments@[1]@ == split_on(rest@, '/')[1]);
    assert(segments@[2]@ == split_on(rest@, '/')[2]);
    same(&segments[0], "devtools") && (same(&segments[1], "page") || same(&segments[1], "browser"))
        && is_page_name(&segments[2])
}

/// Whether a URL is a socket of the program on this machine.
pub fn is_loopback_socket(url: &UrlParts) -> (r: bool)
    ensures
        r == loopback_socket(url@),
{
    let local = match &url.host {
        Some(host) => same(host, "127.0.0.1") || same(host, "localhost"),
        None => false,
    };
    let port = match url.port {
        Some(port) => port == DEBUG_PORT,
        None => false,
    };
    same(&url.scheme, "ws") && port && url.username.as_str().is_empty() && !url.has_password
        && !url.has_query && !url.has_fragment && local && is_debugger_path(&url.path)
}

/// Whether a text is a socket of the program on this machine.
pub fn allowed_socket(value: &str) -> (r: bool)
    ensures
        r == socket_text(value@),
{
    match read_url(value) {
        Some(url) => is_loopback_socket(&url),
        None => false,
    }
}

/// Whether a description of the program names a socket of this machine.
pub open spec fn names_socket(version: JsonModel) -> bool {
    match version.text_member("webSocketDebuggerUrl"@) {
        Some(socket) => socket_text(socket),
        None => false,
    }
}

/// Whether a description of the program names a socket of this machine.
pub fn describes_debugger(version: &Json) -> (r: bool)
    ensures
        r == names_socket(version@),
{
    match version.text_at("webSocketDebuggerUrl") {
        Some(socket) => allowed_socket(socket),
        None => false,
    }
}

/// Whether the program is ready to take a theme, by its answer; `None` where none came.
pub fn is_ready(answer: Option<&Vec<u8>>) -> (r: bool)
    ensures
        r == match answer {
            Some(bytes) => match json_read(bytes@) {
                Ok(version) => names_socket(version),
                Err(_) => false,
            },
            None => false,
        },
{
    match answer {
        Some(bytes) => match read_json(bytes) {
            Ok(version) => describes_debugger(&version),
            Err(_) => false,
        },
        None => false,
    }
}

/// Whether a URL and a title are those of the program's main page.
pub open spec fn main_page(url: Option<UrlModel>, title: Seq<char>) -> bool {
    match url {
        Some(url) => {
            &&& url.scheme == "app"@
            &&& lower(url.path) == lower("/index.html"@)
            &&& !url.has_query
            &&& lower(title) == lower("codex"@)
        },
        None => false,
    }
}

/// Whether a URL and a title are those of the program's main page.
pub fn is_main_page(url: &UrlParts, title: &str) -> (r: bool)
    ensures
        r == main_page(Some(url@), title@),
{
    same(&url.scheme, "app") && same_ignoring_case(&url.path, "/index.html") && !url.has_query
        && same_ignoring_case(title, "codex")
}

/// Whether a page is the program's main page: `app:` and `/index.html` without a query, under
/// the program's title.
pub fn is_main_codex_page(url: &str, title: &str) -> (r: bool)
    ensures
        r == main_page(url_read(url@), title@),
{
    match read_url(url) {
        Some(parts) => is_main_page(&parts, title),
        None => false,
    }
}

/// A text that may be missing, empty where it is.
pub open spec fn or_empty(text: Option<Seq<char>>) -> Seq<char> {
    match text {
        Some(text) => text,
        None => Seq::empty(),
    }
}

/// How early a page comes: the main page first; then pages outside the program's own that name
/// it; the program's other pages never.
pub open spec fn priority(main: bool, url: Seq<char>, title: Seq<char>) -> Option<u8> {
    if main {
        Some(0)
    } else if begins(lower(url), "app:"@) {
        None
    } else if occurs(lower(url), "codex"@) || occurs(lower(title), "codex"@) {
        Some(2)
    } else {
        None
    }
}

/// How early a page comes, if a theme may go there at all.
pub fn page_priority(main: bool, url: &str, title: &str) -> (r: Option<u8>)
    ensures
        r == priority(main, url@, title@),
{
    if main {
        return Some(0);
    }
    let low_url = ascii_lowercase(url);
    let low_title = ascii_lowercase(title);
    if begins_with(&low_url, "app:") {
        None
    } else if contains_text(&low_url, "codex") || contains_text(&low_title, "codex") {
        Some(2)
    } else {
        None
    }
}

/// The priority and the socket of a page to which a theme may go.
pub open spec fn target(page: JsonModel) -> Option<(u8, Seq<char>)> {
    let url = or_empty(page.text_member("url"@));
    let title = or_empty(page.text_member("title"@));
    if page.text_member("type"@) != Some("page"@) {
        None
    } else {
        match (
            priority(main_page(url_read(url), title), url, title),
            page.text_member("webSocketDebuggerUrl"@),
        ) {
            (Some(order), Some(socket)) => if socket_text(socket) {
                Some((order, socket))
            } else {
                None
            },
            _ => None,
        }
    }
}

/// The targets among some pages, in the order of the pages.
pub open spec fn targets_among(pages: Seq<JsonModel>) -> Seq<(u8, Seq<char>)>
    decreases pages.len(),
{
    if pages.len() == 0 {
        Seq::empty()
    } else {
        let found = targets_among(pages.drop_last());
        match target(pages.last()) {
            Some(pair) => found.push(pair),
            None => found,
        }
    }
}

/// Whether one target comes before another: by priority, then by socket.
pub open spec fn sooner(a: (u8, Seq<char>), b: (u8, Seq<char>)) -> bool {
    a.0 < b.0 || (a.0 == b.0 && before(a.1, b.1))
}

/// Whether no target comes before one that stands ahead of it.
pub open spec fn in_order(list: Seq<(u8, Seq<char>)>) -> bool {
    forall|i: int, j: int|
        0 <= i < j < list.len() ==> !sooner(#[trigger] list[j], #[trigger] list[i])
}

/// The sockets of a list of targets, without those that repeat the socket right before them.
pub open spec fn sockets(list: Seq<(u8, Seq<char>)>) -> Seq<Seq<char>>
    decreases list.len(),
{
    if list.len() == 0 {
        Seq::empty()
    } else {
        let front = sockets(list.drop_last());
        if front.len() > 0 && front.last() == list.last().1 {
            front
        } else {
            front.push(list.last().1)
        }
    }
}

/// Whether `result` is what becomes of the targets `found`: sorted, then stripped of repeats.
pub open spec fn arranged(found: Seq<(u8, Seq<char>)>, result: Seq<Seq<char>>) -> bool {
    exists|list: Seq<(u8, Seq<char>)>|
        list.to_multiset() == found.to_multiset() && in_order(list) && result == #[trigger] sockets(
            list,
        )
}

/// What a list of targets holds.
pub open spec fn pairs(list: Seq<(u8, String)>) -> Seq<(u8, Seq<char>)> {
    Seq::new(list.len(), |i: int| (list[i].0, list[i].1@))
}

/// A target that is not before `b`, which is not before `c`, is not before `c`.
proof fn not_sooner_transitive(a: (u8, Seq<char>), b: (u8, Seq<char>), c: (u8, Seq<char>))
    requires
        !sooner(b, a),
        !sooner(c, b),
    ensures
        !sooner(c, a),
{
    if sooner(c, a) {
        before_total(a.1, b.1);
        before_total(b.1, c.1);
        if a.0 == c.0 {
            before_irreflexive(a.1);
            if a.1 != b.1 && b.1 != c.1 {
                before_transitive(a.1, b.1, c.1);
                before_transitive(c.1, a.1, c.1);
                before_irreflexive(c.1);
            }
        }
    }
}

/// Puts a target in its place.
fn place(list: &mut Vec<(u8, String)>, order: u8, socket: String)
    requires
        in_order(pairs(old(list)@)),
    ensures
        in_order(pairs(final(list)@)),
        pairs(final(list)@).to_multiset() == pairs(old(list)@).to_multiset().insert(
            (order, socket@),
        ),
{
    let ghost whole = pairs(list@);
    let ghost pair = (order, socket@);
    let mut at: usize = list.len();
    while at > 0 && (order < list[at - 1].0 || (order == list[at - 1].0 && comes_before(
        &socket,
        &list[at - 1].1,
    )))
        invariant
            at <= list@.len(),
            whole == pairs(list@),
            pair == (order, socket@),
            forall|j: int| at <= j < whole.len() ==> sooner(pair, #[trigger] whole[j]),
        decreases at,
    {
        assert(whole[at - 1] == (list@[at - 1].0, list@[at - 1].1@));
        at -= 1;
    }
    assert(at > 0 ==> whole[at - 1] == (list@[at - 1].0, list@[at - 1].1@));
    assert(at > 0 ==> !sooner(pair, whole[at - 1]));
    list.insert(at, (order, socket));
    let ghost longer = pairs(list@);
    assert(longer =~= whole.insert(at as int, pair));
    proof {
        vstd::seq_lib::to_multiset_insert(whole, at as int, pair);
        assert forall|i: int, j: int| 0 <= i < j < longer.len() implies !sooner(
            #[trigger] longer[j],
            #[trigger] longer[i],
        ) by {
            if j < at {
                assert(longer[i] == whole[i] && longer[j] == whole[j]);
            } else if i > at {
                assert(longer[i] == whole[i - 1] && longer[j] == whole[j - 1]);
            } else if i < at && j > at {
                assert(longer[i] == whole[i] && longer[j] == whole[j - 1]);
            } else if j == at {
                assert(longer[i] == whole[i]);
                if i < at - 1 {
                    not_sooner_transitive(whole[i], whole[at - 1], pair);
                }
            } else {
                assert(longer[j] == whole[j - 1]);
                assert(sooner(pair, whole[j - 1]));
                if sooner(whole[j - 1], pair) {
                    if pair.0 == whole[j - 1].0 {
                        before_transitive(pair.1, whole[j - 1].1, pair.1);
                        before_irreflexive(pair.1);
                    }
                }
            }
        }
    }
}

/// Sorts targets by priority and socket and strips the repeats that then stand side by side.
pub fn arrange_targets(found: &Vec<(u8, String)>) -> (r: Vec<String>)
    ensures
        arranged(pairs(found@), strings(r@)),
{
    let mut list: Vec<(u8, String)> = Vec::new();
    let mut i: usize = 0;
    assert(pairs(list@) =~= Seq::empty());
    assert(pairs(found@).take(0) =~= Seq::empty());
    while i < found.len()
        invariant
            i <= found@.len(),
            in_order(pairs(list@)),
            pairs(list@).to_multiset() == pairs(found@).take(i as int).to_multiset(),
        decreases found@.len() - i,
    {
        place(&mut list, found[i].0, found[i].1.clone());
        proof {
            let longer = pairs(found@).take(i + 1);
            let shorter = pairs(found@).take(i as int);
            assert(longer =~= shorter.push(pairs(found@)[i as int]));
            vstd::seq_lib::to_multiset_build(shorter, pairs(found@)[i as int]);
        }
        i += 1;
    }
    assert(pairs(found@).take(i as int) =~= pairs(found@));
    let mut result: Vec<String> = Vec::new();
    let mut k: usize = 0;
    assert(pairs(list@).take(0) =~= Seq::empty());
    assert(strings(result@) =~= Seq::empty());
    while k < list.len()
        invariant
            k <= list@.len(),
            strings(result@) == sockets(pairs(list@).take(k as int)),
        decreases list@.len() - k,
    {
        let ghost longer = pairs(list@).take(k + 1);
        assert(longer.drop_last() =~= pairs(list@).take(k as int));
        assert(longer.last() == (list@[k as int].0, list@[k as int].1@));
        let n: usize = result.len();
        let repeats = n > 0 && same(&result[n - 1], &list[k].1);
        assert(n > 0 ==> strings(result@).last() == result@[n - 1]@);
        if !repeats {
            let ghost shorter = result@;
            result.push(list[k].1.clone());
            assert(strings(result@) =~= strings(shorter).push(list@[k as int].1@));
        }
        k += 1;
    }
    assert(pairs(list@).take(k as int) =~= pairs(list@));
    result
}

fn text_or_empty<'a>(text: Option<&'a str>) -> (r: &'a str)
    ensures
        r@ == or_empty(match text {
            Some(text) => Some(text@),
            None => None,
        }),
{
    proof {
        reveal_strlit("");
    }
    match text {
        Some(text) => text,
        None => {
            assert(""@ =~= Seq::empty());
            ""
        },
    }
}

/// The priority and the socket of a page, if a theme may go there.
fn target_of(page: &Json) -> (r: Option<(u8, String)>)
    ensures
        match r {
            Some(pair) => target(page@) == Some((pair.0, pair.1@)),
            None => target(page@) is None,
        },
{
    let is_page = match page.text_at("type") {
        Some(kind) => same(kind, "page"),
        None => false,
    };
    if !is_page {
        return None;
    }
    let url = text_or_empty(page.text_at("url"));
    let title = text_or_empty(page.text_at("title"));
    match page_priority(is_main_codex_page(url, title), url, title) {
        Some(order) => match page.text_at("webSocketDebuggerUrl") {
            Some(socket) => if allowed_socket(socket) {
                Some((order, socket.to_owned()))
            } else {
                None
            },
            None => None,
        },
        None => None,
    }
}

/// The sockets of the pages that a theme goes to: the program's main page first, then other
/// pages that name the program; each behind an allowed socket. The program's auxiliary pages
/// never take part.
pub fn targets(pages: &Vec<Json>) -> (r: Vec<String>)
    ensures
        arranged(targets_among(models(pages@)), strings(r@)),
{
    let mut found: Vec<(u8, String)> = Vec::new();
    let mut i: usize = 0;
    assert(models(pages@).take(0) =~= Seq::empty());
    assert(pairs(found@) =~= Seq::empty());
    while i < pages.len()
        invariant
            i <= pages@.len(),
            pairs(found@) == targets_among(models(pages@).take(i as int)),
        decreases pages@.len() - i,
    {
        let ghost longer = models(pages@).take(i + 1);
        assert(longer.drop_last() =~= models(pages@).take(i as int));
        assert(longer.last() == pages@[i as int]@);
        let ghost shorter = found@;
        if let Some(pair) = target_of(&pages[i]) {
            found.push(pair);
            assert(pairs(found@) =~= pairs(shorter).push((pair.0, pair.1@)));
        }
        i += 1;
    }
    assert(models(pages@).take(i as int) =~= models(pages@));
    arrange_targets(&found)
}

/// The pages that the program lists, from its answer; `unreadable` is what is said of an answer
/// that is no list.
pub fn listed_pages(answer: &Vec<u8>, unreadable: &str) -> (r: Result<Vec<Json>, AppError>)
    ensures
        match r {
            Ok(pages) => json_read(answer@) is Ok && json_read(answer@)->Ok_0.items() == Some(
                models(pages@),
            ),
            Err(error) => {
                &&& json_read(answer@) is Err || json_read(answer@)->Ok_0.items() is None
                &&& error@ == ErrorModel::Http(unreadable@)
            },
        },
{
    match read_json(answer) {
        Ok(Json::Array(pages)) => {
            proof {
                crate::json::array_model(pages);
            }
            Ok(pages)
        },
        _ => Err(AppError::Http(unreadable.to_owned())),
    }
}

/// What stands in a list of sockets stood in the list of targets.
proof fn sockets_from(list: Seq<(u8, Seq<char>)>, k: int)
    requires
        0 <= k < sockets(list).len(),
    ensures
        exists|i: int| 0 <= i < list.len() && (#[trigger] list[i]).1 == sockets(list)[k],
    decreases list.len(),
{
    let front = sockets(list.drop_last());
    if k < front.len() {
        sockets_from(list.drop_last(), k);
        let i = choose|i: int|
            0 <= i < list.drop_last().len() && (#[trigger] list.drop_last()[i]).1 == front[k];
        assert(list[i].1 == sockets(list)[k]);
    } else {
        assert(list[list.len() - 1].1 == sockets(list)[k]);
    }
}

/// The first socket is that of the first target.
proof fn first_socket(list: Seq<(u8, Seq<char>)>)
    requires
        list.len() > 0,
    ensures
        sockets(list).len() > 0,
        sockets(list)[0] == list[0].1,
    decreases list.len(),
{
    if list.len() > 1 {
        first_socket(list.drop_last());
    } else {
        assert(sockets(list.drop_last()) == Seq::<Seq<char>>::empty());
    }
}

/// A target among some pages is the target of one of them, and the other way round.
pub proof fn target_among(pages: Seq<JsonModel>, pair: (u8, Seq<char>))
    ensures
        targets_among(pages).contains(pair) <==> exists|i: int|
            0 <= i < pages.len() && #[trigger] target(pages[i]) == Some(pair),
    decreases pages.len(),
{
    if pages.len() > 0 {
        let front = pages.drop_last();
        let found = targets_among(front);
        let whole = targets_among(pages);
        target_among(front, pair);
        if whole.contains(pair) {
            let k = choose|k: int| 0 <= k < whole.len() && whole[k] == pair;
            if k < found.len() {
                assert(found[k] == pair);
                let i = choose|i: int|
                    0 <= i < front.len() && #[trigger] target(front[i]) == Some(pair);
                assert(target(pages[i]) == Some(pair));
            } else {
                assert(target(pages[pages.len() - 1]) == Some(pair));
            }
        }
        if exists|i: int| 0 <= i < pages.len() && #[trigger] target(pages[i]) == Some(pair) {
            let i = choose|i: int| 0 <= i < pages.len() && #[trigger] target(pages[i]) == Some(pair);
            if i < front.len() {
                assert(target(front[i]) == Some(pair));
                let k = choose|k: int| 0 <= k < found.len() && found[k] == pair;
                assert(whole[k] == pair);
            } else {
                assert(whole[whole.len() - 1] == pair);
            }
        }
    }
}

/// A theme goes only to pages of the program itself or pages that name it, never to the
/// program's auxiliary pages, and only over a socket of this machine.
pub proof fn targets_are_pages(pages: Seq<JsonModel>, result: Seq<Seq<char>>, k: int)
    requires
        arranged(targets_among(pages), result),
        0 <= k < result.len(),
    ensures
        socket_text(result[k]),
        exists|i: int|
            {
                let url = or_empty(pages[i].text_member("url"@));
                let title = or_empty(pages[i].text_member("title"@));
                &&& 0 <= i < pages.len()
                &&& (#[trigger] pages[i]).text_member("type"@) == Some("page"@)
                &&& pages[i].text_member("webSocketDebuggerUrl"@) == Some(result[k])
                &&& main_page(url_read(url), title) || !begins(lower(url), "app:"@)
            },
{
    let found = targets_among(pages);
    let list = choose|list: Seq<(u8, Seq<char>)>|
        list.to_multiset() == found.to_multiset() && in_order(list) && result == #[trigger] sockets(
            list,
        );
    sockets_from(list, k);
    let j = choose|j: int| 0 <= j < list.len() && (#[trigger] list[j]).1 == result[k];
    let pair = list[j];
    assert(list.contains(pair));
    vstd::seq_lib::to_multiset_contains(list, pair);
    vstd::seq_lib::to_multiset_contains(found, pair);
    target_among(pages, pair);
    let i = choose|i: int| 0 <= i < pages.len() && #[trigger] target(pages[i]) == Some(pair);
    assert(pages[i].text_member("type"@) == Some("page"@));
}

/// Each socket of a list of targets stands in the list of sockets.
proof fn sockets_cover(list: Seq<(u8, Seq<char>)>, j: int)
    requires
        0 <= j < list.len(),
    ensures
        sockets(list).contains(list[j].1),
    decreases list.len(),
{
    let front = sockets(list.drop_last());
    let whole = sockets(list);
    if j < list.len() - 1 {
        sockets_cover(list.drop_last(), j);
        let k = front.index_of(list[j].1);
        assert(front[k] == list[j].1);
        assert(whole[k] == front[k]);
    } else {
        assert(whole.last() == list[j].1);
        assert(whole[whole.len() - 1] == list[j].1);
    }
}

/// No page to which a theme may go is left out.
pub proof fn pages_are_reached(pages: Seq<JsonModel>, result: Seq<Seq<char>>, i: int)
    requires
        arranged(targets_among(pages), result),
        0 <= i < pages.len(),
        target(pages[i]) is Some,
    ensures
        result.contains((target(pages[i])->0).1),
{
    let found = targets_among(pages);
    let list = choose|list: Seq<(u8, Seq<char>)>|
        list.to_multiset() == found.to_multiset() && in_order(list) && result == #[trigger] sockets(
            list,
        );
    let pair = target(pages[i])->0;
    target_among(pages, pair);
    vstd::seq_lib::to_multiset_contains(list, pair);
    vstd::seq_lib::to_multiset_contains(found, pair);
    let j = choose|j: int| 0 <= j < list.len() && list[j] == pair;
    sockets_cover(list, j);
}

/// Where the program's main page is among the pages, a main page comes first.
pub proof fn main_page_first(pages: Seq<JsonModel>, result: Seq<Seq<char>>, main: int)
    requires
        arranged(targets_among(pages), result),
        0 <= main < pages.len(),
        target(pages[main]) is Some,
        (target(pages[main])->0).0 == 0,
    ensures
        result.len() > 0,
        exists|i: int|
            0 <= i < pages.len() && #[trigger] target(pages[i]) == Some((0u8, result[0])),
{
    let found = targets_among(pages);
    let list = choose|list: Seq<(u8, Seq<char>)>|
        list.to_multiset() == found.to_multiset() && in_order(list) && result == #[trigger] sockets(
            list,
        );
    let pair = target(pages[main])->0;
    target_among(pages, pair);
    vstd::seq_lib::to_multiset_contains(list, pair);
    vstd::seq_lib::to_multiset_contains(found, pair);
    let j = choose|j: int| 0 <= j < list.len() && list[j] == pair;
    first_socket(list);
    assert(j > 0 ==> !sooner(list[j], list[0]));
    let first = list[0];
    assert(list.contains(first));
    vstd::seq_lib::to_multiset_contains(list, first);
    vstd::seq_lib::to_multiset_contains(found, first);
    target_among(pages, first);
}

/// The pages determine the sockets and their order.
pub proof fn targets_determined(
    found: Seq<(u8, Seq<char>)>,
    one: Seq<Seq<char>>,
    other: Seq<Seq<char>>,
)
    requires
        arranged(found, one),
        arranged(found, other),
    ensures
        one == other,
{
    let a = choose|list: Seq<(u8, Seq<char>)>|
        list.to_multiset() == found.to_multiset() && in_order(list) && one == #[trigger] sockets(
            list,
        );
    let b = choose|list: Seq<(u8, Seq<char>)>|
        list.to_multiset() == found.to_multiset() && in_order(list) && other == #[trigger] sockets(
            list,
        );
    let leq = |x: (u8, Seq<char>), y: (u8, Seq<char>)| !sooner(y, x);
    assert(vstd::relations::total_ordering(leq)) by {
        assert forall|x: (u8, Seq<char>)| #[trigger] leq(x, x) by {
            before_irreflexive(x.1);
        }
        assert forall|x: (u8, Seq<char>), y: (u8, Seq<char>)| #[trigger]
            leq(x, y) && #[trigger] leq(y, x) implies x == y by {
            before_total(x.1, y.1);
        }
        assert forall|x: (u8, Seq<char>), y: (u8, Seq<char>), z: (u8, Seq<char>)| #[trigger]
            leq(x, y) && #[trigger] leq(y, z) implies leq(x, z) by {
            not_sooner_transitive(x, y, z);
        }
        assert forall|x: (u8, Seq<char>), y: (u8, Seq<char>)| #[trigger]
            leq(x, y) || #[trigger] leq(y, x) by {
            if sooner(y, x) && sooner(x, y) {
                before_transitive(x.1, y.1, x.1);
                before_irreflexive(x.1);
            }
        }
    }
    assert(vstd::relations::sorted_by(a, leq));
    assert(vstd::relations::sorted_by(b, leq));
    vstd::seq_lib::lemma_sorted_unique(a, b, leq);
    assert(a == b);
}

} // verus!
