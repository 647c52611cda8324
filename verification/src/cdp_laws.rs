//! What holds of the scripts that are injected, and of the pages that they go to.

use crate::cdp::{
    activation_script, arranged, count, debugger_path, expected_theme, in_order, main_page,
    names_socket, new_document_script, or_empty, page_char, pairs, path_segments, persist_script,
    priority, probe_script, scripts, sockets, socket_text, sooner, target, target_among,
    targets_among, theme_script, verification_script, Payload, PayloadModel, Scripts, CLEANUP,
    REMEMBERED,
};
use crate::json::JsonModel;
use crate::json_text::quoted;
use crate::outside::{url_read, UrlModel, UrlParts};
use crate::text::{
    before, before_irreflexive, before_total, before_transitive, begins, ends, lower, occurs,
    split_on,
};
use crate::text_laws::{ends_of_texts, letters_and_digits, occurrences_cut, texts_are_cut};
use vstd::prelude::*;

verus! {

/// Shows that a text stands in another between what is before and behind it.
proof fn stands(s: Seq<char>, a: Seq<char>, part: Seq<char>, b: Seq<char>)
    requires
        s == a + part + b,
    ensures
        occurs(s, part),
        a.len() == 0 ==> begins(s, part),
        b.len() == 0 ==> ends(s, part),
{
    occurrences_cut(s, part);
    ends_of_texts(s, part);
    if a.len() == 0 {
        assert(s =~= part + b);
    }
    if b.len() == 0 {
        assert(s =~= a + part);
    }
}

/// The script that puts a theme into a page finds or makes the theme's own style element, marks it
/// with the injection, gives it the style sheet as a literal, runs the theme's script, and marks
/// what that script left with the injection too.
pub proof fn theme_scripts_carry_the_theme(payload: PayloadModel, id: Seq<char>)
    ensures
        begins(
            theme_script(payload, id),
            "(() => { let style=document.getElementById("@
                + quoted("codex-theme-store-live-style"@)
                + "); if(!style){ style=document.createElement('style'); style.id="@
                + quoted("codex-theme-store-live-style"@)
                + "; const root=document.head||document.documentElement; if(!root)return false; root.appendChild(style); } style.dataset.codexThemeStoreInjectionId="@
                + quoted(id),
        ),
        occurs(
            theme_script(payload, id),
            quoted(id) + ("; style.textContent="@ + quoted(payload.css) + "; "@
                + payload.javascript),
        ),
        ends(
            theme_script(payload, id),
            payload.javascript + (
            " if(!globalThis.__codexThemeStore)return false; globalThis.__codexThemeStore.injectionId="@
                + quoted(id) + "; return true; })()"@),
        ),
{
    let s = theme_script(payload, id);
    let first = "(() => { let style=document.getElementById("@
        + quoted("codex-theme-store-live-style"@)
        + "); if(!style){ style=document.createElement('style'); style.id="@
        + quoted("codex-theme-store-live-style"@)
        + "; const root=document.head||document.documentElement; if(!root)return false; root.appendChild(style); } style.dataset.codexThemeStoreInjectionId="@;
    let middle = "; style.textContent="@ + quoted(payload.css) + "; "@ + payload.javascript;
    let last = " if(!globalThis.__codexThemeStore)return false; globalThis.__codexThemeStore.injectionId="@
        + quoted(id) + "; return true; })()"@;
    assert(s =~= Seq::<char>::empty() + (first + quoted(id)) + (middle + last));
    stands(s, Seq::empty(), first + quoted(id), middle + last);
    assert(s =~= first + (quoted(id) + middle) + last);
    stands(s, first, quoted(id) + middle, last);
    let sheet = first + quoted(id) + ("; style.textContent="@ + quoted(payload.css) + "; "@);
    assert(s =~= sheet + (payload.javascript + last) + Seq::<char>::empty());
    stands(s, sheet, payload.javascript + last, Seq::empty());
}

/// The script that activates a theme stores the injection under the key of the active one, makes
/// sure that it is stored, and only then puts the theme into the page.
pub proof fn activations_come_first(payload: PayloadModel, id: Seq<char>)
    ensures
        activation_script(payload, id) == "(() => { try { localStorage.setItem("@
            + quoted("__codexThemeStoreActiveInjection"@) + ", "@ + quoted(id)
            + "); if (localStorage.getItem("@ + quoted("__codexThemeStoreActiveInjection"@)
            + ") !== "@ + quoted(id) + ") return false; } catch { return false; } return "@
            + theme_script(payload, id) + "; })()"@,
{
}

/// The script for new documents puts the theme into the page only at the top and as long as the
/// injection is the active one, at once or when the document is there.
pub proof fn new_documents_are_themed(payload: PayloadModel, id: Seq<char>)
    ensures
        new_document_script(payload, id)
            == "(() => { if (window.top !== window) return; const applySavedTheme=()=>{ try { if(localStorage.getItem("@
            + quoted("__codexThemeStoreActiveInjection"@) + ")!=="@ + quoted(id)
            + ") return; } catch { return; } "@ + theme_script(payload, id)
            + "; }; if(document.documentElement) applySavedTheme(); else document.addEventListener('DOMContentLoaded',applySavedTheme,{once:true}); })()"@,
{
}

/// The script that verifies a theme asks that the injection be the active one and be marked on the
/// style element and on what the theme's script left, that the window be decorated, and that the
/// theme shown be the expected one, if one is expected.
pub proof fn verifications_ask_for_the_theme(payload: PayloadModel, id: Seq<char>)
    ensures
        begins(
            verification_script(payload, id),
            "(() => { let active=false; try { active=localStorage.getItem("@
                + quoted("__codexThemeStoreActiveInjection"@) + ")==="@ + quoted(id)
                + "; } catch {} const style=document.getElementById("@
                + quoted("codex-theme-store-live-style"@),
        ),
        ends(
            verification_script(payload, id),
            quoted("codex-theme-store-live-style"@) + (
            "); const store=globalThis.__codexThemeStore; const root=document.documentElement; const actualTheme=root?.dataset?.codexThemeId||''; return active && style?.dataset.codexThemeStoreInjectionId==="@
                + quoted(id) + " && !!store && store.injectionId==="@ + quoted(id)
                + " && store.surfaceDecorated===true && root?.classList.contains('codex-theme-native') && actualTheme.length>0 && ("@
                + (match payload.theme_id {
                Some(theme) => quoted(theme),
                None => "null"@,
            }) + "===null || actualTheme==="@ + (match payload.theme_id {
                Some(theme) => quoted(theme),
                None => "null"@,
            }) + "); })()"@),
        ),
{
    let s = verification_script(payload, id);
    let style = quoted("codex-theme-store-live-style"@);
    let theme = match payload.theme_id {
        Some(theme) => quoted(theme),
        None => "null"@,
    };
    assert(expected_theme(payload) == theme);
    let first = "(() => { let active=false; try { active=localStorage.getItem("@
        + quoted("__codexThemeStoreActiveInjection"@) + ")==="@ + quoted(id)
        + "; } catch {} const style=document.getElementById("@;
    let last = "); const store=globalThis.__codexThemeStore; const root=document.documentElement; const actualTheme=root?.dataset?.codexThemeId||''; return active && style?.dataset.codexThemeStoreInjectionId==="@
        + quoted(id) + " && !!store && store.injectionId==="@ + quoted(id)
        + " && store.surfaceDecorated===true && root?.classList.contains('codex-theme-native') && actualTheme.length>0 && ("@
        + theme + "===null || actualTheme==="@ + theme + "); })()"@;
    assert(s =~= Seq::<char>::empty() + (first + style) + last);
    stands(s, Seq::empty(), first + style, last);
    assert(s =~= first + (style + last) + Seq::<char>::empty());
    stands(s, first, style + last, Seq::empty());
}

/// The three scripts of an injection are those of one payload under one identifier.
pub proof fn scripts_belong_together(payload: PayloadModel, id: Seq<char>)
    ensures
        scripts(payload, id).activation == activation_script(payload, id),
        scripts(payload, id).new_document == new_document_script(payload, id),
        scripts(payload, id).verification == verification_script(payload, id),
{
}

/// Payloads, scripts and the parts of a URL keep what they hold.
pub proof fn payloads_are_what_they_hold(payload: Payload, held: Scripts, url: UrlParts)
    ensures
        payload@.css == payload.css@,
        payload@.javascript == payload.javascript@,
        payload.theme_id matches Some(id) ==> payload@.theme_id == Some(id@),
        payload.theme_id is None ==> payload@.theme_id is None,
        held@.activation == held.activation@,
        held@.new_document == held.new_document@,
        held@.verification == held.verification@,
        url@.scheme == url.scheme@,
        url@.username == url.username@,
        url@.has_password == url.has_password,
        url.host matches Some(host) ==> url@.host == Some(host@),
        url.host is None ==> url@.host is None,
        url@.port == url.port,
        url@.path == url.path@,
        url@.has_query == url.has_query,
        url@.has_fragment == url.has_fragment,
{
}

/// The page is made to remember a script under the key under which that is read and in the end
/// removed again; the main window is known by its panel, its surface and its composer.
pub proof fn small_scripts(identifier: Seq<char>, surface: Seq<char>)
    ensures
        persist_script(identifier) == "(() => { try { localStorage.setItem("@
            + quoted("__codexThemeStoreNewDocumentScript"@) + ","@ + quoted(identifier)
            + ") ; return true; } catch { return false; } })()"@,
        REMEMBERED@
            == "(() => { try { return localStorage.getItem('__codexThemeStoreNewDocumentScript') || ''; } catch { return ''; } })()"@,
        probe_script(surface)
            == "!!document.body && !!document.querySelector('.app-shell-left-panel, aside.app-shell-left-panel') && !!document.querySelector("@
            + quoted(surface)
            + ") && (!!document.querySelector('.composer-surface-chrome, [role=main]') || !!document.querySelector('[contenteditable=\"true\"][role=\"textbox\"]'))"@,
        CLEANUP@
            == "(() => { try { localStorage.removeItem('__codexThemeStoreActiveInjection'); localStorage.removeItem('__codexThemeStoreNewDocumentScript'); } catch {} globalThis.__codexThemeStore?.dispose?.(); globalThis.__codexThemeStore?.observer?.disconnect(); globalThis.__codexThemeStore?.resizeHandler && window.removeEventListener('resize',globalThis.__codexThemeStore.resizeHandler); delete globalThis.__codexThemeStore; document.querySelectorAll('.codex-theme-sidebar-logo,#codex-theme-effect-ambient,#codex-theme-effect-overlay,#codex-theme-composer-accent').forEach(node=>node.remove()); document.getElementById('codex-theme-store-live-style')?.remove(); document.getElementById('codex-theme-home')?.remove(); document.documentElement.classList.remove('codex-theme-native'); document.documentElement.removeAttribute('data-codex-theme-id'); document.documentElement.style.removeProperty('--codex-theme-background-size'); setTimeout(()=>location.reload(),0); return true; })()"@,
{
}

proof fn counting_adds(a: Seq<bool>, b: Seq<bool>)
    ensures
        count(a + b) == count(a) + count(b),
    decreases b.len(),
{
    if b.len() == 0 {
        assert(a + b =~= a);
    } else {
        assert((a + b).drop_last() =~= a + b.drop_last());
        assert((a + b).last() == b.last());
        counting_adds(a, b.drop_last());
    }
}

/// Pages are counted one by one: each that is as it should be counts once, and no other does.
pub proof fn pages_are_counted(a: Seq<bool>, b: Seq<bool>)
    ensures
        count(Seq::<bool>::empty()) == 0,
        count(seq![true]) == 1,
        count(seq![false]) == 0,
        count(a + b) == count(a) + count(b),
        count(a) <= a.len(),
        count(a) > 0 <==> a.contains(true),
{
    reveal_with_fuel(count, 2);
    counting_adds(a, b);
    count_bounds(a);
}

proof fn count_bounds(a: Seq<bool>)
    ensures
        count(a) <= a.len(),
        count(a) > 0 <==> a.contains(true),
    decreases a.len(),
{
    if a.len() > 0 {
        let front = a.drop_last();
        count_bounds(front);
        if a.contains(true) && !a.last() {
            let i = a.index_of(true);
            assert(front[i] == true);
        }
        if front.contains(true) {
            let i = front.index_of(true);
            assert(a[i] == true);
        }
        if a.last() {
            assert(a[a.len() - 1] == true);
        }
    }
}

/// Whether a character may stand in a page's identifier: an ASCII letter or digit, a dot, an
/// underscore or a hyphen.
pub open spec fn in_page_name(c: char) -> bool {
    ||| 48 <= c as int <= 57
    ||| 65 <= c as int <= 90
    ||| 97 <= c as int <= 122
    ||| c == '.'
    ||| c == '_'
    ||| c == '-'
}

/// Whether a text is an identifier of a page: 1 to 200 such characters.
pub open spec fn page_name(name: Seq<char>) -> bool {
    &&& 1 <= name.len() <= 200
    &&& forall|i: int| 0 <= i < name.len() ==> in_page_name(#[trigger] name[i])
}

proof fn three_segments(a: Seq<char>, b: Seq<char>, c: Seq<char>)
    requires
        !a.contains('/'),
        !b.contains('/'),
        !c.contains('/'),
    ensures
        split_on(a + seq!['/'] + (b + seq!['/'] + c), '/') == seq![a, b, c],
{
    texts_are_cut(c, Seq::empty(), '/');
    texts_are_cut(b, c, '/');
    texts_are_cut(a, b + seq!['/'] + c, '/');
    assert(seq![a] + (seq![b] + seq![c]) =~= seq![a, b, c]);
}

/// A text is cut at its first slash, if it has one.
proof fn cut_at_slash(s: Seq<char>) -> (r: (Seq<char>, Seq<char>))
    requires
        s.contains('/'),
    ensures
        s == r.0 + seq!['/'] + r.1,
        !r.0.contains('/'),
    decreases s.len(),
{
    if s[0] == '/' {
        assert(s =~= Seq::<char>::empty() + seq!['/'] + s.skip(1));
        (Seq::empty(), s.skip(1))
    } else {
        let i = s.index_of('/');
        assert(s.skip(1)[i - 1] == '/');
        let (a, b) = cut_at_slash(s.skip(1));
        let first = seq![s[0]] + a;
        assert(s =~= seq![s[0]] + s.skip(1));
        assert(s =~= first + seq!['/'] + b);
        assert(!first.contains('/')) by {
            if first.contains('/') {
                let k = first.index_of('/');
                assert(k > 0);
                assert(a[k - 1] == '/');
            }
        }
        (first, b)
    }
}

/// The path of a debugging socket is `/devtools/`, then `page` or `browser`, a slash and the
/// identifier of a page; and any such path is one.
pub proof fn debugger_paths_are(path: Seq<char>)
    ensures
        debugger_path(path) <==> exists|name: Seq<char>|
            #[trigger] page_name(name) && (path == "/devtools/page/"@ + name || path
                == "/devtools/browser/"@ + name),
{
    reveal_strlit("/devtools/page/");
    reveal_strlit("/devtools/browser/");
    reveal_strlit("devtools");
    reveal_strlit("page");
    reveal_strlit("browser");
    assert(!"devtools"@.contains('/') && !"page"@.contains('/') && !"browser"@.contains('/'));
    if debugger_path(path) {
        let rest = path.skip(1);
        let segments = split_on(rest, '/');
        let name = segments[2];
        assert(path =~= seq!['/'] + rest);
        if !rest.contains('/') {
            texts_are_cut(rest, Seq::empty(), '/');
        }
        let (a, b) = cut_at_slash(rest);
        texts_are_cut(a, b, '/');
        if !b.contains('/') {
            texts_are_cut(b, Seq::empty(), '/');
        }
        let (c, d) = cut_at_slash(b);
        texts_are_cut(c, d, '/');
        if d.contains('/') {
            let (e, f) = cut_at_slash(d);
            texts_are_cut(e, f, '/');
            crate::text::split_nonempty(f, '/');
        } else {
            texts_are_cut(d, Seq::empty(), '/');
        }
        assert(segments =~= seq![a, c, d]);
        assert forall|i: int| 0 <= i < name.len() implies in_page_name(#[trigger] name[i]) by {
            assert(page_char(name[i]));
            letters_and_digits(name[i]);
        }
        assert(page_name(name));
        if c == "page"@ {
            assert(path =~= "/devtools/page/"@ + name);
        } else {
            assert(path =~= "/devtools/browser/"@ + name);
        }
    }
    if exists|name: Seq<char>|
        #[trigger] page_name(name) && (path == "/devtools/page/"@ + name || path
            == "/devtools/browser/"@ + name) {
        let name = choose|name: Seq<char>|
            #[trigger] page_name(name) && (path == "/devtools/page/"@ + name || path
                == "/devtools/browser/"@ + name);
        let kind = if path == "/devtools/page/"@ + name { "page"@ } else { "browser"@ };
        assert(!name.contains('/')) by {
            if name.contains('/') {
                let i = name.index_of('/');
                assert(in_page_name(name[i]));
            }
        }
        three_segments("devtools"@, kind, name);
        assert(path.skip(1) =~= "devtools"@ + seq!['/'] + (kind + seq!['/'] + name));
        assert(path_segments(path) == Some(seq!["devtools"@, kind, name]));
        assert(seq!["devtools"@, kind, name][2] == name);
        assert forall|i: int| 0 <= i < name.len() implies page_char(#[trigger] name[i]) by {
            assert(in_page_name(name[i]));
            letters_and_digits(name[i]);
        }
    }
}

/// A socket is taken exactly where it is a web socket on port 9229 of this machine, by address or
/// by name, without a user, a password, a query or a fragment, and its path leads to a page.
pub proof fn sockets_are_local(text: Seq<char>, url: UrlModel)
    ensures
        url_read(text) is None ==> !socket_text(text),
        url_read(text) == Some(url) ==> (socket_text(text) <==> {
            &&& url.scheme == "ws"@
            &&& url.host == Some("127.0.0.1"@) || url.host == Some("localhost"@)
            &&& url.port == Some(9229u16)
            &&& url.username.len() == 0
            &&& !url.has_password && !url.has_query && !url.has_fragment
            &&& debugger_path(url.path)
        }),
{
}

/// The program is ready where it names a debugging socket of this machine.
pub proof fn ready_programs_name_a_socket(version: JsonModel, text: Seq<char>)
    ensures
        version.member("webSocketDebuggerUrl"@) == Some(JsonModel::Text(text)) ==> (names_socket(
            version,
        ) <==> socket_text(text)),
        !(version.member("webSocketDebuggerUrl"@) is Some && version.member(
            "webSocketDebuggerUrl"@,
        )->0 is Text) ==> !names_socket(version),
{
}

/// The main page is the one with the scheme `app`, the path `/index.html` and no query, under the
/// title `codex`; path and title in any case.
pub proof fn the_main_page_is(url: UrlModel, title: Seq<char>)
    ensures
        main_page(Some(url), title) <==> {
            &&& url.scheme == "app"@
            &&& lower(url.path) == "/index.html"@
            &&& !url.has_query
            &&& lower(title) == "codex"@
        },
        !main_page(None, title),
{
    reveal_strlit("/index.html");
    reveal_strlit("codex");
    assert(lower("/index.html"@) =~= "/index.html"@);
    assert(lower("codex"@) =~= "codex"@);
}

/// The text of a member, or nothing where it is none.
pub open spec fn text_in(page: JsonModel, key: Seq<char>) -> Seq<char> {
    match page.member(key) {
        Some(JsonModel::Text(text)) => text,
        _ => Seq::empty(),
    }
}

/// Whether a page is one that a theme may go to over that socket, whatever its address.
pub open spec fn page_behind(page: JsonModel, socket: Seq<char>) -> bool {
    &&& page.member("type"@) == Some(JsonModel::Text("page"@))
    &&& page.member("webSocketDebuggerUrl"@) == Some(JsonModel::Text(socket))
    &&& socket_text(socket)
}

/// Whether a page is the program's main page.
pub open spec fn main_of(page: JsonModel) -> bool {
    main_page(url_read(text_in(page, "url"@)), text_in(page, "title"@))
}

/// Whether a page is none of the program's own, but names it in its address or its title.
pub open spec fn names_program(page: JsonModel) -> bool {
    &&& !begins(lower(text_in(page, "url"@)), "app:"@)
    &&& occurs(lower(text_in(page, "url"@)), "codex"@) || occurs(
        lower(text_in(page, "title"@)),
        "codex"@,
    )
}

/// Which pages a theme goes to: the main page before all others, and of these only pages that name
/// the program and are none of its own.
pub proof fn pages_are_chosen(page: JsonModel, socket: Seq<char>)
    ensures
        target(page) == Some((0u8, socket)) <==> page_behind(page, socket) && main_of(page),
        target(page) == Some((2u8, socket)) <==> page_behind(page, socket) && !main_of(page)
            && names_program(page),
        target(page) matches Some(found) ==> found.0 == 0 || found.0 == 2,
{
    assert(or_empty(page.text_member("url"@)) == text_in(page, "url"@));
    assert(or_empty(page.text_member("title"@)) == text_in(page, "title"@));
}

/// Whether sockets are arranged by rank: first, up to a place, those of the first rank, then those
/// of the second, each in ascending order; a socket of both ranks that would stand next to itself
/// stands once.
pub open spec fn ranked(list: Seq<(u8, Seq<char>)>, result: Seq<Seq<char>>, p: int) -> bool {
    &&& 0 <= p <= result.len()
    &&& forall|i: int, j: int|
        0 <= i < j < p ==> before(#[trigger] result[i], #[trigger] result[j])
    &&& forall|i: int, j: int|
        p <= i < j < result.len() ==> before(#[trigger] result[i], #[trigger] result[j])
    &&& forall|i: int| 0 <= i < p ==> list.contains((0u8, #[trigger] result[i]))
    &&& forall|i: int| p <= i < result.len() ==> list.contains((2u8, #[trigger] result[i]))
    &&& forall|s: Seq<char>| #[trigger]
        list.contains((0u8, s)) ==> exists|i: int| 0 <= i < p && #[trigger] result[i] == s
    &&& forall|s: Seq<char>| #[trigger]
        list.contains((2u8, s)) ==> (exists|i: int|
            p <= i < result.len() && #[trigger] result[i] == s) || (p > 0 && result[p - 1] == s)
}

proof fn sockets_are_ranked(list: Seq<(u8, Seq<char>)>) -> (p: int)
    requires
        in_order(list),
        forall|i: int| 0 <= i < list.len() ==> (#[trigger] list[i]).0 == 0 || list[i].0 == 2,
    ensures
        ranked(list, sockets(list), p),
    decreases list.len(),
{
    if list.len() == 0 {
        0
    } else {
        let shorter = list.drop_last();
        let front = sockets(shorter);
        let e = list.last();
        let whole = sockets(list);
        assert(e == list[list.len() - 1]);
        assert forall|i: int| 0 <= i < shorter.len() implies (#[trigger] shorter[i]).0 == 0
            || shorter[i].0 == 2 by {
            assert(shorter[i] == list[i]);
        }
        let q = sockets_are_ranked(shorter);
        assert forall|x: (u8, Seq<char>)| #[trigger]
            list.contains(x) <==> shorter.contains(x) || x == e by {
            if list.contains(x) {
                let i = list.index_of(x);
                if i < shorter.len() {
                    assert(shorter[i] == x);
                }
            }
            if shorter.contains(x) {
                let i = shorter.index_of(x);
                assert(list[i] == x);
            }
        }
        assert forall|x: (u8, Seq<char>)| shorter.contains(x) implies !#[trigger] sooner(e, x) by {
            let i = shorter.index_of(x);
            assert(list[i] == x);
            assert(!sooner(list[list.len() - 1], list[i]));
        }
        let n = front.len() as int;
        let repeats = n > 0 && front.last() == e.1;
        if e.0 == 0 {
            if q < n {
                assert(shorter.contains((2u8, front[q])));
                assert(!sooner(e, (2u8, front[q])));
            }
            assert(q == n);
            assert forall|s: Seq<char>| !#[trigger] shorter.contains((2u8, s)) by {
                if shorter.contains((2u8, s)) {
                    assert(!sooner(e, (2u8, s)));
                }
            }
            if repeats {
                assert(whole == front);
                assert(front[n - 1] == e.1);
                assert(ranked(list, whole, n));
                n
            } else {
                assert(whole == front.push(e.1));
                assert forall|i: int| 0 <= i < n implies before(#[trigger] front[i], e.1) by {
                    assert(shorter.contains((0u8, front[n - 1])));
                    assert(!sooner(e, (0u8, front[n - 1])));
                    before_total(front[n - 1], e.1);
                    if i < n - 1 {
                        assert(before(front[i], front[n - 1]));
                        before_transitive(front[i], front[n - 1], e.1);
                    }
                }
                ranks_grow(shorter, front, q, list, e, n + 1);
                n + 1
            }
        } else {
            if repeats {
                assert(whole == front);
                assert(front[n - 1] == e.1);
                assert(ranked(list, whole, q));
                q
            } else {
                assert(whole == front.push(e.1));
                assert forall|i: int| q <= i < n implies before(#[trigger] front[i], e.1) by {
                    assert(shorter.contains((2u8, front[n - 1])));
                    assert(!sooner(e, (2u8, front[n - 1])));
                    before_total(front[n - 1], e.1);
                    if i < n - 1 {
                        assert(before(front[i], front[n - 1]));
                        before_transitive(front[i], front[n - 1], e.1);
                    }
                }
                ranks_grow(shorter, front, q, list, e, q);
                q
            }
        }
    }
}

proof fn ranks_grow(
    shorter: Seq<(u8, Seq<char>)>,
    front: Seq<Seq<char>>,
    q: int,
    list: Seq<(u8, Seq<char>)>,
    e: (u8, Seq<char>),
    p: int,
)
    requires
        ranked(shorter, front, q),
        e.0 == 0 || e.0 == 2,
        forall|x: (u8, Seq<char>)| #[trigger] list.contains(x) <==> shorter.contains(x) || x == e,
        e.0 == 0 ==> q == front.len() && p == front.len() + 1,
        e.0 == 0 ==> forall|s: Seq<char>| !#[trigger] shorter.contains((2u8, s)),
        e.0 == 2 ==> p == q,
        e.0 == 0 ==> forall|i: int| 0 <= i < front.len() ==> before(#[trigger] front[i], e.1),
        e.0 == 2 ==> forall|i: int| q <= i < front.len() ==> before(#[trigger] front[i], e.1),
    ensures
        ranked(list, front.push(e.1), p),
{
    let whole = front.push(e.1);
    let n = front.len() as int;
    assert(whole[n] == e.1);
    assert forall|s: Seq<char>| #[trigger] list.contains((0u8, s)) implies exists|i: int|
        0 <= i < p && #[trigger] whole[i] == s by {
        if shorter.contains((0u8, s)) {
            let i = choose|i: int| 0 <= i < q && #[trigger] front[i] == s;
            assert(whole[i] == s);
        } else {
            assert(whole[n] == s);
        }
    }
    assert forall|s: Seq<char>| #[trigger] list.contains((2u8, s)) implies (exists|i: int|
        p <= i < whole.len() && #[trigger] whole[i] == s) || (p > 0 && whole[p - 1] == s) by {
        if shorter.contains((2u8, s)) {
            if exists|i: int| q <= i < front.len() && #[trigger] front[i] == s {
                let i = choose|i: int| q <= i < front.len() && #[trigger] front[i] == s;
                assert(whole[i] == s);
            } else {
                assert(front[q - 1] == s);
                assert(whole[q - 1] == s);
            }
        } else {
            assert(whole[n] == s);
        }
    }
    assert forall|i: int| 0 <= i < p implies list.contains((0u8, #[trigger] whole[i])) by {
        if i < n {
            assert(whole[i] == front[i]);
        }
    }
    assert forall|i: int| p <= i < whole.len() implies list.contains(
        (2u8, #[trigger] whole[i]),
    ) by {
        if i < n {
            assert(whole[i] == front[i]);
        }
    }
    assert forall|i: int, j: int| 0 <= i < j < p implies before(
        #[trigger] whole[i],
        #[trigger] whole[j],
    ) by {
        assert(whole[i] == front[i]);
        if j < n {
            assert(whole[j] == front[j]);
        }
    }
    assert forall|i: int, j: int| p <= i < j < whole.len() implies before(
        #[trigger] whole[i],
        #[trigger] whole[j],
    ) by {
        assert(whole[i] == front[i]);
        if j < n {
            assert(whole[j] == front[j]);
        }
    }
}

/// Whether sockets lead to the main pages first, up to a place, and then to the other pages that
/// name the program.
pub open spec fn reached(pages: Seq<JsonModel>, result: Seq<Seq<char>>, p: int) -> bool {
    &&& 0 <= p <= result.len()
    &&& forall|i: int, j: int|
        0 <= i < j < p ==> before(#[trigger] result[i], #[trigger] result[j])
    &&& forall|i: int, j: int|
        p <= i < j < result.len() ==> before(#[trigger] result[i], #[trigger] result[j])
    &&& forall|i: int|
        0 <= i < p ==> exists|k: int|
            0 <= k < pages.len() && main_of(#[trigger] pages[k]) && page_behind(
                pages[k],
                #[trigger] result[i],
            )
    &&& forall|i: int|
        p <= i < result.len() ==> exists|k: int|
            0 <= k < pages.len() && !main_of(#[trigger] pages[k]) && names_program(
                pages[k],
            ) && page_behind(pages[k], #[trigger] result[i])
    &&& forall|k: int, s: Seq<char>|
        0 <= k < pages.len() && main_of(pages[k]) && #[trigger] page_behind(pages[k], s)
            ==> #[trigger] result.take(p).contains(s)
    &&& forall|k: int, s: Seq<char>|
        0 <= k < pages.len() && !main_of(pages[k]) && names_program(pages[k])
            && #[trigger] page_behind(pages[k], s) ==> #[trigger] result.skip(p).contains(
            s,
        ) || (p > 0 && result[p - 1] == s)
}

/// A theme goes to every main page first, and then to every other page that names the program, in
/// each of the two groups once over each socket and in ascending order of the sockets; and it goes
/// to no other page. Where the last socket of the first group is also the first of the second, it
/// is used once.
pub proof fn pages_are_reached_in_order(pages: Seq<JsonModel>, result: Seq<Seq<char>>)
    requires
        arranged(targets_among(pages), result),
    ensures
        exists|p: int| #[trigger] reached(pages, result, p),
{
    let found = targets_among(pages);
    let list = choose|list: Seq<(u8, Seq<char>)>|
        list.to_multiset() == found.to_multiset() && in_order(list) && result == #[trigger] sockets(
            list,
        );
    assert forall|x: (u8, Seq<char>)| #[trigger] list.contains(x) <==> exists|k: int|
        0 <= k < pages.len() && #[trigger] target(pages[k]) == Some(x) by {
        vstd::seq_lib::to_multiset_contains(list, x);
        vstd::seq_lib::to_multiset_contains(found, x);
        target_among(pages, x);
    }
    assert forall|i: int| 0 <= i < list.len() implies (#[trigger] list[i]).0 == 0 || list[i].0
        == 2 by {
        assert(list.contains(list[i]));
        let k = choose|k: int| 0 <= k < pages.len() && #[trigger] target(pages[k]) == Some(list[i]);
        pages_are_chosen(pages[k], list[i].1);
    }
    let p = sockets_are_ranked(list);
    assert forall|i: int| 0 <= i < p implies exists|k: int|
        0 <= k < pages.len() && main_of(#[trigger] pages[k]) && page_behind(
            pages[k],
            #[trigger] result[i],
        ) by {
        assert(list.contains((0u8, result[i])));
        let k = choose|k: int|
            0 <= k < pages.len() && #[trigger] target(pages[k]) == Some((0u8, result[i]));
        pages_are_chosen(pages[k], result[i]);
        assert(main_of(pages[k]));
    }
    assert forall|i: int| p <= i < result.len() implies exists|k: int|
        0 <= k < pages.len() && !main_of(#[trigger] pages[k]) && names_program(pages[k])
            && page_behind(pages[k], #[trigger] result[i]) by {
        assert(list.contains((2u8, result[i])));
        let k = choose|k: int|
            0 <= k < pages.len() && #[trigger] target(pages[k]) == Some((2u8, result[i]));
        pages_are_chosen(pages[k], result[i]);
        assert(!main_of(pages[k]));
    }
    assert forall|k: int, s: Seq<char>|
        0 <= k < pages.len() && main_of(pages[k]) && #[trigger] page_behind(
            pages[k],
            s,
        ) implies #[trigger] result.take(p).contains(s) by {
        pages_are_chosen(pages[k], s);
        assert(target(pages[k]) == Some((0u8, s)));
        assert(list.contains((0u8, s)));
        let i = choose|i: int| 0 <= i < p && #[trigger] result[i] == s;
        assert(result.take(p)[i] == s);
    }
    assert forall|k: int, s: Seq<char>|
        0 <= k < pages.len() && !main_of(pages[k]) && names_program(pages[k])
            && #[trigger] page_behind(pages[k], s) implies #[trigger] result.skip(p).contains(s)
        || (p > 0 && result[p - 1] == s) by {
        pages_are_chosen(pages[k], s);
        assert(target(pages[k]) == Some((2u8, s)));
        assert(list.contains((2u8, s)));
        if exists|i: int| p <= i < result.len() && #[trigger] result[i] == s {
            let i = choose|i: int| p <= i < result.len() && #[trigger] result[i] == s;
            assert(result.skip(p)[i - p] == s);
        }
    }
    assert(reached(pages, result, p));
}

/// How early a page comes: the main page first, the program's other pages never, and any other
/// where its address or title holds the program's name in any case.
pub proof fn priorities_are(main: bool, url: Seq<char>, title: Seq<char>)
    ensures
        main ==> priority(main, url, title) == Some(0u8),
        !main && begins(lower(url), "app:"@) ==> priority(main, url, title) is None,
        !main && !begins(lower(url), "app:"@) && (occurs(lower(url), "codex"@) || occurs(
            lower(title),
            "codex"@,
        )) ==> priority(main, url, title) == Some(2u8),
        !main && !occurs(lower(url), "codex"@) && !occurs(lower(title), "codex"@) ==> priority(
            main,
            url,
            title,
        ) is None,
{
}

proof fn different_sockets(list: Seq<(u8, Seq<char>)>)
    requires
        forall|i: int, j: int|
            0 <= i < j < list.len() ==> (#[trigger] list[i]).1 != (#[trigger] list[j]).1,
    ensures
        sockets(list).len() == list.len(),
        forall|i: int| 0 <= i < list.len() ==> #[trigger] sockets(list)[i] == list[i].1,
    decreases list.len(),
{
    if list.len() > 0 {
        let shorter = list.drop_last();
        assert forall|i: int, j: int| 0 <= i < j < shorter.len() implies (#[trigger] shorter[i]).1
            != (#[trigger] shorter[j]).1 by {
            assert(list[i].1 != list[j].1);
        }
        different_sockets(shorter);
        if shorter.len() > 0 {
            assert(sockets(shorter)[shorter.len() - 1] == shorter[shorter.len() - 1].1);
            assert(list[list.len() - 2].1 != list[list.len() - 1].1);
        }
    }
}

/// Targets of a lower rank come first, and of targets of one rank that with the lesser socket:
/// where no two share a socket, every one keeps its own, and their order is that.
pub proof fn targets_are_arranged(
    found: Seq<(u8, Seq<char>)>,
    result: Seq<Seq<char>>,
    a: (u8, Seq<char>),
    b: (u8, Seq<char>),
)
    requires
        arranged(found, result),
        forall|i: int, j: int|
            0 <= i < j < found.len() ==> (#[trigger] found[i]).1 != (#[trigger] found[j]).1,
        found.contains(a),
        found.contains(b),
        a.0 < b.0 || (a.0 == b.0 && before(a.1, b.1)),
    ensures
        result.len() == found.len(),
        exists|k: int, l: int|
            0 <= k < l < result.len() && #[trigger] result[k] == a.1 && #[trigger] result[l] == b.1,
{
    let list = choose|list: Seq<(u8, Seq<char>)>|
        list.to_multiset() == found.to_multiset() && in_order(list) && result == #[trigger] sockets(
            list,
        );
    assert(found.no_duplicates());
    found.lemma_multiset_has_no_duplicates();
    list.lemma_multiset_has_no_duplicates_conv();
    assert forall|i: int| 0 <= i < list.len() implies found.contains(#[trigger] list[i]) by {
        assert(list.contains(list[i]));
        vstd::seq_lib::to_multiset_contains(list, list[i]);
        vstd::seq_lib::to_multiset_contains(found, list[i]);
    }
    assert forall|i: int, j: int| 0 <= i < j < list.len() implies (#[trigger] list[i]).1 != (
    #[trigger] list[j]).1 by {
        let p = found.index_of(list[i]);
        let q = found.index_of(list[j]);
        assert(found[p] == list[i] && found[q] == list[j]);
        if p < q {
            assert(found[p].1 != found[q].1);
        } else if q < p {
            assert(found[q].1 != found[p].1);
        }
    }
    different_sockets(list);
    vstd::seq_lib::to_multiset_contains(list, a);
    vstd::seq_lib::to_multiset_contains(found, a);
    vstd::seq_lib::to_multiset_contains(list, b);
    vstd::seq_lib::to_multiset_contains(found, b);
    vstd::seq_lib::to_multiset_len(list);
    vstd::seq_lib::to_multiset_len(found);
    let k = list.index_of(a);
    let l = list.index_of(b);
    if l < k {
        assert(!sooner(list[k], list[l]));
    }
    if a.0 == b.0 {
        before_irreflexive(a.1);
    }
    assert(result[k] == a.1 && result[l] == b.1);
}

/// A list of targets says what it holds.
pub proof fn targets_are_what_they_hold(list: Seq<(u8, String)>, i: int)
    ensures
        pairs(list).len() == list.len(),
        0 <= i < list.len() ==> pairs(list)[i] == (list[i].0, list[i].1@),
{
}

} // verus!
