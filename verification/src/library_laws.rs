//! What holds of what the user has, and of deleting themes as a whole.

use crate::catalog::{themes_are_found, RemoteCatalog, ThemeModel};
use crate::error::ErrorModel;
use crate::json::{json_read, JsonModel};
use crate::library::{
    cached_files, compiled_id, deletion_fault, download_models, downloads, in_use, keys_of,
    leftover_models, leftovers, maybe_themes, preview_fault, renewed, version_at, versions_of,
    Download, Leftover, LeftoverModel, LibraryModel, ThemeLibraryState, COMPILED,
};
use crate::rules::library_id;
use crate::text::{before, strings, texts};
use vstd::prelude::*;

verus! {

/// What the disk holds of themes.
#[verifier::ext_equal]
pub struct Disk {
    /// The directories of the installed themes by name, each with its files.
    pub installed: Map<Seq<char>, Map<Seq<char>, Seq<u8>>>,
    /// The files in the cache by path.
    pub cached: Map<Seq<char>, Seq<u8>>,
}

impl Disk {
    /// Whether something that is deleted with a theme is there.
    pub open spec fn holds(self, leftover: LeftoverModel) -> bool {
        match leftover {
            LeftoverModel::Installed(name) => self.installed.contains_key(name),
            LeftoverModel::Cached(path) => self.cached.contains_key(path),
        }
    }

    /// The disk after something was deleted from it, if it was there.
    pub open spec fn without(self, leftover: LeftoverModel) -> Disk {
        match leftover {
            LeftoverModel::Installed(name) => Disk {
                installed: self.installed.remove(name),
                ..self
            },
            LeftoverModel::Cached(path) => Disk { cached: self.cached.remove(path), ..self },
        }
    }
}

/// What becomes of the disk, and whether anything was there, when all that is left of a list is
/// deleted, one thing after the other.
pub open spec fn swept(disk: Disk, list: Seq<LeftoverModel>, at: int, removed: bool) -> (Disk, bool)
    decreases list.len() - at,
{
    if at < 0 || at >= list.len() {
        (disk, removed)
    } else {
        swept(disk.without(list[at]), list, at + 1, removed || disk.holds(list[at]))
    }
}

/// Whether something stands in a list from a place on.
spec fn listed_from(list: Seq<LeftoverModel>, at: int, leftover: LeftoverModel) -> bool {
    exists|i: int| at <= i < list.len() && #[trigger] list[i] == leftover
}

proof fn sweeping(disk: Disk, list: Seq<LeftoverModel>, at: int, removed: bool)
    requires
        0 <= at <= list.len(),
    ensures
        swept(disk, list, at, removed).1 <==> removed || exists|i: int|
            at <= i < list.len() && disk.holds(#[trigger] list[i]),
        forall|leftover: LeftoverModel| #[trigger]
            swept(disk, list, at, removed).0.holds(leftover) <==> disk.holds(leftover)
                && !listed_from(list, at, leftover),
        forall|name: Seq<char>| #[trigger]
            swept(disk, list, at, removed).0.installed.contains_key(name) ==> swept(
                disk,
                list,
                at,
                removed,
            ).0.installed[name] == disk.installed[name],
        forall|path: Seq<char>| #[trigger]
            swept(disk, list, at, removed).0.cached.contains_key(path) ==> swept(
                disk,
                list,
                at,
                removed,
            ).0.cached[path] == disk.cached[path],
    decreases list.len() - at,
{
    if at < list.len() {
        let first = list[at];
        let rest = disk.without(first);
        let found = removed || disk.holds(first);
        sweeping(rest, list, at + 1, found);
        let after = swept(disk, list, at, removed).0;
        assert(after == swept(rest, list, at + 1, found).0);
        assert forall|leftover: LeftoverModel| #[trigger]
            after.holds(leftover) <==> disk.holds(leftover) && !listed_from(
                list,
                at,
                leftover,
            ) by {
            assert(rest.holds(leftover) <==> disk.holds(leftover) && leftover != first);
            if listed_from(list, at, leftover) && leftover != first {
                let i = choose|i: int| at <= i < list.len() && #[trigger] list[i] == leftover;
                assert(i >= at + 1);
                assert(listed_from(list, at + 1, leftover));
            }
            if listed_from(list, at + 1, leftover) {
                let i = choose|i: int| at + 1 <= i < list.len() && #[trigger] list[i] == leftover;
                assert(list[i] == leftover);
            }
            assert(listed_from(list, at, first));
        }
        if exists|i: int| at <= i < list.len() && disk.holds(#[trigger] list[i]) {
            let i = choose|i: int| at <= i < list.len() && disk.holds(#[trigger] list[i]);
            if list[i] != first {
                assert(rest.holds(list[i]));
            }
        }
        if exists|i: int| at + 1 <= i < list.len() && rest.holds(#[trigger] list[i]) {
            let i = choose|i: int| at + 1 <= i < list.len() && rest.holds(#[trigger] list[i]);
            assert(disk.holds(list[i]));
        }
        assert forall|name: Seq<char>| #[trigger] after.installed.contains_key(name) implies
            after.installed[name] == disk.installed[name] by {
            assert(after.holds(LeftoverModel::Installed(name)));
            assert(rest.holds(LeftoverModel::Installed(name)));
        }
        assert forall|path: Seq<char>| #[trigger] after.cached.contains_key(path) implies
            after.cached[path] == disk.cached[path] by {
            assert(after.holds(LeftoverModel::Cached(path)));
            assert(rest.holds(LeftoverModel::Cached(path)));
        }
    } else {
        assert forall|leftover: LeftoverModel| !listed_from(list, at, leftover) by {}
    }
}

/// Deleting a theme tells whether its directory or one of its files was there. Afterwards none
/// of them is, everything else is as it was, and deleting it again finds nothing and changes
/// nothing.
pub proof fn themes_are_deleted(disk: Disk, id: Seq<char>, theme: Option<ThemeModel>)
    ensures
        ({
            let files = cached_files(id, theme);
            let (after, removed) = swept(disk, leftovers(id, theme), 0, false);
            &&& removed <==> disk.installed.contains_key(id) || exists|i: int|
                0 <= i < files.len() && disk.cached.contains_key(#[trigger] files[i])
            &&& after.installed == disk.installed.remove(id)
            &&& !after.installed.contains_key(id)
            &&& forall|i: int|
                0 <= i < files.len() ==> !after.cached.contains_key(#[trigger] files[i])
            &&& forall|path: Seq<char>|
                #![trigger after.cached.contains_key(path)]
                #![trigger disk.cached.contains_key(path)]
                !files.contains(path) ==> {
                    &&& after.cached.contains_key(path) == disk.cached.contains_key(path)
                    &&& disk.cached.contains_key(path) ==> after.cached[path] == disk.cached[path]
                }
            &&& swept(after, leftovers(id, theme), 0, false) == (after, false)
        }),
{
    let files = cached_files(id, theme);
    let list = leftovers(id, theme);
    let (after, removed) = swept(disk, list, 0, false);
    sweeping(disk, list, 0, false);
    assert(list[0] == LeftoverModel::Installed(id));
    assert(forall|i: int|
        0 <= i < files.len() ==> list[i + 1] == LeftoverModel::Cached(#[trigger] files[i]));
    if removed {
        let i = choose|i: int| 0 <= i < list.len() && disk.holds(#[trigger] list[i]);
        if i > 0 {
            assert(list[i] == LeftoverModel::Cached(files[i - 1]));
        }
    }
    if exists|i: int| 0 <= i < files.len() && disk.cached.contains_key(#[trigger] files[i]) {
        let i = choose|i: int| 0 <= i < files.len() && disk.cached.contains_key(#[trigger] files[i]);
        assert(disk.holds(list[i + 1]));
    }
    if disk.installed.contains_key(id) {
        assert(disk.holds(list[0]));
    }
    assert forall|name: Seq<char>| after.installed.contains_key(name) <==> (
    disk.installed.contains_key(name) && name != id) by {
        let leftover = LeftoverModel::Installed(name);
        assert(after.holds(leftover) <==> after.installed.contains_key(name));
        if listed_from(list, 0, leftover) {
            let i = choose|i: int| 0 <= i < list.len() && #[trigger] list[i] == leftover;
            if i > 0 {
                assert(list[i] == LeftoverModel::Cached(files[i - 1]));
            }
        }
    }
    assert(after.installed =~= disk.installed.remove(id));
    assert forall|i: int| 0 <= i < files.len() implies !after.cached.contains_key(
        #[trigger] files[i],
    ) by {
        assert(list[i + 1] == LeftoverModel::Cached(files[i]));
        assert(listed_from(list, 0, LeftoverModel::Cached(files[i])));
        assert(!after.holds(LeftoverModel::Cached(files[i])));
    }
    assert forall|path: Seq<char>| !files.contains(path) implies after.cached.contains_key(path)
        == disk.cached.contains_key(path) by {
        let leftover = LeftoverModel::Cached(path);
        assert(after.holds(leftover) <==> after.cached.contains_key(path));
        if listed_from(list, 0, leftover) {
            let i = choose|i: int| 0 <= i < list.len() && #[trigger] list[i] == leftover;
            assert(i > 0 && files[i - 1] == path);
        }
    }
    let again = swept(after, list, 0, false);
    sweeping(after, list, 0, false);
    assert forall|i: int| 0 <= i < list.len() implies !after.holds(#[trigger] list[i]) by {
        assert(listed_from(list, 0, list[i]));
    }
    assert(!again.1);
    assert forall|leftover: LeftoverModel| again.0.holds(leftover) == after.holds(leftover) by {
        if after.holds(leftover) && listed_from(list, 0, leftover) {
            let i = choose|i: int| 0 <= i < list.len() && #[trigger] list[i] == leftover;
            assert(!after.holds(list[i]));
        }
    }
    assert forall|name: Seq<char>| again.0.installed.contains_key(name)
        == after.installed.contains_key(name) by {
        assert(again.0.holds(LeftoverModel::Installed(name)) == after.holds(
            LeftoverModel::Installed(name),
        ));
    }
    assert forall|path: Seq<char>| again.0.cached.contains_key(path) == after.cached.contains_key(
        path,
    ) by {
        assert(again.0.holds(LeftoverModel::Cached(path)) == after.holds(
            LeftoverModel::Cached(path),
        ));
    }
    assert(again.0.installed =~= after.installed);
    assert(again.0.cached =~= after.cached);
    assert(again.0 == after);
}

/// The state knows the version of a theme exactly where one of its entries gives it, and a
/// subscription exactly where it lists one. Both lists are in ascending order, each identifier
/// once.
pub proof fn states_are_what_they_hold(state: ThemeLibraryState, id: Seq<char>, i: int)
    requires
        state.well_formed(),
    ensures
        0 <= i < state.downloaded_versions@.len() && state.downloaded_versions@[i].0@ == id
            ==> state@.version(id) == Some(state.downloaded_versions@[i].1@),
        (forall|j: int|
            0 <= j < state.downloaded_versions@.len() ==> (
            #[trigger] state.downloaded_versions@[j]).0@ != id) ==> state@.version(id) is None,
        state@.subscriptions.contains(id) <==> exists|j: int|
            0 <= j < state.subscriptions@.len() && (#[trigger] state.subscriptions@[j])@ == id,
        forall|j: int, k: int|
            0 <= j < k < state.downloaded_versions@.len() ==> before(
                (#[trigger] state.downloaded_versions@[j]).0@,
                (#[trigger] state.downloaded_versions@[k]).0@,
            ),
        forall|j: int, k: int|
            0 <= j < k < state.subscriptions@.len() ==> before(
                (#[trigger] state.subscriptions@[j])@,
                (#[trigger] state.subscriptions@[k])@,
            ),
{
    let entries = state.downloaded_versions@;
    let keys = keys_of(entries);
    let list = strings(state.subscriptions@);
    if 0 <= i < entries.len() && entries[i].0@ == id {
        version_at(entries, i);
    }
    if forall|j: int| 0 <= j < entries.len() ==> (#[trigger] entries[j]).0@ != id {
        if keys.contains(id) {
            let j = keys.index_of(id);
            assert(entries[j].0@ == id);
        }
        assert(!versions_of(entries).contains_key(id));
    }
    if list.contains(id) {
        let j = list.index_of(id);
        assert(state.subscriptions@[j]@ == id);
    }
    if exists|j: int| 0 <= j < list.len() && (#[trigger] state.subscriptions@[j])@ == id {
        let j = choose|j: int| 0 <= j < list.len() && (#[trigger] state.subscriptions@[j])@ == id;
        assert(list[j] == id);
    }
    assert forall|j: int, k: int| 0 <= j < k < entries.len() implies before(
        (#[trigger] entries[j]).0@,
        (#[trigger] entries[k]).0@,
    ) by {
        assert(before(keys[j], keys[k]));
    }
    assert forall|j: int, k: int| 0 <= j < k < list.len() implies before(
        (#[trigger] state.subscriptions@[j])@,
        (#[trigger] state.subscriptions@[k])@,
    ) by {
        assert(before(list[j], list[k]));
    }
}

/// At first nothing is there. A download sets the version of one theme, a subscription sets that of
/// one theme, and neither touches the other, or another theme.
pub proof fn states_change_in_one_place(
    state: LibraryModel,
    id: Seq<char>,
    version: Seq<char>,
    subscribed: bool,
    other: Seq<char>,
)
    ensures
        LibraryModel::nothing().version(id) is None,
        !LibraryModel::nothing().subscriptions.contains(id),
        state.downloaded(id, version).version(id) == Some(version),
        other != id ==> state.downloaded(id, version).version(other) == state.version(other),
        state.downloaded(id, version).subscriptions.contains(other)
            == state.subscriptions.contains(other),
        state.subscribed(id, subscribed).subscriptions.contains(id) == subscribed,
        other != id ==> state.subscribed(id, subscribed).subscriptions.contains(other)
            == state.subscriptions.contains(other),
        state.subscribed(id, subscribed).version(other) == state.version(other),
        state.version(id) is Some <==> state.downloaded_versions.contains_key(id),
{
}

/// A theme is deleted only under an identifier of the local library.
pub proof fn deletions_are_refused(id: Seq<char>)
    ensures
        library_id(id) ==> deletion_fault(id) is None,
        !library_id(id) ==> deletion_fault(id) == Some(
            ErrorModel::Message("主题 ID 无效："@ + id),
        ),
{
}

/// What is deleted with a theme that the catalog has: its directory, its manifest, its preview and
/// each of its assets. Of one that the catalog does not have: its directory, and the manifest that
/// is named by it.
pub proof fn all_of_a_theme_is_deleted(id: Seq<char>, theme: ThemeModel, i: int)
    ensures
        leftovers(id, Some(theme)).len() == theme.assets.len() + 3,
        leftovers(id, Some(theme))[0] == LeftoverModel::Installed(id),
        leftovers(id, Some(theme))[1] == LeftoverModel::Cached(theme.manifest.path),
        leftovers(id, Some(theme))[2] == LeftoverModel::Cached(theme.preview.path),
        0 <= i < theme.assets.len() ==> leftovers(id, Some(theme))[i + 3] == LeftoverModel::Cached(
            theme.assets[i].path,
        ),
        leftovers(id, None).len() == 2,
        leftovers(id, None)[0] == LeftoverModel::Installed(id),
        leftovers(id, None)[1] == LeftoverModel::Cached("themes/"@ + id + ".json"@),
{
    let files = cached_files(id, Some(theme));
    assert(files[0] == theme.manifest.path && files[1] == theme.preview.path);
    if 0 <= i < theme.assets.len() {
        assert(files[i + 2] == theme.assets[i].path);
    }
}

/// What is fetched of a theme: first its manifest, and then each of its assets in their order,
/// which have to be images. The preview is none of them.
pub proof fn all_of_a_theme_is_fetched(theme: ThemeModel, i: int)
    ensures
        downloads(theme).len() == theme.assets.len() + 1,
        downloads(theme)[0] == (theme.manifest, false),
        0 <= i < theme.assets.len() ==> downloads(theme)[i + 1] == (theme.assets[i], true),
{
}

/// A compiled theme consists of three files. It is named by its member `id`, where it has one, and
/// else by its member `codeThemeId`.
pub proof fn compiled_themes_are_named(manifest: JsonModel, id: Seq<char>)
    ensures
        texts(COMPILED@) == seq!["codex-theme.css"@, "codex-theme.js"@, "current-theme.json"@],
        manifest.member("id"@) is Some ==> (compiled_id(manifest) == Some(id) <==> manifest.member(
            "id"@,
        ) == Some(JsonModel::Text(id))),
        manifest.member("id"@) is None ==> (compiled_id(manifest) == Some(id) <==> manifest.member(
            "codeThemeId"@,
        ) == Some(JsonModel::Text(id))),
{
    assert(texts(COMPILED@) =~= seq![
        "codex-theme.css"@,
        "codex-theme.js"@,
        "current-theme.json"@,
    ]);
}

/// A theme is in use exactly where there is a compiled manifest that can be read and names it.
pub proof fn themes_are_in_use(bytes: Seq<u8>, id: Seq<char>)
    ensures
        !in_use(None, id),
        json_read(bytes) is Err ==> !in_use(Some(bytes), id),
        json_read(bytes) matches Ok(root) ==> (in_use(Some(bytes), id) <==> compiled_id(root)
            == Some(id)),
{
}

/// A preview is fetched exactly where a catalog is there and one of its themes has that
/// identifier; and what is missing is told.
pub proof fn previews_are_known(themes: Seq<ThemeModel>, id: Seq<char>, i: int)
    ensures
        preview_fault(None, id) == Some(ErrorModel::Message("尚未同步远程主题目录。"@)),
        0 <= i < themes.len() && themes[i].id == id ==> preview_fault(Some(themes), id) is None,
        (forall|j: int| 0 <= j < themes.len() ==> (#[trigger] themes[j]).id != id)
            ==> preview_fault(Some(themes), id) == Some(
            ErrorModel::Message("远程主题不存在："@ + id),
        ),
{
    themes_are_found(themes, id);
}

/// A theme counts as updated exactly where it is there after it was fetched, and was not there
/// before, or in another version.
pub proof fn updates_are_counted(before: Seq<char>, after: Seq<char>)
    ensures
        !renewed(None, None),
        !renewed(Some(before), None),
        renewed(None, Some(after)),
        renewed(Some(before), Some(after)) <==> before != after,
{
}

/// Lists say what they hold, place by place.
pub proof fn lists_are_what_they_hold(
    list: Seq<Leftover>,
    fetched: Seq<Download<'_>>,
    catalog: &RemoteCatalog,
    name: String,
    i: int,
)
    ensures
        leftover_models(list).len() == list.len(),
        0 <= i < list.len() ==> leftover_models(list)[i] == list[i]@,
        Leftover::Installed(name)@ == LeftoverModel::Installed(name@),
        Leftover::Cached(name)@ == LeftoverModel::Cached(name@),
        download_models(fetched).len() == fetched.len(),
        0 <= i < fetched.len() ==> download_models(fetched)[i] == (
            fetched[i].resource@,
            fetched[i].image,
        ),
        maybe_themes(None) is None,
        maybe_themes(Some(catalog)) == Some(catalog@.themes),
{
}

} // verus!
