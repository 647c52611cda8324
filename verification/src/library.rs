//! The themes that the user has: which were downloaded, and which they subscribed to.

use crate::catalog::{
    find_theme, maybe_theme, sound_entry, sound_resource, theme_with, ExtensionsModel,
    RemoteCatalog, RemoteResource, RemoteTheme, ResourceModel, ThemeModel,
};
use crate::error::{broken, fault, AppError, ErrorModel};
use crate::json::{json_read, read_json, Json, JsonModel};
use crate::outside::maybe;
use crate::rules::{
    allowed_file, allowed_path, catalog_id, id_letter, library_id, valid_catalog_id,
    valid_library_id,
};
use crate::text::{
    before, before_irreflexive, before_total, before_transitive, comes_before, join2, join3, lower,
    same, strings, texts,
};
use crate::theme::unless;
use vstd::prelude::*;

verus! {

/// Whether texts are in ascending order, each once.
pub open spec fn ordered(keys: Seq<Seq<char>>) -> bool {
    forall|i: int, j: int|
        0 <= i < j < keys.len() ==> before(#[trigger] keys[i], #[trigger] keys[j])
}

/// The identifiers in a list of versions.
pub open spec fn keys_of(entries: Seq<(String, String)>) -> Seq<Seq<char>> {
    Seq::new(entries.len(), |i: int| entries[i].0@)
}

/// What the user has.
#[derive(Clone, Debug)]
pub struct ThemeLibraryState {
    /// The identifiers of the downloaded themes, in ascending order, with their versions.
    pub downloaded_versions: Vec<(String, String)>,
    /// The identifiers of the themes that the user subscribed to, in ascending order.
    pub subscriptions: Vec<String>,
}

/// What a [`ThemeLibraryState`] says.
#[verifier::ext_equal]
pub struct LibraryModel {
    pub downloaded_versions: Map<Seq<char>, Seq<char>>,
    pub subscriptions: Set<Seq<char>>,
}

impl LibraryModel {
    /// The state in which nothing was downloaded or subscribed to.
    pub open spec fn nothing() -> LibraryModel {
        LibraryModel { downloaded_versions: Map::empty(), subscriptions: Set::empty() }
    }

    /// The state after a download.
    pub open spec fn downloaded(self, id: Seq<char>, version: Seq<char>) -> LibraryModel {
        LibraryModel { downloaded_versions: self.downloaded_versions.insert(id, version), ..self }
    }

    /// The state after a subscription was made or taken back.
    pub open spec fn subscribed(self, id: Seq<char>, subscribed: bool) -> LibraryModel {
        LibraryModel {
            subscriptions: if subscribed {
                self.subscriptions.insert(id)
            } else {
                self.subscriptions.remove(id)
            },
            ..self
        }
    }

    /// The state after a theme was deleted.
    pub open spec fn deleted(self, id: Seq<char>) -> LibraryModel {
        LibraryModel {
            downloaded_versions: self.downloaded_versions.remove(id),
            subscriptions: self.subscriptions.remove(id),
        }
    }

    /// The version of a theme that was downloaded.
    pub open spec fn version(self, id: Seq<char>) -> Option<Seq<char>> {
        if self.downloaded_versions.contains_key(id) {
            Some(self.downloaded_versions[id])
        } else {
            None
        }
    }
}

/// The versions by identifier.
pub open spec fn versions_of(entries: Seq<(String, String)>) -> Map<Seq<char>, Seq<char>> {
    Map::new(
        |key: Seq<char>| keys_of(entries).contains(key),
        |key: Seq<char>| entries[keys_of(entries).index_of(key)].1@,
    )
}

impl View for ThemeLibraryState {
    type V = LibraryModel;

    open spec fn view(&self) -> LibraryModel {
        LibraryModel {
            downloaded_versions: versions_of(self.downloaded_versions@),
            subscriptions: strings(self.subscriptions@).to_set(),
        }
    }
}

proof fn ordered_once(keys: Seq<Seq<char>>, i: int)
    requires
        ordered(keys),
        0 <= i < keys.len(),
    ensures
        keys.index_of(keys[i]) == i,
{
    let k = keys.index_of(keys[i]);
    assert(keys.contains(keys[i]));
    assert(0 <= k < keys.len() && keys[k] == keys[i]);
    before_irreflexive(keys[i]);
    if k < i {
        assert(before(keys[k], keys[i]));
    } else if i < k {
        assert(before(keys[i], keys[k]));
    }
}

/// The version of each entry is known.
pub proof fn version_at(entries: Seq<(String, String)>, i: int)
    requires
        ordered(keys_of(entries)),
        0 <= i < entries.len(),
    ensures
        versions_of(entries).contains_key(entries[i].0@),
        versions_of(entries)[entries[i].0@] == entries[i].1@,
{
    ordered_once(keys_of(entries), i);
    assert(keys_of(entries)[i] == entries[i].0@);
}

/// Where a key stands in a list in ascending order, or where it would stand.
spec fn slot(keys: Seq<Seq<char>>, key: Seq<char>, at: int) -> bool {
    &&& 0 <= at <= keys.len()
    &&& forall|j: int| 0 <= j < at ==> before(#[trigger] keys[j], key)
    &&& forall|j: int| at <= j < keys.len() ==> keys[j] == key || before(key, #[trigger] keys[j])
    &&& forall|j: int| at < j < keys.len() ==> before(key, #[trigger] keys[j])
}

proof fn slot_stops(keys: Seq<Seq<char>>, key: Seq<char>, at: int)
    requires
        ordered(keys),
        0 <= at <= keys.len(),
        forall|j: int| 0 <= j < at ==> before(#[trigger] keys[j], key),
        at < keys.len() ==> !before(keys[at], key),
    ensures
        slot(keys, key, at),
{
    if at < keys.len() {
        before_total(keys[at], key);
        assert forall|j: int| at < j < keys.len() implies before(key, #[trigger] keys[j]) by {
            assert(before(keys[at], keys[j]));
            if keys[at] != key {
                before_transitive(key, keys[at], keys[j]);
            }
        }
    }
}

proof fn slot_tells(keys: Seq<Seq<char>>, key: Seq<char>, at: int)
    requires
        slot(keys, key, at),
    ensures
        keys.contains(key) <==> at < keys.len() && keys[at] == key,
{
    before_irreflexive(key);
    if keys.contains(key) {
        let i = keys.index_of(key);
        assert(keys[i] == key);
    }
}

proof fn inserted_stays_ordered(keys: Seq<Seq<char>>, key: Seq<char>, at: int)
    requires
        ordered(keys),
        slot(keys, key, at),
        !(at < keys.len() && keys[at] == key),
    ensures
        ordered(keys.insert(at, key)),
{
    let longer = keys.insert(at, key);
    assert forall|i: int, j: int| 0 <= i < j < longer.len() implies before(
        #[trigger] longer[i],
        #[trigger] longer[j],
    ) by {
        let p = if i < at { i } else { i - 1 };
        let q = if j < at { j } else { j - 1 };
        if i != at {
            assert(longer[i] == keys[p]);
        }
        if j != at {
            assert(longer[j] == keys[q]);
        }
    }
}

proof fn removed_stays_ordered(keys: Seq<Seq<char>>, at: int)
    requires
        ordered(keys),
        0 <= at < keys.len(),
    ensures
        ordered(keys.remove(at)),
{
    let shorter = keys.remove(at);
    assert forall|i: int, j: int| 0 <= i < j < shorter.len() implies before(
        #[trigger] shorter[i],
        #[trigger] shorter[j],
    ) by {
        let p = if i < at { i } else { i + 1 };
        let q = if j < at { j } else { j + 1 };
        assert(shorter[i] == keys[p] && shorter[j] == keys[q]);
    }
}

proof fn inserted_is_there(keys: Seq<Seq<char>>, key: Seq<char>, at: int)
    requires
        0 <= at <= keys.len(),
    ensures
        keys.insert(at, key).to_set() == keys.to_set().insert(key),
{
    let longer = keys.insert(at, key);
    assert forall|x: Seq<char>| longer.to_set().contains(x) <==> keys.to_set().insert(
        key,
    ).contains(x) by {
        if longer.contains(x) {
            let i = longer.index_of(x);
            assert(longer[i] == x);
            if i < at {
                assert(keys[i] == x);
            } else if i > at {
                assert(keys[i - 1] == x);
            }
        }
        if keys.contains(x) {
            let i = keys.index_of(x);
            assert(keys[i] == x);
            if i < at {
                assert(longer[i] == x);
            } else {
                assert(longer[i + 1] == x);
            }
        }
        assert(longer[at] == key);
    }
    assert(longer.to_set() =~= keys.to_set().insert(key));
}

proof fn removed_is_gone(keys: Seq<Seq<char>>, at: int)
    requires
        ordered(keys),
        0 <= at < keys.len(),
    ensures
        keys.remove(at).to_set() == keys.to_set().remove(keys[at]),
{
    let shorter = keys.remove(at);
    assert forall|x: Seq<char>| shorter.to_set().contains(x) <==> keys.to_set().remove(
        keys[at],
    ).contains(x) by {
        if shorter.contains(x) {
            let i = shorter.index_of(x);
            assert(shorter[i] == x);
            let p = if i < at { i } else { i + 1 };
            assert(keys[p] == x);
            ordered_once(keys, p);
            ordered_once(keys, at);
        }
        if keys.contains(x) && x != keys[at] {
            let i = keys.index_of(x);
            assert(keys[i] == x);
            let q = if i < at { i } else { i - 1 };
            assert(shorter[q] == x);
        }
    }
    assert(shorter.to_set() =~= keys.to_set().remove(keys[at]));
}

fn slot_in_versions(entries: &Vec<(String, String)>, key: &str) -> (at: usize)
    requires
        ordered(keys_of(entries@)),
    ensures
        slot(keys_of(entries@), key@, at as int),
{
    let ghost keys = keys_of(entries@);
    let mut i: usize = 0;
    while i < entries.len() && comes_before(&entries[i].0, key)
        invariant
            i <= entries@.len(),
            keys == keys_of(entries@),
            forall|j: int| 0 <= j < i ==> before(#[trigger] keys[j], key@),
        decreases entries@.len() - i,
    {
        i += 1;
    }
    proof {
        slot_stops(keys, key@, i as int);
    }
    i
}

fn slot_in_texts(list: &Vec<String>, key: &str) -> (at: usize)
    requires
        ordered(strings(list@)),
    ensures
        slot(strings(list@), key@, at as int),
{
    let ghost keys = strings(list@);
    let mut i: usize = 0;
    while i < list.len() && comes_before(&list[i], key)
        invariant
            i <= list@.len(),
            keys == strings(list@),
            forall|j: int| 0 <= j < i ==> before(#[trigger] keys[j], key@),
        decreases list@.len() - i,
    {
        i += 1;
    }
    proof {
        slot_stops(keys, key@, i as int);
    }
    i
}

impl Default for ThemeLibraryState {
    fn default() -> (state: ThemeLibraryState)
        ensures
            state.well_formed(),
            state@ == LibraryModel::nothing(),
    {
        let state = ThemeLibraryState {
            downloaded_versions: Vec::new(),
            subscriptions: Vec::new(),
        };
        assert(state@.downloaded_versions =~= Map::<Seq<char>, Seq<char>>::empty());
        assert(state@.subscriptions =~= Set::<Seq<char>>::empty());
        state
    }
}

impl ThemeLibraryState {
    /// Whether both lists are in ascending order, each identifier once.
    pub open spec fn well_formed(&self) -> bool {
        &&& ordered(keys_of(self.downloaded_versions@))
        &&& ordered(strings(self.subscriptions@))
    }

    /// The version of a theme that was downloaded.
    pub fn downloaded(&self, id: &str) -> (r: Option<String>)
        requires
            self.well_formed(),
        ensures
            maybe(r) == self@.version(id@),
    {
        let at = slot_in_versions(&self.downloaded_versions, id);
        let ghost keys = keys_of(self.downloaded_versions@);
        proof {
            slot_tells(keys, id@, at as int);
        }
        if at < self.downloaded_versions.len() && same(&self.downloaded_versions[at].0, id) {
            proof {
                version_at(self.downloaded_versions@, at as int);
            }
            Some(self.downloaded_versions[at].1.clone())
        } else {
            None
        }
    }

    /// Whether the user subscribed to a theme.
    pub fn is_subscribed(&self, id: &str) -> (r: bool)
        requires
            self.well_formed(),
        ensures
            r == self@.subscriptions.contains(id@),
    {
        let at = slot_in_texts(&self.subscriptions, id);
        proof {
            slot_tells(strings(self.subscriptions@), id@, at as int);
        }
        at < self.subscriptions.len() && same(&self.subscriptions[at], id)
    }

    /// Remembers that a version of a theme was downloaded.
    pub fn record_download(&mut self, id: &str, version: &str)
        requires
            old(self).well_formed(),
        ensures
            final(self).well_formed(),
            final(self)@ == old(self)@.downloaded(id@, version@),
    {
        let at = slot_in_versions(&self.downloaded_versions, id);
        let ghost entries = self.downloaded_versions@;
        let ghost keys = keys_of(entries);
        proof {
            slot_tells(keys, id@, at as int);
        }
        if at < self.downloaded_versions.len() && same(&self.downloaded_versions[at].0, id) {
            self.downloaded_versions.set(at, (id.to_owned(), version.to_owned()));
            let ghost now = self.downloaded_versions@;
            assert(keys_of(now) =~= keys);
            proof {
                ordered_once(keys, at as int);
            }
            assert forall|key: Seq<char>| keys.contains(key) implies versions_of(now)[key] == (
            if key == id@ {
                version@
            } else {
                versions_of(entries)[key]
            }) by {
                let i = keys.index_of(key);
                assert(keys[i] == key);
            }
            assert(versions_of(now) =~= versions_of(entries).insert(id@, version@));
        } else {
            self.downloaded_versions.insert(at, (id.to_owned(), version.to_owned()));
            let ghost now = self.downloaded_versions@;
            assert(keys_of(now) =~= keys.insert(at as int, id@));
            proof {
                inserted_stays_ordered(keys, id@, at as int);
                inserted_is_there(keys, id@, at as int);
                assert forall|key: Seq<char>| #[trigger]
                    keys_of(now).contains(key) <==> keys.contains(key) || key == id@ by {
                    assert(keys_of(now).to_set().contains(key) == keys.to_set().insert(
                        id@,
                    ).contains(key));
                }
                assert forall|key: Seq<char>| keys_of(now).contains(key) implies versions_of(
                    now,
                )[key] == versions_of(entries).insert(id@, version@)[key] by {
                    let i = keys_of(now).index_of(key);
                    assert(keys_of(now)[i] == key);
                    version_at(now, i);
                    if key != id@ {
                        let p = if i < at { i } else { i - 1 };
                        version_at(entries, p);
                    } else {
                        version_at(now, at as int);
                    }
                }
            }
            assert(versions_of(now) =~= versions_of(entries).insert(id@, version@));
        }
    }

    /// Forgets a theme, if it was downloaded: tells whether it was.
    fn forget_download(&mut self, id: &str) -> (r: bool)
        requires
            old(self).well_formed(),
        ensures
            final(self).well_formed(),
            r == old(self)@.downloaded_versions.contains_key(id@),
            final(self)@.downloaded_versions == old(self)@.downloaded_versions.remove(id@),
            final(self)@.subscriptions == old(self)@.subscriptions,
    {
        let at = slot_in_versions(&self.downloaded_versions, id);
        let ghost entries = self.downloaded_versions@;
        let ghost keys = keys_of(entries);
        proof {
            slot_tells(keys, id@, at as int);
        }
        if at < self.downloaded_versions.len() && same(&self.downloaded_versions[at].0, id) {
            self.downloaded_versions.remove(at);
            let ghost now = self.downloaded_versions@;
            assert(keys_of(now) =~= keys.remove(at as int));
            proof {
                removed_stays_ordered(keys, at as int);
                removed_is_gone(keys, at as int);
                assert forall|key: Seq<char>| #[trigger]
                    keys_of(now).contains(key) <==> keys.contains(key) && key != id@ by {
                    assert(keys_of(now).to_set().contains(key) == keys.to_set().remove(
                        id@,
                    ).contains(key));
                }
                assert forall|key: Seq<char>| keys_of(now).contains(key) implies versions_of(
                    now,
                )[key] == versions_of(entries)[key] by {
                    let i = keys_of(now).index_of(key);
                    assert(keys_of(now)[i] == key);
                    version_at(now, i);
                    let p = if i < at { i } else { i + 1 };
                    version_at(entries, p);
                }
            }
            assert(versions_of(now) =~= versions_of(entries).remove(id@));
            true
        } else {
            assert(versions_of(entries) =~= versions_of(entries).remove(id@));
            false
        }
    }

    fn subscribe(&mut self, id: &str)
        requires
            old(self).well_formed(),
        ensures
            final(self).well_formed(),
            final(self)@.downloaded_versions == old(self)@.downloaded_versions,
            final(self)@.subscriptions == old(self)@.subscriptions.insert(id@),
    {
        let at = slot_in_texts(&self.subscriptions, id);
        let ghost keys = strings(self.subscriptions@);
        proof {
            slot_tells(keys, id@, at as int);
        }
        if at < self.subscriptions.len() && same(&self.subscriptions[at], id) {
            assert(keys.to_set() =~= keys.to_set().insert(id@));
        } else {
            self.subscriptions.insert(at, id.to_owned());
            assert(strings(self.subscriptions@) =~= keys.insert(at as int, id@));
            proof {
                inserted_stays_ordered(keys, id@, at as int);
                inserted_is_there(keys, id@, at as int);
            }
        }
    }

    fn unsubscribe(&mut self, id: &str)
        requires
            old(self).well_formed(),
        ensures
            final(self).well_formed(),
            final(self)@.downloaded_versions == old(self)@.downloaded_versions,
            final(self)@.subscriptions == old(self)@.subscriptions.remove(id@),
    {
        let at = slot_in_texts(&self.subscriptions, id);
        let ghost keys = strings(self.subscriptions@);
        proof {
            slot_tells(keys, id@, at as int);
        }
        if at < self.subscriptions.len() && same(&self.subscriptions[at], id) {
            self.subscriptions.remove(at);
            assert(strings(self.subscriptions@) =~= keys.remove(at as int));
            proof {
                removed_stays_ordered(keys, at as int);
                removed_is_gone(keys, at as int);
            }
        } else {
            assert(keys.to_set() =~= keys.to_set().remove(id@));
        }
    }

    /// Subscribes to a theme of the catalog, or takes a subscription back.
    pub fn set_subscription(&mut self, theme_id: &str, subscribed: bool) -> (r: Result<
        (),
        AppError,
    >)
        requires
            old(self).well_formed(),
        ensures
            final(self).well_formed(),
            fault(r) == unless(catalog_id(theme_id@), "主题 ID 无效："@ + theme_id@),
            final(self)@ == (if r is Ok {
                old(self)@.subscribed(theme_id@, subscribed)
            } else {
                old(self)@
            }),
    {
        if !valid_catalog_id(theme_id) {
            return Err(AppError::Message(join2("主题 ID 无效：", theme_id)));
        }
        if subscribed {
            self.subscribe(theme_id);
        } else {
            self.unsubscribe(theme_id);
        }
        Ok(())
    }

    /// Forgets a theme whose files were deleted, and tells whether there was anything to
    /// delete: files, or the record of a download.
    pub fn delete_theme(&mut self, theme_id: &str, removed: bool) -> (r: bool)
        requires
            old(self).well_formed(),
        ensures
            final(self).well_formed(),
            final(self)@ == old(self)@.deleted(theme_id@),
            r == (removed || old(self)@.downloaded_versions.contains_key(theme_id@)),
    {
        let known = self.forget_download(theme_id);
        self.unsubscribe(theme_id);
        removed || known
    }
}

/// What is wrong with the identifier of a theme that is to be deleted.
pub open spec fn deletion_fault(theme_id: Seq<char>) -> Option<ErrorModel> {
    unless(library_id(theme_id), "主题 ID 无效："@ + theme_id)
}

/// Checks the identifier of a theme that is to be deleted.
pub fn check_deletion(theme_id: &str) -> (r: Result<(), AppError>)
    ensures
        fault(r) == deletion_fault(theme_id@),
{
    if !valid_library_id(theme_id) {
        return Err(AppError::Message(join2("主题 ID 无效：", theme_id)));
    }
    Ok(())
}

/// Something that is deleted with a theme, if it is there.
#[derive(Debug)]
pub enum Leftover {
    /// The directory of that name among the installed themes.
    Installed(String),
    /// The file with that path in the cache.
    Cached(String),
}

/// What a [`Leftover`] says.
pub enum LeftoverModel {
    Installed(Seq<char>),
    Cached(Seq<char>),
}

impl View for Leftover {
    type V = LeftoverModel;

    open spec fn view(&self) -> LeftoverModel {
        match self {
            Leftover::Installed(name) => LeftoverModel::Installed(name@),
            Leftover::Cached(path) => LeftoverModel::Cached(path@),
        }
    }
}

/// What the leftovers of a list are.
pub open spec fn leftover_models(list: Seq<Leftover>) -> Seq<LeftoverModel> {
    Seq::new(list.len(), |i: int| list[i]@)
}

/// The files of a theme in the cache: those that the catalog gives, or else the manifest.
pub open spec fn cached_files(theme_id: Seq<char>, theme: Option<ThemeModel>) -> Seq<Seq<char>> {
    match theme {
        Some(theme) => seq![theme.manifest.path, theme.preview.path] + Seq::new(
            theme.assets.len(),
            |i: int| theme.assets[i].path,
        ),
        None => seq!["themes/"@ + theme_id + ".json"@],
    }
}

/// All that is deleted with a theme, in order.
pub open spec fn leftovers(theme_id: Seq<char>, theme: Option<ThemeModel>) -> Seq<LeftoverModel> {
    seq![LeftoverModel::Installed(theme_id)] + Seq::new(
        cached_files(theme_id, theme).len(),
        |i: int| LeftoverModel::Cached(cached_files(theme_id, theme)[i]),
    )
}

/// All that is to be deleted with a theme, in order; `theme` is what the catalog says of it.
pub fn delete_theme_files(theme_id: &str, theme: Option<&RemoteTheme>) -> (list: Vec<Leftover>)
    ensures
        leftover_models(list@) == leftovers(theme_id@, maybe_theme(theme)),
{
    let mut list: Vec<Leftover> = Vec::new();
    list.push(Leftover::Installed(theme_id.to_owned()));
    match theme {
        Some(theme) => {
            list.push(Leftover::Cached(theme.manifest.path.clone()));
            list.push(Leftover::Cached(theme.preview.path.clone()));
            let ghost whole = leftovers(theme_id@, Some(theme@));
            let mut i: usize = 0;
            while i < theme.assets.len()
                invariant
                    i <= theme.assets@.len(),
                    list@.len() == i + 3,
                    whole == leftovers(theme_id@, Some(theme@)),
                    forall|j: int| 0 <= j < list@.len() ==> #[trigger] list@[j]@ == whole[j],
                decreases theme.assets@.len() - i,
            {
                list.push(Leftover::Cached(theme.assets[i].path.clone()));
                assert(cached_files(theme_id@, Some(theme@))[i + 2] == theme.assets@[i as int].path@);
                i += 1;
            }
            assert(leftover_models(list@) =~= whole);
        },
        None => {
            list.push(Leftover::Cached(join3("themes/", theme_id, ".json")));
            assert(leftover_models(list@) =~= leftovers(theme_id@, None));
        },
    }
    list
}

/// The deletion of what is deleted with a theme, one thing after the other.
#[derive(Debug)]
pub struct FileDeletion {
    pub leftovers: Vec<Leftover>,
    /// How many of them were dealt with.
    pub at: usize,
    /// Whether one of those was there.
    pub removed: bool,
}

impl FileDeletion {
    /// Whether no more was dealt with than there is.
    pub open spec fn well_formed(&self) -> bool {
        self.at <= self.leftovers@.len()
    }

    /// The deletion before anything was dealt with; `theme` is what the catalog says of the
    /// theme.
    pub fn new(theme_id: &str, theme: Option<&RemoteTheme>) -> (deletion: FileDeletion)
        ensures
            deletion.well_formed(),
            leftover_models(deletion.leftovers@) == leftovers(theme_id@, maybe_theme(theme)),
            deletion.at == 0,
            !deletion.removed,
    {
        FileDeletion { leftovers: delete_theme_files(theme_id, theme), at: 0, removed: false }
    }

    /// What is to be deleted next, if it is there.
    pub fn pending(&self) -> (r: Option<&Leftover>)
        requires
            self.well_formed(),
        ensures
            match r {
                Some(leftover) => self.at < self.leftovers@.len() && leftover@ == leftover_models(
                    self.leftovers@,
                )[self.at as int],
                None => self.at == self.leftovers@.len(),
            },
    {
        if self.at < self.leftovers.len() {
            Some(&self.leftovers[self.at])
        } else {
            None
        }
    }

    /// Goes on to the next thing, given whether the one at hand was there, and so was deleted.
    pub fn deleted(&mut self, there: bool)
        requires
            old(self).well_formed(),
            old(self).at < old(self).leftovers@.len(),
        ensures
            final(self).well_formed(),
            final(self).leftovers@ == old(self).leftovers@,
            final(self).at == old(self).at + 1,
            final(self).removed == (old(self).removed || there),
    {
        assert(self.leftovers.len() <= usize::MAX);
        self.at = self.at + 1;
        self.removed = self.removed || there;
    }
}

/// What was compiled for the theme in use.
pub const COMPILED: [&'static str; 3] = ["codex-theme.css", "codex-theme.js", "current-theme.json"];

/// Which theme a compiled manifest names.
pub open spec fn compiled_id(manifest: JsonModel) -> Option<Seq<char>> {
    match manifest.member("id"@) {
        Some(value) => value.text(),
        None => manifest.text_member("codeThemeId"@),
    }
}

/// Whether a compiled manifest names that theme.
pub fn names_theme(manifest: &Json, theme_id: &str) -> (r: bool)
    ensures
        r == (compiled_id(manifest@) == Some(theme_id@)),
{
    let id = match manifest.get("id") {
        Some(value) => value.as_text(),
        None => manifest.text_at("codeThemeId"),
    };
    match id {
        Some(id) => same(id, theme_id),
        None => false,
    }
}

/// Whether a compiled manifest, where there is one, names that theme.
pub open spec fn in_use(manifest: Option<Seq<u8>>, theme_id: Seq<char>) -> bool {
    manifest matches Some(bytes) && json_read(bytes) matches Ok(root) && compiled_id(root) == Some(
        theme_id,
    )
}

/// Which of the compiled files are deleted with a theme, given the manifest of the theme in use.
pub fn clear_compiled_state(current: Option<&Vec<u8>>, theme_id: &str) -> (names: Vec<String>)
    ensures
        strings(names@) == (if in_use(
            match current {
                Some(bytes) => Some(bytes@),
                None => None,
            },
            theme_id@,
        ) {
            texts(COMPILED@)
        } else {
            Seq::empty()
        }),
{
    let mut names: Vec<String> = Vec::new();
    let used = match current {
        Some(bytes) => match read_json(bytes) {
            Ok(root) => names_theme(&root, theme_id),
            Err(_) => false,
        },
        None => false,
    };
    if used {
        names.push(COMPILED[0].to_owned());
        names.push(COMPILED[1].to_owned());
        names.push(COMPILED[2].to_owned());
        assert(strings(names@) =~= texts(COMPILED@));
    } else {
        assert(strings(names@) =~= Seq::empty());
    }
    names
}

/// What keeps a preview from being fetched.
pub open spec fn preview_fault(themes: Option<Seq<ThemeModel>>, theme_id: Seq<char>) -> Option<
    ErrorModel,
> {
    match themes {
        Some(list) => unless(
            theme_with(list, theme_id) is Some,
            "远程主题不存在："@ + theme_id,
        ),
        None => broken("尚未同步远程主题目录。"@),
    }
}

/// The themes of a catalog that may be missing.
pub open spec fn maybe_themes(catalog: Option<&RemoteCatalog>) -> Option<Seq<ThemeModel>> {
    match catalog {
        Some(catalog) => Some(catalog@.themes),
        None => None,
    }
}

/// The preview that is to be fetched for a theme.
pub fn ensure_preview<'a>(catalog: Option<&'a RemoteCatalog>, theme_id: &str) -> (r: Result<
    &'a RemoteResource,
    AppError,
>)
    ensures
        fault(r) == preview_fault(maybe_themes(catalog), theme_id@),
        r is Ok ==> r->Ok_0@ == theme_with(maybe_themes(catalog)->0, theme_id@)->0.preview,
{
    match catalog {
        Some(catalog) => match find_theme(catalog, theme_id) {
            Some(theme) => Ok(&theme.preview),
            None => Err(AppError::Message(join2("远程主题不存在：", theme_id))),
        },
        None => Err(AppError::Message("尚未同步远程主题目录。".to_owned())),
    }
}

/// A file that is to be fetched.
#[derive(Debug)]
pub struct Download<'a> {
    pub resource: &'a RemoteResource,
    /// Whether it has to be an image.
    pub image: bool,
}

/// What the downloads of a list are.
pub open spec fn download_models(list: Seq<Download<'_>>) -> Seq<(ResourceModel, bool)> {
    Seq::new(list.len(), |i: int| (list[i].resource@, list[i].image))
}

/// The files that a theme is made of, in the order in which they are fetched: its manifest,
/// then its assets, which have to be images.
pub open spec fn downloads(theme: ThemeModel) -> Seq<(ResourceModel, bool)> {
    seq![(theme.manifest, false)] + Seq::new(theme.assets.len(), |i: int| (theme.assets[i], true))
}

/// The theme that is to be fetched, with its files in order: none where the catalog does not
/// have it.
pub fn ensure_theme<'a>(catalog: Option<&'a RemoteCatalog>, theme_id: &str) -> (r: Option<
    (&'a RemoteTheme, Vec<Download<'a>>),
>)
    ensures
        match r {
            Some((theme, list)) => {
                &&& maybe_themes(catalog) is Some
                &&& theme_with(maybe_themes(catalog)->0, theme_id@) == Some(theme@)
                &&& download_models(list@) == downloads(theme@)
            },
            None => maybe_themes(catalog) matches Some(list) ==> theme_with(
                list,
                theme_id@,
            ) is None,
        },
{
    let theme = match catalog {
        Some(catalog) => find_theme(catalog, theme_id)?,
        None => {
            return None;
        },
    };
    let mut list: Vec<Download<'a>> = Vec::new();
    list.push(Download { resource: &theme.manifest, image: false });
    let ghost whole = downloads(theme@);
    let mut i: usize = 0;
    while i < theme.assets.len()
        invariant
            i <= theme.assets@.len(),
            list@.len() == i + 1,
            whole == downloads(theme@),
            forall|j: int|
                0 <= j < list@.len() ==> (#[trigger] list@[j]).resource@ == whole[j].0
                    && list@[j].image == whole[j].1,
        decreases theme.assets@.len() - i,
    {
        list.push(Download { resource: &theme.assets[i], image: true });
        assert(whole[i + 1] == (theme.assets@[i as int]@, true));
        i += 1;
    }
    assert(download_models(list@) =~= whole);
    Some((theme, list))
}

/// The fetching of the themes that the user subscribed to.
#[derive(Debug)]
pub struct SubscriptionSync {
    /// The themes, in ascending order.
    pub themes: Vec<String>,
    /// How many of them were fetched.
    pub at: usize,
    /// How many of those came in another version than the one that was there.
    pub updated: usize,
}

/// Whether the version of a theme after it was fetched is another than before.
pub open spec fn renewed(before: Option<Seq<char>>, after: Option<Seq<char>>) -> bool {
    after is Some && after != before
}

impl SubscriptionSync {
    /// Whether no more themes were counted than were fetched.
    pub open spec fn well_formed(&self) -> bool {
        self.updated <= self.at <= self.themes@.len()
    }

    /// The fetching of what the user subscribed to, before it starts.
    pub fn new(state: &ThemeLibraryState) -> (sync: SubscriptionSync)
        requires
            state.well_formed(),
        ensures
            sync.well_formed(),
            strings(sync.themes@) == strings(state.subscriptions@),
            strings(sync.themes@).to_set() == state@.subscriptions,
            ordered(strings(sync.themes@)),
            sync.at == 0,
            sync.updated == 0,
    {
        let mut themes: Vec<String> = Vec::new();
        let mut i: usize = 0;
        while i < state.subscriptions.len()
            invariant
                i <= state.subscriptions@.len(),
                themes@.len() == i,
                forall|j: int| 0 <= j < i ==> #[trigger] themes@[j]@ == state.subscriptions@[j]@,
            decreases state.subscriptions@.len() - i,
        {
            themes.push(state.subscriptions[i].clone());
            i += 1;
        }
        assert(strings(themes@) =~= strings(state.subscriptions@));
        SubscriptionSync { themes, at: 0, updated: 0 }
    }

    /// The theme that is to be fetched next.
    pub fn pending(&self) -> (r: Option<&String>)
        requires
            self.well_formed(),
        ensures
            match r {
                Some(id) => self.at < self.themes@.len() && id@ == strings(
                    self.themes@,
                )[self.at as int],
                None => self.at == self.themes@.len(),
            },
    {
        if self.at < self.themes.len() {
            Some(&self.themes[self.at])
        } else {
            None
        }
    }

    /// Counts the theme that was fetched, given its versions before and after.
    pub fn sync_subscriptions(&mut self, before: Option<String>, after: Option<String>)
        requires
            old(self).well_formed(),
            old(self).at < old(self).themes@.len(),
        ensures
            final(self).well_formed(),
            final(self).themes@ == old(self).themes@,
            final(self).at == old(self).at + 1,
            final(self).updated == old(self).updated + (if renewed(maybe(before), maybe(after)) {
                1int
            } else {
                0
            }),
    {
        let counts = match (&before, &after) {
            (_, None) => false,
            (None, Some(_)) => true,
            (Some(a), Some(b)) => !same(a, b),
        };
        assert(self.themes.len() <= usize::MAX);
        self.at = self.at + 1;
        if counts {
            self.updated = self.updated + 1;
        }
    }
}

/// A subscription that is made and taken back leaves no trace, unless it was there before.
pub proof fn unsubscribing_undoes(state: LibraryModel, id: Seq<char>)
    requires
        !state.subscriptions.contains(id),
    ensures
        state.subscribed(id, true).subscribed(id, false) == state,
{
    assert(state.subscribed(id, true).subscribed(id, false) =~= state);
}

/// Subscribing twice is the same as subscribing once, and so is unsubscribing.
pub proof fn subscribing_again(state: LibraryModel, id: Seq<char>, subscribed: bool)
    ensures
        state.subscribed(id, subscribed).subscribed(id, subscribed) == state.subscribed(
            id,
            subscribed,
        ),
{
    assert(state.subscribed(id, subscribed).subscribed(id, subscribed) =~= state.subscribed(
        id,
        subscribed,
    ));
}

/// Of a deleted theme nothing is left in the state, and nothing else is changed.
pub proof fn deleting_forgets(state: LibraryModel, id: Seq<char>, other: Seq<char>)
    requires
        other != id,
    ensures
        state.deleted(id).version(id) is None,
        !state.deleted(id).subscriptions.contains(id),
        state.deleted(id).version(other) == state.version(other),
        state.deleted(id).subscriptions.contains(other) == state.subscriptions.contains(other),
{
}

/// A theme that was just downloaded is known by its version, and deleting it is to find
/// something.
pub proof fn downloads_are_known(state: LibraryModel, id: Seq<char>, version: Seq<char>)
    ensures
        state.downloaded(id, version).version(id) == Some(version),
        state.downloaded(id, version).downloaded_versions.contains_key(id),
        state.downloaded(id, version).subscriptions == state.subscriptions,
{
}

/// What can be subscribed to can be deleted.
pub proof fn catalog_ids_are_library_ids(id: Seq<char>)
    requires
        catalog_id(id),
    ensures
        library_id(id),
        deletion_fault(id) is None,
{
    assert forall|i: int| 0 <= i < id.len() - 1 implies !(#[trigger] id[i] == '.' && id[i + 1]
        == '.') by {
        assert(id[i] != '.');
    }
}

/// The directory that is deleted with a theme lies right among the installed ones: its name has
/// no separator, and is not the name of a directory above.
pub proof fn deleted_directories_are_names(id: Seq<char>)
    requires
        library_id(id),
    ensures
        !id.contains('/'),
        !id.contains('\\'),
        id != "."@,
        id != ".."@,
{
    reveal_strlit(".");
    reveal_strlit("..");
    assert forall|i: int| 0 <= i < id.len() implies id[i] != '/' && id[i] != '\\' by {
        assert(id_letter(id[i]) || id[i] == '-' || id[i] == '.');
    }
    assert(id[0] != '.');
}

/// The files that are deleted with a theme are files that the catalog may hold.
pub proof fn deleted_files_are_allowed(
    id: Seq<char>,
    theme: Option<ThemeModel>,
    versioned: bool,
    extensions: ExtensionsModel,
    path: Seq<char>,
)
    requires
        library_id(id),
        theme matches Some(entry) ==> sound_entry(entry, versioned, extensions),
        cached_files(id, theme).contains(path),
    ensures
        exists|extension: Seq<char>| allowed_path(path, extension),
{
    let files = cached_files(id, theme);
    let i = files.index_of(path);
    assert(files[i] == path);
    match theme {
        Some(entry) => {
            if i == 0 {
                assert(allowed_path(path, extensions.manifest));
            } else if i == 1 {
                assert(allowed_path(path, extensions.preview));
            } else {
                assert(files[i] == entry.assets[i - 2].path);
                assert(sound_resource(entry.assets[i - 2], extensions.assets[i - 2]));
                assert(allowed_path(path, extensions.assets[i - 2]));
            }
        },
        None => {
            reveal_strlit("themes/");
            reveal_strlit("themes");
            reveal_strlit("json");
            reveal_strlit(".json");
            let directory = "themes"@;
            let name = id + ".json"@;
            assert(path =~= directory + seq!['/'] + name);
            assert forall|k: int| 0 <= k < name.len() implies name[k] != '/' by {
                if k < id.len() {
                    assert(id_letter(id[k]) || id[k] == '-' || id[k] == '.');
                }
            }
            assert(lower("json"@) =~= "json"@);
            assert(allowed_file(directory, "json"@));
            assert(allowed_path(path, "json"@));
        },
    }
}

} // verus!
