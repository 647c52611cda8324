//! The catalog of remote themes: what it holds, and when it is sound.

use crate::error::{either, fault, AppError, ErrorModel};
use crate::outside::{is_rfc3339, is_semantic_version, plain_name, rfc3339, semantic_version};
use crate::rules::{
    allowed_by, allowed_path, catalog_id, digest_text, extension_in, extension_text, file_part,
    is_digest, may_extend, valid_catalog_id,
};
use crate::rules_laws::{digests_are, hexadecimal};
use crate::text::{begins, begins_with, byte_len, join2, join3, one_of, same, strings, texts};
use crate::theme::{unless, CATEGORIES, VARIANTS};
use vstd::prelude::*;
use vstd::utf8::encode_utf8;

verus! {

/// How many bytes a file of the catalog may have.
pub const MAX_FILE: u64 = 20971520;

/// A file of the catalog, with what its bytes must be.
#[derive(Clone, Debug)]
pub struct RemoteResource {
    pub path: String,
    pub sha256: String,
    pub size: u64,
}

/// A theme of the catalog.
#[derive(Clone, Debug)]
pub struct RemoteTheme {
    pub id: String,
    pub version: String,
    pub name: String,
    pub description: String,
    pub category: String,
    pub variant: String,
    pub manifest: RemoteResource,
    pub preview: RemoteResource,
    pub assets: Vec<RemoteResource>,
}

/// The catalog.
#[derive(Clone, Debug)]
pub struct RemoteCatalog {
    pub schema_version: u64,
    pub name: String,
    pub revision: String,
    pub themes: Vec<RemoteTheme>,
}

/// What a [`RemoteResource`] says.
pub struct ResourceModel {
    pub path: Seq<char>,
    pub sha256: Seq<char>,
    pub size: u64,
}

/// What a [`RemoteTheme`] says.
pub struct ThemeModel {
    pub id: Seq<char>,
    pub version: Seq<char>,
    pub name: Seq<char>,
    pub description: Seq<char>,
    pub category: Seq<char>,
    pub variant: Seq<char>,
    pub manifest: ResourceModel,
    pub preview: ResourceModel,
    pub assets: Seq<ResourceModel>,
}

/// What a [`RemoteCatalog`] says.
pub struct CatalogModel {
    pub schema_version: u64,
    pub name: Seq<char>,
    pub revision: Seq<char>,
    pub themes: Seq<ThemeModel>,
}

impl View for RemoteResource {
    type V = ResourceModel;

    open spec fn view(&self) -> ResourceModel {
        ResourceModel { path: self.path@, sha256: self.sha256@, size: self.size }
    }
}

/// What the files of a list are.
pub open spec fn resources(list: Seq<RemoteResource>) -> Seq<ResourceModel> {
    Seq::new(list.len(), |i: int| list[i]@)
}

impl View for RemoteTheme {
    type V = ThemeModel;

    open spec fn view(&self) -> ThemeModel {
        ThemeModel {
            id: self.id@,
            version: self.version@,
            name: self.name@,
            description: self.description@,
            category: self.category@,
            variant: self.variant@,
            manifest: self.manifest@,
            preview: self.preview@,
            assets: resources(self.assets@),
        }
    }
}

/// What the themes of a list are.
pub open spec fn themes(list: Seq<RemoteTheme>) -> Seq<ThemeModel> {
    Seq::new(list.len(), |i: int| list[i]@)
}

impl View for RemoteCatalog {
    type V = CatalogModel;

    open spec fn view(&self) -> CatalogModel {
        CatalogModel {
            schema_version: self.schema_version,
            name: self.name@,
            revision: self.revision@,
            themes: themes(self.themes@),
        }
    }
}

/// A file with a path that the catalog allows, a size within bounds and a digest. `extension` is
/// that of the file, as the system reads it.
pub open spec fn sound_resource(resource: ResourceModel, extension: Seq<char>) -> bool {
    &&& allowed_path(resource.path, extension)
    &&& 0 < resource.size <= MAX_FILE
    &&& digest_text(resource.sha256)
}

/// What is wrong with a file of the catalog.
pub open spec fn resource_fault(resource: ResourceModel, extension: Seq<char>) -> Option<
    ErrorModel,
> {
    unless(sound_resource(resource, extension), "远程主题资源描述无效："@ + resource.path)
}

/// Checks a file of the catalog, given its extension.
pub fn validate_resource_entry(resource: &RemoteResource, extension: &str) -> (r: Result<
    (),
    AppError,
>)
    ensures
        fault(r) == resource_fault(resource@, extension@),
{
    if !allowed_by(&resource.path, extension) || resource.size == 0 || resource.size > MAX_FILE
        || !is_digest(&resource.sha256) {
        return Err(AppError::Message(join2("远程主题资源描述无效：", &resource.path)));
    }
    Ok(())
}

/// Checks a file of the catalog.
pub fn validate_remote_resource(resource: &RemoteResource) -> (r: Result<(), AppError>)
    ensures
        exists|extension: Seq<char>| #[trigger]
            may_extend(resource@.path, extension) && fault(r) == resource_fault(
                resource@,
                extension,
            ),
        plain_name(file_part(resource@.path)) ==> fault(r) == resource_fault(
            resource@,
            extension_text(file_part(resource@.path)),
        ),
{
    let extension = extension_in(&resource.path);
    assert(may_extend(resource@.path, extension@));
    validate_resource_entry(resource, &extension)
}

/// The extensions of the files of a theme, as the system reads them.
#[derive(Debug)]
pub struct Extensions {
    pub manifest: String,
    pub preview: String,
    pub assets: Vec<String>,
}

/// What [`Extensions`] says.
#[verifier::ext_equal]
pub struct ExtensionsModel {
    pub manifest: Seq<char>,
    pub preview: Seq<char>,
    pub assets: Seq<Seq<char>>,
}

impl View for Extensions {
    type V = ExtensionsModel;

    open spec fn view(&self) -> ExtensionsModel {
        ExtensionsModel {
            manifest: self.manifest@,
            preview: self.preview@,
            assets: strings(self.assets@),
        }
    }
}

/// What the extensions of a list are.
pub open spec fn extensions_models(list: Seq<Extensions>) -> Seq<ExtensionsModel> {
    Seq::new(list.len(), |i: int| list[i]@)
}

/// Whether these may be the extensions of the files of a theme.
pub open spec fn may_extend_theme(theme: ThemeModel, extensions: ExtensionsModel) -> bool {
    &&& may_extend(theme.manifest.path, extensions.manifest)
    &&& may_extend(theme.preview.path, extensions.preview)
    &&& extensions.assets.len() == theme.assets.len()
    &&& forall|i: int|
        0 <= i < theme.assets.len() ==> may_extend(
            (#[trigger] theme.assets[i]).path,
            extensions.assets[i],
        )
}

/// Whether these may be the extensions of the files of each theme of a list.
pub open spec fn may_extend_all(list: Seq<ThemeModel>, extensions: Seq<ExtensionsModel>) -> bool {
    &&& extensions.len() == list.len()
    &&& forall|i: int|
        0 <= i < list.len() ==> may_extend_theme(#[trigger] list[i], extensions[i])
}

/// Whether all files of a theme have names that every system reads alike.
pub open spec fn plain_theme(theme: ThemeModel) -> bool {
    &&& plain_name(file_part(theme.manifest.path))
    &&& plain_name(file_part(theme.preview.path))
    &&& forall|i: int|
        0 <= i < theme.assets.len() ==> plain_name(file_part((#[trigger] theme.assets[i]).path))
}

/// The extensions of the files of a theme whose names every system reads alike.
pub open spec fn plain_extensions(theme: ThemeModel) -> ExtensionsModel {
    ExtensionsModel {
        manifest: extension_text(file_part(theme.manifest.path)),
        preview: extension_text(file_part(theme.preview.path)),
        assets: Seq::new(
            theme.assets.len(),
            |i: int| extension_text(file_part(theme.assets[i].path)),
        ),
    }
}

/// The extensions of the files of each theme of a list.
pub open spec fn all_plain_extensions(list: Seq<ThemeModel>) -> Seq<ExtensionsModel> {
    Seq::new(list.len(), |i: int| plain_extensions(list[i]))
}

proof fn plain_names_decide(list: Seq<ThemeModel>, extensions: Seq<ExtensionsModel>)
    requires
        may_extend_all(list, extensions),
        forall|i: int| 0 <= i < list.len() ==> plain_theme(#[trigger] list[i]),
    ensures
        extensions == all_plain_extensions(list),
{
    assert forall|i: int| 0 <= i < list.len() implies extensions[i] == plain_extensions(
        list[i],
    ) by {
        assert(may_extend_theme(list[i], extensions[i]));
        assert(plain_theme(list[i]));
        assert(extensions[i].assets =~= plain_extensions(list[i]).assets) by {
            assert forall|k: int| 0 <= k < list[i].assets.len() implies extensions[i].assets[k]
                == extension_text(file_part(list[i].assets[k].path)) by {
                assert(may_extend(list[i].assets[k].path, extensions[i].assets[k]));
            }
        }
    }
    assert(extensions =~= all_plain_extensions(list));
}

fn extensions_of(theme: &RemoteTheme) -> (r: Extensions)
    ensures
        may_extend_theme(theme@, r@),
{
    let manifest = extension_in(&theme.manifest.path);
    let preview = extension_in(&theme.preview.path);
    let mut assets: Vec<String> = Vec::new();
    let mut i: usize = 0;
    while i < theme.assets.len()
        invariant
            i <= theme.assets@.len(),
            assets@.len() == i,
            forall|j: int|
                0 <= j < i ==> may_extend(theme.assets@[j]@.path, #[trigger] assets@[j]@),
        decreases theme.assets@.len() - i,
    {
        assets.push(extension_in(&theme.assets[i].path));
        i += 1;
    }
    let r = Extensions { manifest, preview, assets };
    assert forall|k: int| 0 <= k < theme@.assets.len() implies may_extend(
        (#[trigger] theme@.assets[k]).path,
        r@.assets[k],
    ) by {
        assert(r@.assets[k] == assets@[k]@);
    }
    r
}

/// Whether one of the files of a list has that path.
pub open spec fn has_path(list: Seq<ResourceModel>, path: Seq<char>) -> bool {
    exists|i: int| 0 <= i < list.len() && (#[trigger] list[i]).path == path
}

/// What is wrong with the assets of a theme: each is a sound file, no two have the same path,
/// and none is a manifest.
pub open spec fn assets_fault(
    id: Seq<char>,
    assets: Seq<ResourceModel>,
    extensions: Seq<Seq<char>>,
) -> Option<ErrorModel>
    decreases assets.len(),
{
    if assets.len() == 0 {
        None
    } else {
        either(
            assets_fault(id, assets.drop_last(), extensions),
            either(
                resource_fault(assets.last(), extensions[assets.len() - 1]),
                unless(
                    !has_path(assets.drop_last(), assets.last().path) && !begins(
                        assets.last().path,
                        "themes/"@,
                    ),
                    "远程主题包含重复或无效资源："@ + id,
                ),
            ),
        )
    }
}

proof fn assets_prefix(
    id: Seq<char>,
    assets: Seq<ResourceModel>,
    extensions: Seq<Seq<char>>,
    n: int,
)
    requires
        0 <= n <= assets.len(),
    ensures
        assets_fault(id, assets.take(n), extensions) is Some ==> assets_fault(
            id,
            assets,
            extensions,
        ) == assets_fault(id, assets.take(n), extensions),
    decreases assets.len(),
{
    if n < assets.len() {
        assert(assets.drop_last().take(n) =~= assets.take(n));
        assets_prefix(id, assets.drop_last(), extensions, n);
    } else {
        assert(assets.take(n) =~= assets);
    }
}

fn path_among(list: &Vec<RemoteResource>, n: usize, path: &str) -> (r: bool)
    requires
        n <= list@.len(),
    ensures
        r == has_path(resources(list@).take(n as int), path@),
{
    let ghost known = resources(list@).take(n as int);
    let mut i: usize = 0;
    while i < n
        invariant
            i <= n <= list@.len(),
            known == resources(list@).take(n as int),
            forall|j: int| 0 <= j < i ==> (#[trigger] known[j]).path != path@,
        decreases n - i,
    {
        if same(&list[i].path, path) {
            assert(known[i as int].path == path@);
            return true;
        }
        i += 1;
    }
    false
}

fn check_assets(id: &str, assets: &Vec<RemoteResource>, extensions: &Vec<String>) -> (r: Result<
    (),
    AppError,
>)
    requires
        extensions@.len() == assets@.len(),
    ensures
        fault(r) == assets_fault(id@, resources(assets@), strings(extensions@)),
{
    let ghost all = resources(assets@);
    let ghost known = strings(extensions@);
    let mut i: usize = 0;
    while i < assets.len()
        invariant
            i <= assets@.len(),
            extensions@.len() == assets@.len(),
            all == resources(assets@),
            known == strings(extensions@),
            assets_fault(id@, all.take(i as int), known) is None,
        decreases assets@.len() - i,
    {
        let asset = &assets[i];
        let ghost next = all.take(i + 1);
        assert(next.drop_last() =~= all.take(i as int));
        assert(next.last() == asset@);
        proof {
            assets_prefix(id@, all, known, i + 1);
        }
        assert(known[i as int] == extensions@[i as int]@);
        validate_resource_entry(asset, &extensions[i])?;
        if path_among(assets, i, &asset.path) || begins_with(&asset.path, "themes/") {
            return Err(AppError::Message(join2("远程主题包含重复或无效资源：", id)));
        }
        i += 1;
    }
    assert(all.take(i as int) =~= all);
    Ok(())
}

/// Whether a theme is described as it should be, whatever files it has. `versioned` tells
/// whether its version is a version number.
pub open spec fn described(theme: ThemeModel, versioned: bool) -> bool {
    &&& catalog_id(theme.id)
    &&& versioned
    &&& 0 < encode_utf8(theme.name).len() <= 80
    &&& encode_utf8(theme.description).len() <= 300
    &&& texts(CATEGORIES@).contains(theme.category)
    &&& texts(VARIANTS@).contains(theme.variant)
}

/// Whether one of the themes of a list has that identifier.
pub open spec fn has_id(list: Seq<ThemeModel>, id: Seq<char>) -> bool {
    exists|i: int| 0 <= i < list.len() && (#[trigger] list[i]).id == id
}

/// Whether the manifest and the preview lie where they should, beside one to four assets.
pub open spec fn indexed(theme: ThemeModel) -> bool {
    &&& theme.manifest.path == "themes/"@ + theme.id + ".json"@
    &&& begins(theme.preview.path, "previews/"@)
    &&& 1 <= theme.assets.len() <= 4
}

/// What is wrong with a theme of the catalog that comes after the themes of a list.
pub open spec fn theme_fault(
    earlier: Seq<ThemeModel>,
    theme: ThemeModel,
    versioned: bool,
    extensions: ExtensionsModel,
) -> Option<ErrorModel> {
    either(
        unless(
            described(theme, versioned) && !has_id(earlier, theme.id),
            "远程主题条目无效："@ + theme.id,
        ),
        either(
            resource_fault(theme.manifest, extensions.manifest),
            either(
                resource_fault(theme.preview, extensions.preview),
                either(
                    unless(indexed(theme), "远程主题资源索引无效："@ + theme.id),
                    either(
                        assets_fault(theme.id, theme.assets, extensions.assets),
                        unless(
                            theme.assets.contains(theme.preview),
                            "远程主题缺少匹配的预览资源："@ + theme.id,
                        ),
                    ),
                ),
            ),
        ),
    )
}

/// What is wrong with the themes of the catalog: the fault of the first one that has any.
pub open spec fn themes_fault(
    list: Seq<ThemeModel>,
    versioned: Seq<bool>,
    extensions: Seq<ExtensionsModel>,
) -> Option<ErrorModel>
    decreases list.len(),
{
    if list.len() == 0 {
        None
    } else {
        either(
            themes_fault(list.drop_last(), versioned, extensions),
            theme_fault(
                list.drop_last(),
                list.last(),
                versioned[list.len() - 1],
                extensions[list.len() - 1],
            ),
        )
    }
}

/// Whether the catalog is described as it should be, whatever themes it holds. `dated` tells
/// whether its revision is a date.
pub open spec fn titled(catalog: CatalogModel, dated: bool) -> bool {
    &&& catalog.schema_version == 2
    &&& 0 < encode_utf8(catalog.name).len() <= 80
    &&& dated
    &&& 1 <= catalog.themes.len() <= 500
}

/// What is wrong with the catalog.
pub open spec fn catalog_fault(
    catalog: CatalogModel,
    dated: bool,
    versioned: Seq<bool>,
    extensions: Seq<ExtensionsModel>,
) -> Option<ErrorModel> {
    either(
        unless(titled(catalog, dated), "远程主题目录元数据无效。"@),
        themes_fault(catalog.themes, versioned, extensions),
    )
}

proof fn themes_prefix(
    list: Seq<ThemeModel>,
    versioned: Seq<bool>,
    extensions: Seq<ExtensionsModel>,
    n: int,
)
    requires
        0 <= n <= list.len(),
    ensures
        themes_fault(list.take(n), versioned, extensions) is Some ==> themes_fault(
            list,
            versioned,
            extensions,
        ) == themes_fault(list.take(n), versioned, extensions),
    decreases list.len(),
{
    if n < list.len() {
        assert(list.drop_last().take(n) =~= list.take(n));
        themes_prefix(list.drop_last(), versioned, extensions, n);
    } else {
        assert(list.take(n) =~= list);
    }
}

fn id_among(list: &Vec<RemoteTheme>, n: usize, id: &str) -> (r: bool)
    requires
        n <= list@.len(),
    ensures
        r == has_id(themes(list@).take(n as int), id@),
{
    let ghost known = themes(list@).take(n as int);
    let mut i: usize = 0;
    while i < n
        invariant
            i <= n <= list@.len(),
            known == themes(list@).take(n as int),
            forall|j: int| 0 <= j < i ==> (#[trigger] known[j]).id != id@,
        decreases n - i,
    {
        if same(&list[i].id, id) {
            assert(known[i as int].id == id@);
            return true;
        }
        i += 1;
    }
    false
}

fn same_resource(a: &RemoteResource, b: &RemoteResource) -> (r: bool)
    ensures
        r == (a@ == b@),
{
    same(&a.path, &b.path) && same(&a.sha256, &b.sha256) && a.size == b.size
}

fn has_preview(theme: &RemoteTheme) -> (r: bool)
    ensures
        r == theme@.assets.contains(theme@.preview),
{
    let ghost all = resources(theme.assets@);
    let mut i: usize = 0;
    while i < theme.assets.len()
        invariant
            i <= theme.assets@.len(),
            all == resources(theme.assets@),
            forall|j: int| 0 <= j < i ==> #[trigger] all[j] != theme@.preview,
        decreases theme.assets@.len() - i,
    {
        if same_resource(&theme.assets[i], &theme.preview) {
            assert(all[i as int] == theme@.preview);
            return true;
        }
        i += 1;
    }
    false
}

fn is_described(theme: &RemoteTheme, versioned: bool) -> (r: bool)
    ensures
        r == described(theme@, versioned),
{
    valid_catalog_id(&theme.id) && versioned && byte_len(&theme.name) > 0 && byte_len(&theme.name)
        <= 80 && byte_len(&theme.description) <= 300 && one_of(&theme.category, &CATEGORIES)
        && one_of(&theme.variant, &VARIANTS)
}

fn is_indexed(theme: &RemoteTheme) -> (r: bool)
    ensures
        r == indexed(theme@),
{
    same(&theme.manifest.path, &join3("themes/", &theme.id, ".json")) && begins_with(
        &theme.preview.path,
        "previews/",
    ) && theme.assets.len() > 0 && theme.assets.len() <= 4
}

fn check_theme(
    list: &Vec<RemoteTheme>,
    n: usize,
    versioned: bool,
    extensions: &Extensions,
) -> (r: Result<(), AppError>)
    requires
        n < list@.len(),
        extensions.assets@.len() == list@[n as int].assets@.len(),
    ensures
        fault(r) == theme_fault(
            themes(list@).take(n as int),
            list@[n as int]@,
            versioned,
            extensions@,
        ),
{
    let theme = &list[n];
    if !is_described(theme, versioned) || id_among(list, n, &theme.id) {
        return Err(AppError::Message(join2("远程主题条目无效：", &theme.id)));
    }
    validate_resource_entry(&theme.manifest, &extensions.manifest)?;
    validate_resource_entry(&theme.preview, &extensions.preview)?;
    if !is_indexed(theme) {
        return Err(AppError::Message(join2("远程主题资源索引无效：", &theme.id)));
    }
    check_assets(&theme.id, &theme.assets, &extensions.assets)?;
    if !has_preview(theme) {
        return Err(AppError::Message(join2("远程主题缺少匹配的预览资源：", &theme.id)));
    }
    Ok(())
}

/// Checks the catalog, given whether its revision is a date, and for each theme whether its
/// version is a version number and what the extensions of its files are.
pub fn validate_catalog_entries(
    catalog: &RemoteCatalog,
    dated: bool,
    versioned: &Vec<bool>,
    extensions: &Vec<Extensions>,
) -> (r: Result<(), AppError>)
    requires
        versioned@.len() == catalog.themes@.len(),
        extensions@.len() == catalog.themes@.len(),
        forall|i: int|
            0 <= i < catalog.themes@.len() ==> (#[trigger] extensions@[i]).assets@.len()
                == catalog.themes@[i].assets@.len(),
    ensures
        fault(r) == catalog_fault(catalog@, dated, versioned@, extensions_models(extensions@)),
{
    if catalog.schema_version != 2 || byte_len(&catalog.name) == 0 || byte_len(&catalog.name) > 80
        || !dated || catalog.themes.len() == 0 || catalog.themes.len() > 500 {
        return Err(AppError::Message("远程主题目录元数据无效。".to_owned()));
    }
    let list = &catalog.themes;
    let ghost all = themes(list@);
    let ghost known = extensions_models(extensions@);
    let mut i: usize = 0;
    while i < list.len()
        invariant
            i <= list@.len(),
            list@ == catalog.themes@,
            versioned@.len() == list@.len(),
            extensions@.len() == list@.len(),
            forall|k: int|
                0 <= k < list@.len() ==> (#[trigger] extensions@[k]).assets@.len()
                    == list@[k].assets@.len(),
            all == themes(list@),
            known == extensions_models(extensions@),
            titled(catalog@, dated),
            themes_fault(all.take(i as int), versioned@, known) is None,
        decreases list@.len() - i,
    {
        let ghost next = all.take(i + 1);
        assert(next.drop_last() =~= all.take(i as int));
        assert(next.last() == list@[i as int]@);
        proof {
            themes_prefix(all, versioned@, known, i + 1);
        }
        check_theme(list, i, versioned[i], &extensions[i])?;
        i += 1;
    }
    assert(all.take(i as int) =~= all);
    Ok(())
}

/// For each theme whether its version is a version number.
pub open spec fn versions(list: Seq<ThemeModel>) -> Seq<bool> {
    Seq::new(list.len(), |i: int| semantic_version(list[i].version))
}

/// Whether that is what is wrong with the catalog, if anything is: by the extensions of its
/// files, which a system may read in its own way where their names are not plain.
pub open spec fn judged(catalog: CatalogModel, fault: Option<ErrorModel>) -> bool {
    let dated = rfc3339(catalog.revision);
    let versioned = versions(catalog.themes);
    &&& exists|extensions: Seq<ExtensionsModel>| #[trigger]
        may_extend_all(catalog.themes, extensions) && fault == catalog_fault(
            catalog,
            dated,
            versioned,
            extensions,
        )
    &&& (forall|i: int| 0 <= i < catalog.themes.len() ==> plain_theme(#[trigger] catalog.themes[i]))
        ==> fault == catalog_fault(
        catalog,
        dated,
        versioned,
        all_plain_extensions(catalog.themes),
    )
}

/// Checks the catalog. Where all its files have plain names, that is the same on every system.
pub fn validate_remote_catalog(catalog: &RemoteCatalog) -> (r: Result<(), AppError>)
    ensures
        judged(catalog@, fault(r)),
{
    let dated = is_rfc3339(&catalog.revision);
    let mut versioned: Vec<bool> = Vec::new();
    let mut extensions: Vec<Extensions> = Vec::new();
    let mut i: usize = 0;
    while i < catalog.themes.len()
        invariant
            i <= catalog.themes@.len(),
            versioned@ == versions(catalog@.themes).take(i as int),
            extensions@.len() == i,
            forall|k: int|
                0 <= k < i ==> may_extend_theme(
                    catalog.themes@[k]@,
                    (#[trigger] extensions@[k])@,
                ),
        decreases catalog.themes@.len() - i,
    {
        versioned.push(is_semantic_version(&catalog.themes[i].version));
        extensions.push(extensions_of(&catalog.themes[i]));
        i += 1;
        assert(versioned@ =~= versions(catalog@.themes).take(i as int));
    }
    assert(versioned@ =~= versions(catalog@.themes));
    let ghost known = extensions_models(extensions@);
    assert forall|k: int| 0 <= k < catalog@.themes.len() implies may_extend_theme(
        #[trigger] catalog@.themes[k],
        known[k],
    ) by {
        assert(known[k] == extensions@[k]@);
    }
    assert(may_extend_all(catalog@.themes, known));
    proof {
        if forall|k: int|
            0 <= k < catalog@.themes.len() ==> plain_theme(#[trigger] catalog@.themes[k]) {
            plain_names_decide(catalog@.themes, known);
        }
    }
    assert forall|k: int| 0 <= k < catalog.themes@.len() implies (
    #[trigger] extensions@[k]).assets@.len() == catalog.themes@[k].assets@.len() by {
        assert(may_extend_theme(catalog@.themes[k], known[k]));
    }
    validate_catalog_entries(catalog, dated, &versioned, &extensions)
}

/// A file of the catalog that is sound: a path that the catalog allows, 1 byte to 20 MiB, and a
/// digest of 64 hexadecimal digits.
pub open spec fn sound_file(resource: ResourceModel, extension: Seq<char>) -> bool {
    &&& allowed_path(resource.path, extension)
    &&& 1 <= resource.size <= 20971520
    &&& resource.sha256.len() == 64
    &&& forall|i: int| 0 <= i < 64 ==> hexadecimal(#[trigger] resource.sha256[i])
}

/// A theme of the catalog that is sound, whatever themes stand beside it.
pub open spec fn sound_entry(
    theme: ThemeModel,
    versioned: bool,
    extensions: ExtensionsModel,
) -> bool {
    &&& catalog_id(theme.id)
    &&& versioned
    &&& 1 <= encode_utf8(theme.name).len() <= 80
    &&& encode_utf8(theme.description).len() <= 300
    &&& theme.category == "人物"@ || theme.category == "动漫"@ || theme.category == "游戏"@
        || theme.category == "风景"@ || theme.category == "极简"@ || theme.category
        == "节日"@ || theme.category == "其他"@
    &&& theme.variant == "light"@ || theme.variant == "dark"@
    &&& theme.manifest.path == "themes/"@ + theme.id + ".json"@
    &&& begins(theme.preview.path, "previews/"@)
    &&& 1 <= theme.assets.len() <= 4
    &&& sound_file(theme.manifest, extensions.manifest)
    &&& sound_file(theme.preview, extensions.preview)
    &&& exists|i: int| 0 <= i < theme.assets.len() && #[trigger] theme.assets[i] == theme.preview
    &&& forall|i: int|
        0 <= i < theme.assets.len() ==> sound_file(
            #[trigger] theme.assets[i],
            extensions.assets[i],
        ) && !begins(theme.assets[i].path, "themes/"@)
    &&& forall|i: int, j: int|
        0 <= i < j < theme.assets.len() ==> (#[trigger] theme.assets[i]).path != (
        #[trigger] theme.assets[j]).path
}

/// A catalog in which everything is sound and no two themes have the same identifier.
pub open spec fn sound_catalog(
    catalog: CatalogModel,
    dated: bool,
    versioned: Seq<bool>,
    extensions: Seq<ExtensionsModel>,
) -> bool {
    &&& catalog.schema_version == 2
    &&& 1 <= encode_utf8(catalog.name).len() <= 80
    &&& dated
    &&& 1 <= catalog.themes.len() <= 500
    &&& forall|i: int|
        0 <= i < catalog.themes.len() ==> sound_entry(
            #[trigger] catalog.themes[i],
            versioned[i],
            extensions[i],
        )
    &&& forall|i: int, j: int|
        0 <= i < j < catalog.themes.len() ==> (#[trigger] catalog.themes[i]).id != (
        #[trigger] catalog.themes[j]).id
}

proof fn file_passes(resource: ResourceModel, extension: Seq<char>)
    ensures
        sound_resource(resource, extension) <==> sound_file(resource, extension),
{
    digests_are(resource.sha256);
}

/// What the fields of a theme must be, in words.
proof fn entry_in_words(theme: ThemeModel, versioned: bool)
    ensures
        described(theme, versioned) <==> {
            &&& catalog_id(theme.id)
            &&& versioned
            &&& 1 <= encode_utf8(theme.name).len() <= 80
            &&& encode_utf8(theme.description).len() <= 300
            &&& theme.category == "人物"@ || theme.category == "动漫"@ || theme.category
                == "游戏"@ || theme.category == "风景"@ || theme.category == "极简"@
                || theme.category == "节日"@ || theme.category == "其他"@
            &&& theme.variant == "light"@ || theme.variant == "dark"@
        },
        theme.assets.contains(theme.preview) <==> exists|i: int|
            0 <= i < theme.assets.len() && #[trigger] theme.assets[i] == theme.preview,
{
    let categories = texts(CATEGORIES@);
    let variants = texts(VARIANTS@);
    assert(categories[0] == "人物"@ && categories[1] == "动漫"@ && categories[2] == "游戏"@
        && categories[3] == "风景"@ && categories[4] == "极简"@ && categories[5] == "节日"@
        && categories[6] == "其他"@);
    assert(variants[0] == "light"@ && variants[1] == "dark"@);
}

proof fn assets_pass(id: Seq<char>, assets: Seq<ResourceModel>, extensions: Seq<Seq<char>>)
    ensures
        assets_fault(id, assets, extensions) is None <==> {
            &&& forall|i: int|
                0 <= i < assets.len() ==> sound_file(#[trigger] assets[i], extensions[i])
                    && !begins(assets[i].path, "themes/"@)
            &&& forall|i: int, j: int|
                0 <= i < j < assets.len() ==> (#[trigger] assets[i]).path != (
                #[trigger] assets[j]).path
        },
    decreases assets.len(),
{
    if assets.len() > 0 {
        let earlier = assets.drop_last();
        assets_pass(id, earlier, extensions);
        file_passes(assets.last(), extensions[assets.len() - 1]);
        assert(forall|i: int| 0 <= i < earlier.len() ==> earlier[i] == assets[i]);
        assert(assets.last() == assets[assets.len() - 1]);
        if assets_fault(id, assets, extensions) is None {
            assert forall|i: int, j: int| 0 <= i < j < assets.len() implies (
            #[trigger] assets[i]).path != (#[trigger] assets[j]).path by {
                assert(earlier[i] == assets[i]);
                if j < earlier.len() {
                    assert(earlier[j] == assets[j]);
                }
            }
        }
    }
}

proof fn themes_pass(
    list: Seq<ThemeModel>,
    versioned: Seq<bool>,
    extensions: Seq<ExtensionsModel>,
)
    ensures
        themes_fault(list, versioned, extensions) is None <==> {
            &&& forall|i: int|
                0 <= i < list.len() ==> sound_entry(#[trigger] list[i], versioned[i], extensions[i])
            &&& forall|i: int, j: int|
                0 <= i < j < list.len() ==> (#[trigger] list[i]).id != (#[trigger] list[j]).id
        },
    decreases list.len(),
{
    if list.len() > 0 {
        let earlier = list.drop_last();
        let last = list.last();
        themes_pass(earlier, versioned, extensions);
        assets_pass(last.id, last.assets, extensions[list.len() - 1].assets);
        file_passes(last.manifest, extensions[list.len() - 1].manifest);
        file_passes(last.preview, extensions[list.len() - 1].preview);
        entry_in_words(last, versioned[list.len() - 1]);
        assert(forall|i: int| 0 <= i < earlier.len() ==> earlier[i] == list[i]);
        assert(last == list[list.len() - 1]);
        if themes_fault(list, versioned, extensions) is None {
            assert forall|i: int| 0 <= i < list.len() implies sound_entry(
                #[trigger] list[i],
                versioned[i],
                extensions[i],
            ) by {
                if i < earlier.len() {
                    assert(earlier[i] == list[i]);
                }
            }
            assert forall|i: int, j: int| 0 <= i < j < list.len() implies (#[trigger] list[i]).id
                != (#[trigger] list[j]).id by {
                assert(earlier[i] == list[i]);
                if j < earlier.len() {
                    assert(earlier[j] == list[j]);
                }
            }
        }
    }
}

/// The catalog is accepted exactly when everything in it is sound and no two themes have the
/// same identifier.
pub proof fn accepted_catalogs(
    catalog: CatalogModel,
    dated: bool,
    versioned: Seq<bool>,
    extensions: Seq<ExtensionsModel>,
)
    ensures
        catalog_fault(catalog, dated, versioned, extensions) is None <==> sound_catalog(
            catalog,
            dated,
            versioned,
            extensions,
        ),
{
    themes_pass(catalog.themes, versioned, extensions);
}

/// The first theme with that identifier in a list.
pub open spec fn theme_with(list: Seq<ThemeModel>, id: Seq<char>) -> Option<ThemeModel>
    decreases list.len(),
{
    if list.len() == 0 {
        None
    } else if list[0].id == id {
        Some(list[0])
    } else {
        theme_with(list.skip(1), id)
    }
}

proof fn theme_at(list: Seq<ThemeModel>, id: Seq<char>, k: int)
    requires
        0 <= k < list.len(),
        list[k].id == id,
        forall|j: int| 0 <= j < k ==> (#[trigger] list[j]).id != id,
    ensures
        theme_with(list, id) == Some(list[k]),
    decreases k,
{
    if k > 0 {
        assert(list[0].id != id);
        let rest = list.skip(1);
        assert forall|j: int| 0 <= j < k - 1 implies (#[trigger] rest[j]).id != id by {
            assert(rest[j] == list[j + 1]);
        }
        theme_at(rest, id, k - 1);
    }
}

proof fn theme_nowhere(list: Seq<ThemeModel>, id: Seq<char>)
    requires
        forall|j: int| 0 <= j < list.len() ==> (#[trigger] list[j]).id != id,
    ensures
        theme_with(list, id) is None,
    decreases list.len(),
{
    if list.len() > 0 {
        assert(list[0].id != id);
        let rest = list.skip(1);
        assert forall|j: int| 0 <= j < rest.len() implies (#[trigger] rest[j]).id != id by {
            assert(rest[j] == list[j + 1]);
        }
        theme_nowhere(rest, id);
    }
}

/// A theme is found by its identifier wherever it stands in the catalog: of several with that
/// identifier the first, and none only where no theme at any place has it.
pub proof fn themes_are_found(list: Seq<ThemeModel>, id: Seq<char>)
    ensures
        theme_with(list, id) is None <==> forall|i: int|
            0 <= i < list.len() ==> (#[trigger] list[i]).id != id,
        forall|i: int|
            0 <= i < list.len() && (#[trigger] list[i]).id == id ==> theme_with(list, id) is Some,
        theme_with(list, id) matches Some(theme) ==> exists|k: int|
            {
                &&& 0 <= k < list.len()
                &&& #[trigger] list[k] == theme
                &&& theme.id == id
                &&& forall|j: int| 0 <= j < k ==> (#[trigger] list[j]).id != id
            },
{
    if forall|i: int| 0 <= i < list.len() ==> (#[trigger] list[i]).id != id {
        theme_nowhere(list, id);
    } else {
        let i = choose|i: int| 0 <= i < list.len() && (#[trigger] list[i]).id == id;
        let k = least_place(list, id, i);
        theme_at(list, id, k);
    }
}

/// The first place of a theme with that identifier.
proof fn least_place(list: Seq<ThemeModel>, id: Seq<char>, i: int) -> (k: int)
    requires
        0 <= i < list.len(),
        list[i].id == id,
    ensures
        0 <= k <= i,
        list[k].id == id,
        forall|j: int| 0 <= j < k ==> (#[trigger] list[j]).id != id,
    decreases i,
{
    if exists|j: int| 0 <= j < i && (#[trigger] list[j]).id == id {
        least_place(list, id, choose|j: int| 0 <= j < i && (#[trigger] list[j]).id == id)
    } else {
        i
    }
}

/// What a theme that may be missing is.
pub open spec fn maybe_theme(theme: Option<&RemoteTheme>) -> Option<ThemeModel> {
    match theme {
        Some(theme) => Some(theme@),
        None => None,
    }
}

/// The theme of the catalog with that identifier.
pub fn find_theme<'a>(catalog: &'a RemoteCatalog, id: &str) -> (r: Option<&'a RemoteTheme>)
    ensures
        maybe_theme(r) == theme_with(catalog@.themes, id@),
{
    let ghost all = themes(catalog.themes@);
    let mut i: usize = 0;
    assert(all.skip(0) =~= all);
    while i < catalog.themes.len()
        invariant
            i <= catalog.themes@.len(),
            all == themes(catalog.themes@),
            theme_with(all, id@) == theme_with(all.skip(i as int), id@),
        decreases catalog.themes@.len() - i,
    {
        assert(all.skip(i as int)[0] == catalog.themes@[i as int]@);
        assert(all.skip(i as int).skip(1) =~= all.skip(i + 1));
        if same(&catalog.themes[i].id, id) {
            return Some(&catalog.themes[i]);
        }
        i += 1;
    }
    None
}

} // verus!
