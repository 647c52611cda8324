//! What holds of the catalog of remote themes as a whole.

use crate::catalog::{
    accepted_catalogs, all_plain_extensions, assets_fault, catalog_fault, extensions_models, judged,
    may_extend_all, may_extend_theme, maybe_theme, plain_theme, resource_fault, sound_catalog,
    sound_file, theme_fault, themes, themes_fault, versions, CatalogModel, Extensions,
    ExtensionsModel, RemoteCatalog, RemoteResource, RemoteTheme, ResourceModel, ThemeModel,
};
use crate::error::ErrorModel;
use crate::outside::{rfc3339, semantic_version};
use crate::rules::{extension_text, file_part, may_extend};
use crate::rules_laws::digests_are;
use crate::text::begins;
use crate::theme_laws::{first_of, refused_unless};
use vstd::prelude::*;
use vstd::utf8::encode_utf8;

verus! {

/// What is checked of a catalog is what it holds: each field, each theme and each file, in order.
pub proof fn catalogs_are_what_they_hold(
    catalog: RemoteCatalog,
    theme: RemoteTheme,
    resource: RemoteResource,
    i: int,
)
    ensures
        catalog@.schema_version == catalog.schema_version,
        catalog@.name == catalog.name@,
        catalog@.revision == catalog.revision@,
        catalog@.themes.len() == catalog.themes@.len(),
        0 <= i < catalog.themes@.len() ==> catalog@.themes[i] == catalog.themes@[i]@,
        theme@.id == theme.id@,
        theme@.version == theme.version@,
        theme@.name == theme.name@,
        theme@.description == theme.description@,
        theme@.category == theme.category@,
        theme@.variant == theme.variant@,
        theme@.manifest == theme.manifest@,
        theme@.preview == theme.preview@,
        theme@.assets.len() == theme.assets@.len(),
        0 <= i < theme.assets@.len() ==> theme@.assets[i] == theme.assets@[i]@,
        resource@.path == resource.path@,
        resource@.sha256 == resource.sha256@,
        resource@.size == resource.size,
{
}

/// A file of the catalog passes exactly where its path is allowed, it has 1 byte to 20 MiB and its
/// digest is one; else the error names its path.
pub proof fn files_are_checked(resource: ResourceModel, extension: Seq<char>)
    ensures
        resource_fault(resource, extension) == (if sound_file(resource, extension) {
            None
        } else {
            Some(ErrorModel::Message("远程主题资源描述无效："@ + resource.path))
        }),
{
    digests_are(resource.sha256);
}

/// Whether a theme's own fields are as they should be: its identifier, version, names, category
/// and variant.
pub open spec fn fields_in_order(theme: ThemeModel, versioned: bool) -> bool {
    &&& crate::rules::catalog_id(theme.id)
    &&& versioned
    &&& 1 <= encode_utf8(theme.name).len() <= 80
    &&& encode_utf8(theme.description).len() <= 300
    &&& seq![
        "人物"@,
        "动漫"@,
        "游戏"@,
        "风景"@,
        "极简"@,
        "节日"@,
        "其他"@,
    ].contains(theme.category)
    &&& theme.variant == "light"@ || theme.variant == "dark"@
}

/// A theme of the catalog is refused for the first thing that is wrong with it: its fields or an
/// identifier that came before, its manifest, its preview, where they lie and how many assets it
/// has, its assets, or a preview that is none of them.
pub proof fn entries_are_checked_in_order(
    earlier: Seq<ThemeModel>,
    theme: ThemeModel,
    versioned: bool,
    extensions: ExtensionsModel,
)
    ensures
        first_of(
            seq![
                refused_unless(
                    fields_in_order(theme, versioned) && forall|i: int|
                        0 <= i < earlier.len() ==> (#[trigger] earlier[i]).id != theme.id,
                    "远程主题条目无效："@ + theme.id,
                ),
                resource_fault(theme.manifest, extensions.manifest),
                resource_fault(theme.preview, extensions.preview),
                refused_unless(
                    theme.manifest.path == "themes/"@ + theme.id + ".json"@ && begins(
                        theme.preview.path,
                        "previews/"@,
                    ) && 1 <= theme.assets.len() <= 4,
                    "远程主题资源索引无效："@ + theme.id,
                ),
                assets_fault(theme.id, theme.assets, extensions.assets),
                refused_unless(
                    exists|i: int|
                        0 <= i < theme.assets.len() && #[trigger] theme.assets[i] == theme.preview,
                    "远程主题缺少匹配的预览资源："@ + theme.id,
                ),
            ],
            theme_fault(earlier, theme, versioned, extensions),
        ),
{
    let faults = seq![
        refused_unless(
            fields_in_order(theme, versioned) && forall|i: int|
                0 <= i < earlier.len() ==> (#[trigger] earlier[i]).id != theme.id,
            "远程主题条目无效："@ + theme.id,
        ),
        resource_fault(theme.manifest, extensions.manifest),
        resource_fault(theme.preview, extensions.preview),
        refused_unless(
            theme.manifest.path == "themes/"@ + theme.id + ".json"@ && begins(
                theme.preview.path,
                "previews/"@,
            ) && 1 <= theme.assets.len() <= 4,
            "远程主题资源索引无效："@ + theme.id,
        ),
        assets_fault(theme.id, theme.assets, extensions.assets),
        refused_unless(
            exists|i: int|
                0 <= i < theme.assets.len() && #[trigger] theme.assets[i] == theme.preview,
            "远程主题缺少匹配的预览资源："@ + theme.id,
        ),
    ];
    let categories = crate::text::texts(crate::theme::CATEGORIES@);
    assert(categories =~= seq![
        "人物"@,
        "动漫"@,
        "游戏"@,
        "风景"@,
        "极简"@,
        "节日"@,
        "其他"@,
    ]);
    let variants = crate::text::texts(crate::theme::VARIANTS@);
    assert(variants[0] == "light"@ && variants[1] == "dark"@);
    assert(crate::catalog::described(theme, versioned) <==> fields_in_order(theme, versioned));
    assert(faults[0] == faults[0] && faults[1] == faults[1] && faults[2] == faults[2] && faults[3]
        == faults[3] && faults[4] == faults[4] && faults[5] == faults[5]);
}

/// The assets of a theme are refused for the first of them that is no sound file, or repeats the
/// path of one before it, or lies among the manifests.
pub proof fn the_first_asset_decides(
    id: Seq<char>,
    assets: Seq<ResourceModel>,
    extensions: Seq<Seq<char>>,
    k: int,
)
    requires
        0 <= k < assets.len(),
        forall|i: int|
            0 <= i < k ==> sound_file(#[trigger] assets[i], extensions[i]) && !begins(
                assets[i].path,
                "themes/"@,
            ),
        forall|i: int, j: int|
            0 <= i < j < k ==> (#[trigger] assets[i]).path != (#[trigger] assets[j]).path,
    ensures
        !sound_file(assets[k], extensions[k]) ==> assets_fault(id, assets, extensions) == Some(
            ErrorModel::Message("远程主题资源描述无效："@ + assets[k].path),
        ),
        sound_file(assets[k], extensions[k]) && (begins(assets[k].path, "themes/"@) || exists|
            i: int,
        |
            0 <= i < k && (#[trigger] assets[i]).path == assets[k].path) ==> assets_fault(
            id,
            assets,
            extensions,
        ) == Some(ErrorModel::Message("远程主题包含重复或无效资源："@ + id)),
    decreases assets.len(),
{
    let earlier = assets.drop_last();
    assert(forall|i: int| 0 <= i < earlier.len() ==> earlier[i] == assets[i]);
    if k < assets.len() - 1 {
        the_first_asset_decides(id, earlier, extensions, k);
    } else {
        assets_before_pass(id, earlier, extensions);
        files_are_checked(assets[k], extensions[k]);
        if exists|i: int| 0 <= i < k && (#[trigger] assets[i]).path == assets[k].path {
            let i = choose|i: int| 0 <= i < k && (#[trigger] assets[i]).path == assets[k].path;
            assert(earlier[i].path == assets[k].path);
        }
    }
}

proof fn assets_before_pass(id: Seq<char>, assets: Seq<ResourceModel>, extensions: Seq<Seq<char>>)
    requires
        forall|i: int|
            0 <= i < assets.len() ==> sound_file(#[trigger] assets[i], extensions[i]) && !begins(
                assets[i].path,
                "themes/"@,
            ),
        forall|i: int, j: int|
            0 <= i < j < assets.len() ==> (#[trigger] assets[i]).path != (#[trigger] assets[j]).path,
    ensures
        assets_fault(id, assets, extensions) is None,
    decreases assets.len(),
{
    if assets.len() > 0 {
        let earlier = assets.drop_last();
        assert(forall|i: int| 0 <= i < earlier.len() ==> earlier[i] == assets[i]);
        assets_before_pass(id, earlier, extensions);
        let last = assets[assets.len() - 1];
        assert(sound_file(last, extensions[assets.len() - 1]));
        files_are_checked(last, extensions[assets.len() - 1]);
        assert(resource_fault(last, extensions[assets.len() - 1]) is None);
        assert forall|i: int| 0 <= i < earlier.len() implies (#[trigger] earlier[i]).path
            != last.path by {
            assert(assets[i].path != assets[assets.len() - 1].path);
        }
    }
}

/// A catalog is refused for its description, or else for the first of its themes that is refused.
pub proof fn the_first_theme_decides(
    catalog: CatalogModel,
    dated: bool,
    versioned: Seq<bool>,
    extensions: Seq<ExtensionsModel>,
    k: int,
)
    ensures
        !(catalog.schema_version == 2 && 1 <= encode_utf8(catalog.name).len() <= 80 && dated && 1
            <= catalog.themes.len() <= 500) ==> catalog_fault(
            catalog,
            dated,
            versioned,
            extensions,
        ) == Some(ErrorModel::Message("远程主题目录元数据无效。"@)),
        catalog.schema_version == 2 && 1 <= encode_utf8(catalog.name).len() <= 80 && dated && 1
            <= catalog.themes.len() <= 500 && 0 <= k < catalog.themes.len() && (forall|i: int|
            0 <= i < k ==> theme_fault(
                catalog.themes.take(i),
                #[trigger] catalog.themes[i],
                versioned[i],
                extensions[i],
            ) is None) && theme_fault(
            catalog.themes.take(k),
            catalog.themes[k],
            versioned[k],
            extensions[k],
        ) is Some ==> catalog_fault(catalog, dated, versioned, extensions) == theme_fault(
            catalog.themes.take(k),
            catalog.themes[k],
            versioned[k],
            extensions[k],
        ),
{
    if 0 <= k < catalog.themes.len() && (forall|i: int|
        0 <= i < k ==> theme_fault(
            catalog.themes.take(i),
            #[trigger] catalog.themes[i],
            versioned[i],
            extensions[i],
        ) is None) {
        first_fault_at(catalog.themes, versioned, extensions, k);
    }
}

proof fn first_fault_at(
    list: Seq<ThemeModel>,
    versioned: Seq<bool>,
    extensions: Seq<ExtensionsModel>,
    k: int,
)
    requires
        0 <= k < list.len(),
        forall|i: int|
            0 <= i < k ==> theme_fault(
                list.take(i),
                #[trigger] list[i],
                versioned[i],
                extensions[i],
            ) is None,
    ensures
        themes_fault(list.take(k), versioned, extensions) is None,
        theme_fault(list.take(k), list[k], versioned[k], extensions[k]) is Some ==> themes_fault(
            list,
            versioned,
            extensions,
        ) == theme_fault(list.take(k), list[k], versioned[k], extensions[k]),
    decreases list.len(),
{
    let earlier = list.drop_last();
    if k < list.len() - 1 {
        assert forall|i: int| 0 <= i < k implies theme_fault(
            earlier.take(i),
            #[trigger] earlier[i],
            versioned[i],
            extensions[i],
        ) is None by {
            assert(earlier.take(i) =~= list.take(i));
            assert(earlier[i] == list[i]);
        }
        first_fault_at(earlier, versioned, extensions, k);
        assert(earlier.take(k) =~= list.take(k));
        assert(earlier[k] == list[k]);
    } else {
        assert(list.take(k) =~= earlier);
        all_pass(earlier, list, versioned, extensions);
    }
}

proof fn all_pass(
    part: Seq<ThemeModel>,
    list: Seq<ThemeModel>,
    versioned: Seq<bool>,
    extensions: Seq<ExtensionsModel>,
)
    requires
        part.len() <= list.len(),
        part == list.take(part.len() as int),
        forall|i: int|
            0 <= i < part.len() ==> theme_fault(
                list.take(i),
                #[trigger] list[i],
                versioned[i],
                extensions[i],
            ) is None,
    ensures
        themes_fault(part, versioned, extensions) is None,
    decreases part.len(),
{
    if part.len() > 0 {
        let shorter = part.drop_last();
        let n = part.len() - 1;
        assert(shorter =~= list.take(n));
        assert(part.last() == list[n]);
        assert(theme_fault(list.take(n), list[n], versioned[n], extensions[n]) is None);
        all_pass(shorter, list, versioned, extensions);
    }
}

/// Whether the file that a path names has a name that every system reads alike: it holds no slash,
/// no backslash and no colon.
pub open spec fn readable(path: Seq<char>) -> bool {
    let name = file_part(path);
    !name.contains('/') && !name.contains('\\') && !name.contains(':')
}

/// Whether all files of a theme have such names.
pub open spec fn all_readable(theme: ThemeModel) -> bool {
    &&& readable(theme.manifest.path)
    &&& readable(theme.preview.path)
    &&& forall|k: int| 0 <= k < theme.assets.len() ==> readable((#[trigger] theme.assets[k]).path)
}

/// A catalog whose files have plain names is accepted on every system exactly where everything in
/// it is sound: its revision a date, each theme's version a version number, and each file of a
/// kind that its directory holds, by what follows the last dot of its name.
pub proof fn plain_catalogs_are_judged_alike(catalog: CatalogModel, fault: Option<ErrorModel>)
    requires
        judged(catalog, fault),
        forall|i: int| 0 <= i < catalog.themes.len() ==> all_readable(#[trigger] catalog.themes[i]),
    ensures
        fault is None <==> sound_catalog(
            catalog,
            rfc3339(catalog.revision),
            Seq::new(catalog.themes.len(), |i: int| semantic_version(catalog.themes[i].version)),
            Seq::new(
                catalog.themes.len(),
                |i: int|
                    ExtensionsModel {
                        manifest: extension_text(file_part(catalog.themes[i].manifest.path)),
                        preview: extension_text(file_part(catalog.themes[i].preview.path)),
                        assets: Seq::new(
                            catalog.themes[i].assets.len(),
                            |k: int| extension_text(file_part(catalog.themes[i].assets[k].path)),
                        ),
                    },
            ),
        ),
{
    let known = Seq::new(
        catalog.themes.len(),
        |i: int| semantic_version(catalog.themes[i].version),
    );
    assert(versions(catalog.themes) =~= known);
    let extensions = Seq::new(
        catalog.themes.len(),
        |i: int|
            ExtensionsModel {
                manifest: extension_text(file_part(catalog.themes[i].manifest.path)),
                preview: extension_text(file_part(catalog.themes[i].preview.path)),
                assets: Seq::new(
                    catalog.themes[i].assets.len(),
                    |k: int| extension_text(file_part(catalog.themes[i].assets[k].path)),
                ),
            },
    );
    assert forall|i: int| 0 <= i < catalog.themes.len() implies all_plain_extensions(
        catalog.themes,
    )[i] == extensions[i] by {
        assert(all_plain_extensions(catalog.themes)[i].assets =~= extensions[i].assets);
    }
    assert(all_plain_extensions(catalog.themes) =~= extensions);
    assert forall|i: int| 0 <= i < catalog.themes.len() implies plain_theme(
        #[trigger] catalog.themes[i],
    ) by {
        assert(all_readable(catalog.themes[i]));
    }
    accepted_catalogs(catalog, rfc3339(catalog.revision), known, extensions);
}

/// Whatever the names of its files, a catalog is judged as sound or unsound by some reading of
/// their extensions, and refused where it is unsound by every reading.
pub proof fn catalogs_are_judged_by_a_reading(catalog: CatalogModel, fault: Option<ErrorModel>)
    requires
        judged(catalog, fault),
    ensures
        exists|extensions: Seq<ExtensionsModel>|
            {
                &&& extensions.len() == catalog.themes.len()
                &&& #[trigger] may_extend_all(catalog.themes, extensions)
                &&& fault is None <==> sound_catalog(
                    catalog,
                    rfc3339(catalog.revision),
                    Seq::new(
                        catalog.themes.len(),
                        |i: int| semantic_version(catalog.themes[i].version),
                    ),
                    extensions,
                )
            },
{
    let known = Seq::new(
        catalog.themes.len(),
        |i: int| semantic_version(catalog.themes[i].version),
    );
    assert(versions(catalog.themes) =~= known);
    let extensions = choose|extensions: Seq<ExtensionsModel>| #[trigger]
        may_extend_all(catalog.themes, extensions) && fault == catalog_fault(
            catalog,
            rfc3339(catalog.revision),
            versions(catalog.themes),
            extensions,
        );
    accepted_catalogs(catalog, rfc3339(catalog.revision), known, extensions);
    assert(may_extend_all(catalog.themes, extensions));
}

/// The extensions of the files of themes are read file by file, each from its own path.
pub proof fn extensions_are_read_one_by_one(
    list: Seq<ThemeModel>,
    extensions: Seq<ExtensionsModel>,
    i: int,
    k: int,
)
    requires
        may_extend_all(list, extensions),
        0 <= i < list.len(),
    ensures
        extensions.len() == list.len(),
        may_extend(list[i].manifest.path, extensions[i].manifest),
        may_extend(list[i].preview.path, extensions[i].preview),
        extensions[i].assets.len() == list[i].assets.len(),
        0 <= k < list[i].assets.len() ==> may_extend(
            list[i].assets[k].path,
            extensions[i].assets[k],
        ),
{
    assert(may_extend_theme(list[i], extensions[i]));
}

/// Extensions and themes that may be missing say what they hold.
pub proof fn extensions_are_what_they_hold(
    list: Seq<Extensions>,
    held: Extensions,
    theme: &RemoteTheme,
    i: int,
)
    ensures
        extensions_models(list).len() == list.len(),
        0 <= i < list.len() ==> extensions_models(list)[i] == list[i]@,
        held@.manifest == held.manifest@,
        held@.preview == held.preview@,
        held@.assets.len() == held.assets@.len(),
        0 <= i < held.assets@.len() ==> held@.assets[i] == held.assets@[i]@,
        maybe_theme(None) is None,
        maybe_theme(Some(theme)) == Some(theme@),
{
}

} // verus!
