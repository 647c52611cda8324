use codex_skin::catalog::{
    find_theme, validate_catalog_entries, validate_remote_catalog, validate_remote_resource,
    validate_resource_entry, Extensions, RemoteCatalog, RemoteResource, RemoteTheme,
};

fn remote_catalog_fixture() -> RemoteCatalog {
    let preview = RemoteResource {
        path: "previews/example-theme.png".into(),
        sha256: "a".repeat(64),
        size: 42,
    };
    RemoteCatalog {
        schema_version: 2,
        name: "Test Catalog".into(),
        revision: "2026-07-17T12:00:00Z".into(),
        themes: vec![RemoteTheme {
            id: "example-theme".into(),
            version: "1.0.0".into(),
            name: "Example".into(),
            description: "Example theme".into(),
            category: "极简".into(),
            variant: "light".into(),
            manifest: RemoteResource {
                path: "themes/example-theme.json".into(),
                sha256: "b".repeat(64),
                size: 128,
            },
            preview: preview.clone(),
            assets: vec![preview],
        }],
    }
}

fn complaint(catalog: &RemoteCatalog) -> String {
    validate_remote_catalog(catalog).unwrap_err().message()
}

#[test]
fn validates_content_addressed_remote_catalog() {
    let catalog = remote_catalog_fixture();
    validate_remote_catalog(&catalog).unwrap();
    let mut invalid = catalog.clone();
    invalid.themes[0].preview.sha256 = "c".repeat(64);
    assert!(validate_remote_catalog(&invalid).is_err());
    let mut duplicate = catalog;
    duplicate.themes.push(duplicate.themes[0].clone());
    assert!(validate_remote_catalog(&duplicate).is_err());
}

#[test]
fn catalogs_need_their_metadata() {
    let broken = "远程主题目录元数据无效。";
    let mut catalog = remote_catalog_fixture();
    catalog.schema_version = 1;
    assert_eq!(complaint(&catalog), broken);
    catalog = remote_catalog_fixture();
    catalog.name = String::new();
    assert_eq!(complaint(&catalog), broken);
    catalog.name = "字".repeat(27);
    assert_eq!(complaint(&catalog), broken);
    catalog.name = "字".repeat(26);
    validate_remote_catalog(&catalog).unwrap();
    catalog.revision = "yesterday".into();
    assert_eq!(complaint(&catalog), broken);
    catalog = remote_catalog_fixture();
    catalog.themes.clear();
    assert_eq!(complaint(&catalog), broken);
}

#[test]
fn catalogs_need_sound_entries() {
    let broken = "远程主题条目无效：example-theme";
    let mut catalog = remote_catalog_fixture();
    catalog.themes[0].version = "1.0".into();
    assert_eq!(complaint(&catalog), broken);
    catalog = remote_catalog_fixture();
    catalog.themes[0].category = "未知".into();
    assert_eq!(complaint(&catalog), broken);
    catalog = remote_catalog_fixture();
    catalog.themes[0].variant = "grey".into();
    assert_eq!(complaint(&catalog), broken);
    catalog = remote_catalog_fixture();
    catalog.themes[0].description = "d".repeat(301);
    assert_eq!(complaint(&catalog), broken);
    catalog = remote_catalog_fixture();
    catalog.themes[0].name = String::new();
    assert_eq!(complaint(&catalog), broken);
    catalog = remote_catalog_fixture();
    catalog.themes.push(catalog.themes[0].clone());
    assert_eq!(complaint(&catalog), broken);
    catalog = remote_catalog_fixture();
    catalog.themes[0].id = "Example".into();
    assert_eq!(complaint(&catalog), "远程主题条目无效：Example");
}

#[test]
fn catalogs_need_sound_files() {
    let mut catalog = remote_catalog_fixture();
    catalog.themes[0].manifest.path = "themes/other.json".into();
    assert_eq!(complaint(&catalog), "远程主题资源索引无效：example-theme");
    catalog = remote_catalog_fixture();
    catalog.themes[0].preview.path = "logos/example-theme.png".into();
    assert_eq!(complaint(&catalog), "远程主题资源索引无效：example-theme");
    catalog = remote_catalog_fixture();
    catalog.themes[0].assets.clear();
    assert_eq!(complaint(&catalog), "远程主题资源索引无效：example-theme");
    catalog = remote_catalog_fixture();
    let twice = catalog.themes[0].assets[0].clone();
    catalog.themes[0].assets.push(twice);
    assert_eq!(
        complaint(&catalog),
        "远程主题包含重复或无效资源：example-theme"
    );
    catalog = remote_catalog_fixture();
    let manifest = catalog.themes[0].manifest.clone();
    catalog.themes[0].assets.push(manifest);
    assert_eq!(
        complaint(&catalog),
        "远程主题包含重复或无效资源：example-theme"
    );
    catalog = remote_catalog_fixture();
    catalog.themes[0].assets[0].size = 43;
    assert_eq!(
        complaint(&catalog),
        "远程主题缺少匹配的预览资源：example-theme"
    );
    catalog = remote_catalog_fixture();
    catalog.themes[0].manifest.size = 0;
    assert_eq!(
        complaint(&catalog),
        "远程主题资源描述无效：themes/example-theme.json"
    );
}

#[test]
fn files_have_bounds() {
    let mut file = remote_catalog_fixture().themes[0].manifest.clone();
    file.size = 20 * 1024 * 1024;
    validate_remote_resource(&file).unwrap();
    file.size += 1;
    assert!(validate_remote_resource(&file).is_err());
    file.size = 1;
    file.sha256.pop();
    assert!(validate_remote_resource(&file).is_err());
    file.sha256.push('0');
    validate_remote_resource(&file).unwrap();
    assert!(validate_resource_entry(&file, "json").is_ok());
    assert_eq!(
        validate_resource_entry(&file, "txt").unwrap_err().message(),
        "远程主题资源描述无效：themes/example-theme.json"
    );
    file.path = "elsewhere/a.json".into();
    assert!(validate_remote_resource(&file).is_err());
}

#[test]
fn entries_go_by_what_their_versions_are() {
    let catalog = remote_catalog_fixture();
    let check = |dated: bool, versioned: bool, asset: &str| {
        let extensions = Extensions {
            manifest: "json".into(),
            preview: "png".into(),
            assets: vec![asset.into()],
        };
        validate_catalog_entries(&catalog, dated, &vec![versioned], &vec![extensions])
    };
    assert!(check(true, true, "png").is_ok());
    assert!(check(false, true, "png").is_err());
    assert_eq!(
        check(true, false, "png").unwrap_err().message(),
        "远程主题条目无效：example-theme"
    );
    assert_eq!(
        check(true, true, "").unwrap_err().message(),
        "远程主题资源描述无效：previews/example-theme.png"
    );
}

#[test]
fn themes_are_found_by_identifier() {
    let catalog = remote_catalog_fixture();
    assert_eq!(find_theme(&catalog, "example-theme").unwrap().name, "Example");
    assert!(find_theme(&catalog, "other").is_none());
}
