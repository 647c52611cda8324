use codex_skin::rules::{
    allowed, allowed_by, extension_in, is_asset_path, is_digest, valid_catalog_id, valid_library_id, validate_color,
    validate_font_stack,
};

#[test]
fn rejects_unsafe_font_stacks() {
    assert!(validate_font_stack("Inter, system-ui, sans-serif").is_ok());
    assert!(validate_font_stack("\"Microsoft YaHei UI\", sans-serif").is_ok());
    assert!(validate_font_stack("sans-serif; } body { display: none").is_err());
    assert!(validate_font_stack("url(https://example.com/font.woff)").is_err());
    assert!(validate_font_stack("\"").is_err());
}

#[test]
fn font_stacks_at_the_edges() {
    assert!(validate_font_stack("微软雅黑, 'Noto Sans SC'").is_ok());
    assert!(validate_font_stack("  Inter\u{2003}, sans-serif\t").is_ok());
    assert!(validate_font_stack("").is_err());
    assert!(validate_font_stack("Inter,").is_err());
    assert!(validate_font_stack("Inter, , serif").is_err());
    assert!(validate_font_stack("\"\"").is_err());
    assert!(validate_font_stack("'a\"b'").is_err());
    assert!(validate_font_stack("\"Inter'").is_err());
    assert!(validate_font_stack("\"a\"b\"").is_err());
    assert!(validate_font_stack("'Inter', a'b").is_err());
    assert!(validate_font_stack("Fira_Code-2.0").is_ok());
    assert!(validate_font_stack("a/b").is_err());
    assert!(validate_font_stack(&"a".repeat(300)).is_ok());
    assert!(validate_font_stack(&"a".repeat(301)).is_err());
    assert_eq!(
        validate_font_stack("a;b").unwrap_err().message(),
        "主题字体配置无效。"
    );
}

#[test]
fn catalog_identifiers() {
    assert!(valid_catalog_id("example-theme"));
    assert!(valid_catalog_id("a1"));
    assert!(valid_catalog_id(&"a".repeat(64)));
    assert!(!valid_catalog_id(&"a".repeat(65)));
    assert!(!valid_catalog_id("a"));
    assert!(!valid_catalog_id(""));
    assert!(!valid_catalog_id("-ab"));
    assert!(!valid_catalog_id("ab-"));
    assert!(!valid_catalog_id("Ab"));
    assert!(!valid_catalog_id("a.b"));
    assert!(!valid_catalog_id("aé"));
}

#[test]
fn library_identifiers() {
    assert!(valid_library_id("example.theme-1"));
    assert!(valid_library_id(&"a".repeat(128)));
    assert!(!valid_library_id(&"a".repeat(129)));
    assert!(!valid_library_id("a..b"));
    assert!(!valid_library_id("ab."));
    assert!(!valid_library_id("ab-"));
    assert!(!valid_library_id(".ab"));
    assert!(!valid_library_id("a/b"));
    assert!(!valid_library_id(".."));
}

#[test]
fn colors() {
    assert!(validate_color("#12abEF", "accent").is_ok());
    assert_eq!(
        validate_color("12abEF0", "accent").unwrap_err().message(),
        "accent 颜色无效。"
    );
    assert!(validate_color("#12abE", "ink").is_err());
    assert!(validate_color("#12abEG", "ink").is_err());
    assert!(validate_color("#12ab\u{ff21}F", "ink").is_err());
}

#[test]
fn digests() {
    assert!(is_digest(&"a".repeat(64)));
    assert!(is_digest(&"AF09".repeat(16)));
    assert!(!is_digest(&"a".repeat(63)));
    assert!(!is_digest(&"g".repeat(64)));
}

#[test]
fn paths_of_the_catalog() {
    assert!(allowed("theme-repository.json"));
    assert!(allowed("themes/example.json"));
    assert!(allowed("schemas/theme-v1.schema.JSON"));
    assert!(allowed("previews/a.png"));
    assert!(allowed("backgrounds/a.b.JPEG"));
    assert!(allowed("logos/a.webp"));
    assert!(allowed("pets/a.avif"));
    assert!(!allowed("previews/a.json"));
    assert!(!allowed("themes/a.png"));
    assert!(!allowed("themes/a/b.json"));
    assert!(!allowed("themes/.json"));
    assert!(!allowed("effects/a.png"));
    assert!(!allowed("../themes/a.json"));
    assert!(!allowed("themes"));
    assert!(!allowed(""));
}

#[test]
fn paths_of_assets() {
    assert!(is_asset_path("../previews/a.png", "previews"));
    assert!(is_asset_path("..\\previews\\a.png", "previews"));
    assert!(!is_asset_path("../previews/a.png", "logos"));
    assert!(!is_asset_path("../previews/a/b.png", "previews"));
    assert!(!is_asset_path("../previews/../x.png", "previews"));
    assert!(!is_asset_path("previews/a.png", "previews"));
    assert!(!is_asset_path("/etc/passwd", "previews"));
}

#[test]
fn paths_go_by_the_extension_of_their_file() {
    assert!(allowed_by("previews/x.png\\", "png"));
    assert!(!allowed_by("previews/a\\.png", ""));
    assert!(allowed_by("themes/a", "JSON"));
    assert!(!allowed_by("themes/a.json", "png"));
    assert!(!allowed_by("previews/a/b.png", "png"));
    assert!(allowed_by("theme-repository.json", ""));
    assert_eq!(extension_in("previews/a.b.PNG"), "PNG");
    assert_eq!(extension_in("previews/.png"), "");
    assert_eq!(extension_in("previews/.."), "");
    assert_eq!(extension_in("previews/a."), "");
    assert_eq!(extension_in("previews"), "");
    let backslash_is_a_letter = std::path::MAIN_SEPARATOR == '/';
    assert_eq!(allowed("previews/a\\.png"), backslash_is_a_letter);
    assert_eq!(allowed("previews/x.png\\"), !backslash_is_a_letter);
}

#[test]
fn white_space_round_fonts_is_that_of_unicode() {
    for space in [
        '\t', '\n', '\u{b}', '\u{c}', '\r', ' ', '\u{85}', '\u{a0}', '\u{1680}', '\u{2000}',
        '\u{200a}', '\u{2028}', '\u{2029}', '\u{202f}', '\u{205f}', '\u{3000}',
    ] {
        assert!(validate_font_stack(&format!("{space}Inter{space},{space}serif")).is_ok());
    }
    assert!(validate_font_stack("\u{200b}Inter").is_err());
    assert!(validate_font_stack("\u{180e}Inter").is_err());
    assert!(validate_font_stack("\u{feff}Inter").is_err());
}
