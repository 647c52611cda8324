use codex_skin::assets::{read_image, validate_asset_path, Image, Step};
use codex_skin::json::{read_json, Json};
use codex_skin::theme::{validate_manifest, validate_theme};

const ACTION: &str = r#"{"title":"t","prompt":"p"}"#;

fn manifest(theme: &str, home: &str) -> String {
    format!(
        r##"{{"schemaVersion":1,"version":"1.2.3","displayName":"Example","codeThemeId":"example-theme",
        "category":"极简","description":"d","author":"a","variant":"dark",
        "previewImage":"../previews/example.png",
        "theme":{{"accent":"#112233","ink":"#445566","surface":"#778899"{theme}}},
        "home":{{"brand":"b","title":"t","quickActions":[{ACTION},{ACTION},{ACTION},{ACTION}]{home}}}}}"##
    )
}

fn sound() -> Image {
    Image::Found(10, Ok((100, 100)))
}

fn verdict(document: &str, images: Vec<Image>) -> Step {
    validate_theme(&document.as_bytes().to_vec(), "example-theme", &images)
}

fn complaint(document: &str) -> String {
    let images = vec![sound(), sound(), sound(), sound(), sound(), sound()];
    match verdict(document, images) {
        Step::Finished(Err(error)) => error.message(),
        other => panic!("{other:?}"),
    }
}

fn accepted(document: &str) -> bool {
    let images = vec![sound(), sound(), sound(), sound(), sound(), sound()];
    matches!(verdict(document, images), Step::Finished(Ok(())))
}

#[test]
fn a_plain_theme_asks_for_its_preview() {
    let document = manifest("", "");
    match verdict(&document, vec![]) {
        Step::Read(request) => {
            assert_eq!(request.relative, "../previews/example.png");
            assert_eq!(request.directory, "previews");
        }
        other => panic!("{other:?}"),
    }
    assert!(matches!(
        verdict(&document, vec![sound()]),
        Step::Finished(Ok(()))
    ));
}

#[test]
fn images_are_asked_for_in_order() {
    let theme = r#","backgroundImage":"../backgrounds/b.jpg","logoImage":"../logos/l.png",
        "effects":{"overlay":{"image":"../effects/o.png","triggers":["task-start"]},
        "composerAccent":{"image":"..\\effects\\c.png","triggers":["message-send"]}}"#;
    let document = manifest(theme, r#","pet":{"image":"../pets/p.webp"}"#);
    let expected = [
        ("../previews/example.png", "previews"),
        ("../backgrounds/b.jpg", "backgrounds"),
        ("../logos/l.png", "logos"),
        ("../effects/o.png", "effects"),
        ("..\\effects\\c.png", "effects"),
        ("../pets/p.webp", "pets"),
    ];
    for (n, (relative, directory)) in expected.iter().enumerate() {
        match verdict(&document, (0..n).map(|_| sound()).collect()) {
            Step::Read(request) => {
                assert_eq!(request.relative, *relative);
                assert_eq!(request.directory, *directory);
            }
            other => panic!("{other:?}"),
        }
    }
    assert!(accepted(&document));
}

#[test]
fn a_verdict_stands_whatever_else_is_found() {
    let document = manifest(r#","contrast":101"#, "");
    for n in 0..3 {
        assert!(matches!(
            verdict(&document, (0..n).map(|_| sound()).collect()),
            Step::Finished(Err(_))
        ));
    }
}

#[test]
fn manifests_must_name_the_theme() {
    let plain = manifest("", "");
    let with = |from: &str, to: &str| complaint(&plain.replace(from, to));
    assert_eq!(with(r#""schemaVersion":1"#, r#""schemaVersion":2"#), "远程主题必须使用 schemaVersion 1：example-theme");
    assert_eq!(with("\"codeThemeId\":\"example-theme\"", "\"codeThemeId\":\"other\""), "主题 ID 与索引不一致：example-theme");
    assert_eq!(with("1.2.3", "1.2"), "主题版本无效：example-theme");
    assert_eq!(with("极简", "未知"), "主题分类无效：example-theme");
    assert_eq!(with("\"dark\"", "\"grey\""), "主题模式无效：example-theme");
    assert_eq!(with("\"author\":\"a\"", "\"author\":\"\""), "author 长度无效。");
    assert_eq!(with("\"author\":\"a\",", ""), "theme 缺少字段：author");
    assert_eq!(with("\"author\":\"a\"", "\"author\":\"a\",\"x\":1"), "theme 包含未知字段：x");
    assert_eq!(with("\"description\":\"d\"", "\"description\":1"), "description 必须是字符串。");
    match verdict("{", vec![]) {
        Step::Finished(Err(error)) => assert!(matches!(error, codex_skin::error::AppError::Json(_))),
        other => panic!("{other:?}"),
    }
}

#[test]
fn appearances_stay_within_bounds() {
    let with = |theme: &str| complaint(&manifest(theme, ""));
    assert_eq!(with(r#","fonts":{"ui":3}"#), "theme.fonts.ui 必须是字符串。");
    assert_eq!(with(r#","fonts":{"ui":"a;b"}"#), "主题字体配置无效。");
    assert_eq!(with(r#","fonts":{"x":"a"}"#), "theme.fonts 包含未知字段：x");
    assert_eq!(with(r#","semanticColors":{"skill":"red"}"#), "skill 颜色无效。");
    assert_eq!(with(r#","contrast":100.5"#), "theme.contrast 越界。");
    assert_eq!(with(r#","backgroundImageOpacity":2"#), "背景透明度越界。");
    assert_eq!(with(r#","backgroundImageBlur":-1"#), "背景模糊度越界。");
    assert_eq!(with(r#","backgroundPosition":"top""#), "背景定位值无效。");
    assert_eq!(with(r#","backgroundPosition":1"#), "背景定位值必须是字符串。");
    assert_eq!(with(r#","visualIntensity":1"#), "视觉强度必须是字符串。");
    assert_eq!(with(r#","visualIntensity":"loud""#), "视觉强度无效。");
    assert_eq!(with(r#","backgroundFocus":{"x":1}"#), "theme.backgroundFocus 缺少字段：y");
    assert_eq!(with(r#","backgroundFit":"cover""#), "theme.theme 包含未知字段：backgroundFit");
    assert!(accepted(&manifest(
        r##","fonts":{"ui":"Inter","code":"Fira Code"},"semanticColors":{"skill":"#000000","diffAdded":3},
        "contrast":100,"backgroundImageOpacity":0.5,"backgroundImageBlur":24,
        "backgroundPosition":"center 20%","backgroundFocus":{"x":0,"y":100},
        "visualIntensity":"clear","opaqueWindows":true"##,
        ""
    )));
    let bad = manifest("", "").replace("#112233", "#11223");
    assert_eq!(complaint(&bad), "accent 颜色无效。");
    let bad = manifest("", "").replace("#112233", "#1122334");
    assert_eq!(complaint(&bad), "accent 长度无效。");
}

#[test]
fn effects_stay_within_bounds() {
    let with = |effects: &str| complaint(&manifest(&format!(r#","effects":{effects}"#), ""));
    assert_eq!(with(r#"{"ambient":1}"#), "氛围特效必须是字符串。");
    assert_eq!(with(r#"{"ambient":"snow"}"#), "氛围特效无效。");
    assert_eq!(with(r#"{"intensity":1}"#), "特效强度必须是字符串。");
    assert_eq!(with(r#"{"intensity":"mild"}"#), "特效强度无效。");
    assert_eq!(with(r#"{"overlay":{"image":"x"}}"#), "theme.effects.overlay 缺少字段：triggers");
    assert_eq!(
        with(r#"{"overlay":{"image":"x","triggers":["task-start"],"widthPercent":9}}"#),
        "瞬时叠加素材宽度越界。"
    );
    assert_eq!(
        with(r#"{"overlay":{"image":"x","triggers":["task-start"],"widthPercent":"9"}}"#),
        "瞬时叠加素材宽度必须是整数。"
    );
    assert_eq!(
        with(r#"{"composerAccent":{"image":"x","triggers":["task-start"],"widthPx":241}}"#),
        "输入框装饰素材宽度越界。"
    );
    assert_eq!(
        with(r#"{"composerAccent":{"image":"x","triggers":["task-start"],"widthPx":1.5}}"#),
        "输入框装饰素材宽度必须是整数。"
    );
    assert_eq!(
        with(r#"{"overlay":{"image":"../logos/x.png","triggers":["task-start"]}}"#),
        "主题资源路径无效：../logos/x.png"
    );
}

#[test]
fn homes_have_four_actions() {
    let plain = manifest("", "");
    let with = |from: &str, to: &str| complaint(&plain.replace(from, to));
    assert_eq!(with(&format!("[{ACTION},"), "["), "quickActions 必须包含 4 项。");
    assert_eq!(with("\"quickActions\":[", "\"quickActions\":1,\"tags\":["), "quickActions 必须是数组。");
    assert_eq!(with("\"brand\":\"b\"", "\"brand\":\"\""), "brand 长度无效。");
    assert_eq!(
        with(&format!("[{ACTION}"), r#"[{"title":"t"}"#),
        "quickActions[] 缺少字段：prompt"
    );
    assert_eq!(complaint(&manifest("", r#","pet":{"alt":"x"}"#)), "pet 缺少字段：image");
    assert_eq!(
        complaint(&manifest("", r#","pet":{"image":"../logos/p.png"}"#)),
        "主题资源路径无效：../logos/p.png"
    );
}

#[test]
fn homes_are_looked_at_after_the_images() {
    let document = manifest("", "").replace("\"brand\":\"b\"", "\"brand\":\"\"");
    assert!(matches!(verdict(&document, vec![]), Step::Read(_)));
    match verdict(&document, vec![Image::Outside]) {
        Step::Finished(Err(error)) => assert_eq!(
            error.message(),
            "主题资源越界或不存在：../previews/example.png"
        ),
        other => panic!("{other:?}"),
    }
}

#[test]
fn manifests_go_by_what_their_version_is() {
    let root = read_json(manifest("", "").as_bytes()).unwrap();
    let step = validate_manifest(&root, "example-theme", false, &vec![sound()]);
    match step {
        Step::Finished(Err(error)) => assert_eq!(error.message(), "主题版本无效：example-theme"),
        other => panic!("{other:?}"),
    }
    assert!(matches!(
        validate_manifest(&root, "example-theme", true, &vec![sound()]),
        Step::Finished(Ok(()))
    ));
    assert!(matches!(
        validate_manifest(&Json::Null, "example-theme", true, &vec![]),
        Step::Finished(Err(_))
    ));
}

fn png(width: u32, height: u32) -> Vec<u8> {
    let mut bytes = std::io::Cursor::new(Vec::new());
    image::DynamicImage::new_rgb8(width, height)
        .write_to(&mut bytes, image::ImageFormat::Png)
        .unwrap();
    bytes.into_inner()
}

#[test]
fn images_are_decoded() {
    let bytes = png(3, 2);
    match read_image(&bytes) {
        Image::Found(length, Ok(size)) => {
            assert_eq!(length, bytes.len());
            assert_eq!(size, (3, 2));
        }
        other => panic!("{other:?}"),
    }
    assert!(matches!(read_image(&vec![1, 2, 3]), Image::Found(3, Err(_))));
}

#[test]
fn images_have_limits() {
    let complaint = |directory: &str, image: Image| {
        let relative = format!("../{directory}/x.png");
        validate_asset_path(&relative, directory, &image)
            .unwrap_err()
            .message()
    };
    assert_eq!(complaint("logos", Image::Failed("gone".into())), "gone");
    assert_eq!(
        complaint("logos", Image::Found(1, Err("no".into()))),
        "主题图片无法解码：no"
    );
    let mib = 1024 * 1024;
    for (directory, bytes, pixels) in [
        ("previews", 2 * mib, 2400),
        ("backgrounds", 16 * mib, 8192),
        ("effects", 4 * mib, 4096),
        ("logos", 20 * mib, 8192),
    ] {
        let relative = format!("../{directory}/x.png");
        let at_most = Image::Found(bytes, Ok((pixels, pixels)));
        assert!(validate_asset_path(&relative, directory, &at_most).is_ok());
        let text = format!("主题图片超过 {directory} 的大小或尺寸限制：{relative}");
        assert_eq!(complaint(directory, Image::Found(bytes + 1, Ok((1, 1)))), text);
        assert_eq!(complaint(directory, Image::Found(1, Ok((pixels + 1, 1)))), text);
        assert_eq!(complaint(directory, Image::Found(1, Ok((1, pixels + 1)))), text);
    }
}
