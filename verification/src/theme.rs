//! What a theme's manifest must look like, and which images it may name.

use crate::assets::{
    asset_models, check_assets, image_models, left, walk, AssetModel, AssetRequest, Image,
    ImageModel, Step, StepModel,
};
use crate::error::{broken, either, fault, AppError, ErrorModel};
use crate::json::{json_read, models, read_json, Json, JsonModel};
use crate::outside::{is_semantic_version, semantic_version};
use crate::rules::{
    catalog_id, color_fault, font_stack_fault, valid_catalog_id, validate_color,
    validate_font_stack,
};
use crate::schema::{
    choice_fault, closed_object, focus_fault, integer_fault, object_fault, optional_choice,
    optional_integer, optional_range, range_fault, required_text, text_fault, triggers_fault,
    validate_background_focus, validate_effect_triggers,
};
use crate::text::{join2, join3, one_of, same, texts};
use vstd::prelude::*;

verus! {

/// The members of a manifest.
pub const MANIFEST_FIELDS: [&'static str; 13] = [
    "$schema",
    "schemaVersion",
    "version",
    "displayName",
    "codeThemeId",
    "category",
    "description",
    "author",
    "variant",
    "previewImage",
    "theme",
    "home",
    "copy",
];

/// The members that a manifest must have.
pub const MANIFEST_REQUIRED: [&'static str; 11] = [
    "schemaVersion",
    "version",
    "displayName",
    "codeThemeId",
    "category",
    "description",
    "author",
    "variant",
    "previewImage",
    "theme",
    "home",
];

/// The categories of themes.
pub const CATEGORIES: [&'static str; 7] = ["人物", "动漫", "游戏", "风景", "极简", "节日", "其他"];

/// The variants of themes.
pub const VARIANTS: [&'static str; 2] = ["light", "dark"];

/// The members of a theme's appearance.
pub const THEME_FIELDS: [&'static str; 15] = [
    "accent",
    "contrast",
    "fonts",
    "ink",
    "opaqueWindows",
    "semanticColors",
    "surface",
    "backgroundImage",
    "backgroundPosition",
    "backgroundFocus",
    "visualIntensity",
    "effects",
    "logoImage",
    "backgroundImageOpacity",
    "backgroundImageBlur",
];

/// The colours that an appearance must have.
pub const THEME_REQUIRED: [&'static str; 3] = ["accent", "ink", "surface"];

/// The fonts of an appearance.
pub const FONT_FIELDS: [&'static str; 3] = ["ui", "code", "display"];

/// The colours with a meaning.
pub const SEMANTIC_FIELDS: [&'static str; 3] = ["diffAdded", "diffRemoved", "skill"];

/// Where a background may stand.
pub const POSITIONS: [&'static str; 8] = [
    "center",
    "center top",
    "center 20%",
    "center 30%",
    "center 40%",
    "center bottom",
    "left center",
    "right center",
];

/// How strong an appearance may be.
pub const INTENSITIES: [&'static str; 3] = ["clear", "balanced", "immersive"];

/// The members of the effects.
pub const EFFECT_FIELDS: [&'static str; 4] = ["ambient", "intensity", "overlay", "composerAccent"];

/// The ambient effects.
pub const AMBIENTS: [&'static str; 4] = ["none", "rain", "particles", "storm"];

/// How strong an effect may be.
pub const EFFECT_INTENSITIES: [&'static str; 3] = ["subtle", "balanced", "vivid"];

/// The members of an overlay.
pub const OVERLAY_FIELDS: [&'static str; 4] = ["image", "triggers", "position", "widthPercent"];

/// The members of an accent of the composer.
pub const ACCENT_FIELDS: [&'static str; 3] = ["image", "triggers", "widthPx"];

/// The members that an effect with an image must have.
pub const IMAGE_REQUIRED: [&'static str; 2] = ["image", "triggers"];

/// The members of the home screen.
pub const HOME_FIELDS: [&'static str; 11] = [
    "brand",
    "eyebrow",
    "badge",
    "title",
    "subtitle",
    "footerNote",
    "composerHint",
    "tags",
    "sidebarLabels",
    "quickActions",
    "pet",
];

/// The members that the home screen must have.
pub const HOME_REQUIRED: [&'static str; 3] = ["brand", "title", "quickActions"];

/// The members of a quick action.
pub const ACTION_FIELDS: [&'static str; 4] = ["icon", "title", "description", "prompt"];

/// The members that a quick action must have.
pub const ACTION_REQUIRED: [&'static str; 2] = ["title", "prompt"];

/// The members of a pet.
pub const PET_FIELDS: [&'static str; 3] = ["image", "alt", "size"];

/// The member that a pet must have.
pub const PET_REQUIRED: [&'static str; 1] = ["image"];

/// No member at all.
pub const NOTHING: [&'static str; 0] = [];

/// What keeps a condition from holding: the text, where it does not.
pub open spec fn unless(holds: bool, text: Seq<char>) -> Option<ErrorModel> {
    if holds {
        None
    } else {
        broken(text)
    }
}

/// Whether a member is a text that is one of the given ones.
pub open spec fn chosen(value: JsonModel, key: Seq<char>, choices: Seq<Seq<char>>) -> bool {
    value.text_member(key) is Some && choices.contains(value.text_member(key)->0)
}

/// What keeps a manifest from naming the theme: its identifier, version, names, category and
/// variant. `versioned` tells whether its version is a version number.
pub open spec fn identity_fault(root: JsonModel, id: Seq<char>, versioned: bool) -> Option<
    ErrorModel,
> {
    either(
        object_fault(root, texts(MANIFEST_FIELDS@), texts(MANIFEST_REQUIRED@), "theme"@),
        either(
            unless(
                root.unsigned_member("schemaVersion"@) == Some(1u64),
                "远程主题必须使用 schemaVersion 1："@ + id,
            ),
            either(
                text_fault(root, "codeThemeId"@, 64),
                either(
                    unless(
                        root.text_member("codeThemeId"@) == Some(id) && catalog_id(id),
                        "主题 ID 与索引不一致："@ + id,
                    ),
                    either(
                        text_fault(root, "version"@, 64),
                        either(unless(versioned, "主题版本无效："@ + id), names_fault(root, id)),
                    ),
                ),
            ),
        ),
    )
}

/// What keeps a manifest from naming the theme for its users.
pub open spec fn names_fault(root: JsonModel, id: Seq<char>) -> Option<ErrorModel> {
    either(
        text_fault(root, "displayName"@, 60),
        either(
            text_fault(root, "description"@, 120),
            either(
                text_fault(root, "author"@, 60),
                either(
                    text_fault(root, "category"@, 8),
                    either(
                        unless(
                            chosen(root, "category"@, texts(CATEGORIES@)),
                            "主题分类无效："@ + id,
                        ),
                        either(
                            text_fault(root, "variant"@, 8),
                            unless(
                                chosen(root, "variant"@, texts(VARIANTS@)),
                                "主题模式无效："@ + id,
                            ),
                        ),
                    ),
                ),
            ),
        ),
    )
}

fn check_names(root: &Json, id: &str) -> (r: Result<(), AppError>)
    ensures
        fault(r) == names_fault(root@, id@),
{
    required_text(root, "displayName", 60)?;
    required_text(root, "description", 120)?;
    required_text(root, "author", 60)?;
    if !one_of(required_text(root, "category", 8)?, &CATEGORIES) {
        return Err(AppError::Message(join2("主题分类无效：", id)));
    }
    if !one_of(required_text(root, "variant", 8)?, &VARIANTS) {
        return Err(AppError::Message(join2("主题模式无效：", id)));
    }
    Ok(())
}

/// Checks that a manifest names the theme. `versioned` tells whether its version is a version
/// number.
pub fn validate_identity(root: &Json, expected_id: &str, versioned: bool) -> (r: Result<
    (),
    AppError,
>)
    ensures
        fault(r) == identity_fault(root@, expected_id@, versioned),
{
    closed_object(root, &MANIFEST_FIELDS, &MANIFEST_REQUIRED, "theme")?;
    if root.unsigned_at("schemaVersion") != Some(1) {
        return Err(AppError::Message(join2("远程主题必须使用 schemaVersion 1：", expected_id)));
    }
    let id = required_text(root, "codeThemeId", 64)?;
    if !same(id, expected_id) || !valid_catalog_id(id) {
        return Err(AppError::Message(join2("主题 ID 与索引不一致：", expected_id)));
    }
    required_text(root, "version", 64)?;
    if !versioned {
        return Err(AppError::Message(join2("主题版本无效：", expected_id)));
    }
    check_names(root, expected_id)
}

/// What keeps a member from being a colour.
pub open spec fn color_member_fault(theme: JsonModel, key: Seq<char>) -> Option<ErrorModel> {
    either(
        text_fault(theme, key, 7),
        match theme.text_member(key) {
            Some(text) => color_fault(text, key),
            None => None,
        },
    )
}

fn check_color_member(theme: &Json, key: &str) -> (r: Result<(), AppError>)
    ensures
        fault(r) == color_member_fault(theme@, key@),
{
    validate_color(required_text(theme, key, 7)?, key)
}

/// What keeps a font, where there is one, from being a font stack.
pub open spec fn font_fault(fonts: JsonModel, key: Seq<char>) -> Option<ErrorModel> {
    match fonts.member(key) {
        Some(value) => match value.text() {
            Some(text) => font_stack_fault(text),
            None => broken("theme.fonts."@ + key + " 必须是字符串。"@),
        },
        None => None,
    }
}

fn check_font(fonts: &Json, key: &str) -> (r: Result<(), AppError>)
    ensures
        fault(r) == font_fault(fonts@, key@),
{
    match fonts.get(key) {
        Some(value) => match value.as_text() {
            Some(text) => validate_font_stack(text),
            None => Err(AppError::Message(join3("theme.fonts.", key, " 必须是字符串。"))),
        },
        None => Ok(()),
    }
}

/// What is wrong with the fonts, where there are any.
pub open spec fn fonts_fault(theme: JsonModel) -> Option<ErrorModel> {
    match theme.member("fonts"@) {
        Some(fonts) => either(
            object_fault(fonts, texts(FONT_FIELDS@), texts(NOTHING@), "theme.fonts"@),
            either(
                font_fault(fonts, "ui"@),
                either(font_fault(fonts, "code"@), font_fault(fonts, "display"@)),
            ),
        ),
        None => None,
    }
}

fn check_fonts(theme: &Json) -> (r: Result<(), AppError>)
    ensures
        fault(r) == fonts_fault(theme@),
{
    if let Some(fonts) = theme.get("fonts") {
        closed_object(fonts, &FONT_FIELDS, &NOTHING, "theme.fonts")?;
        check_font(fonts, "ui")?;
        check_font(fonts, "code")?;
        check_font(fonts, "display")?;
    }
    Ok(())
}

/// What keeps a member that is a text from being a colour.
pub open spec fn semantic_fault(colors: JsonModel, key: Seq<char>) -> Option<ErrorModel> {
    match colors.text_member(key) {
        Some(text) => color_fault(text, key),
        None => None,
    }
}

fn check_semantic(colors: &Json, key: &str) -> (r: Result<(), AppError>)
    ensures
        fault(r) == semantic_fault(colors@, key@),
{
    match colors.text_at(key) {
        Some(text) => validate_color(text, key),
        None => Ok(()),
    }
}

/// What is wrong with the colours with a meaning, where there are any.
pub open spec fn semantics_fault(theme: JsonModel) -> Option<ErrorModel> {
    match theme.member("semanticColors"@) {
        Some(colors) => either(
            object_fault(colors, texts(SEMANTIC_FIELDS@), texts(NOTHING@), "semanticColors"@),
            either(
                semantic_fault(colors, "diffAdded"@),
                either(semantic_fault(colors, "diffRemoved"@), semantic_fault(colors, "skill"@)),
            ),
        ),
        None => None,
    }
}

fn check_semantics(theme: &Json) -> (r: Result<(), AppError>)
    ensures
        fault(r) == semantics_fault(theme@),
{
    if let Some(colors) = theme.get("semanticColors") {
        closed_object(colors, &SEMANTIC_FIELDS, &NOTHING, "semanticColors")?;
        check_semantic(colors, "diffAdded")?;
        check_semantic(colors, "diffRemoved")?;
        check_semantic(colors, "skill")?;
    }
    Ok(())
}

/// What is wrong with the numbers of an appearance, as far as there are any: the contrast up to
/// 100, the opacity of the background up to 1, its blur up to 24.
pub open spec fn numbers_fault(theme: JsonModel) -> Option<ErrorModel> {
    either(
        range_fault(theme, "contrast"@, 100, 0x4059_0000_0000_0000, "theme.contrast 越界。"@),
        either(
            range_fault(
                theme,
                "backgroundImageOpacity"@,
                1,
                0x3FF0_0000_0000_0000,
                "背景透明度越界。"@,
            ),
            range_fault(
                theme,
                "backgroundImageBlur"@,
                24,
                0x4038_0000_0000_0000,
                "背景模糊度越界。"@,
            ),
        ),
    )
}

fn check_numbers(theme: &Json) -> (r: Result<(), AppError>)
    ensures
        fault(r) == numbers_fault(theme@),
{
    optional_range(theme, "contrast", 100, 0x4059_0000_0000_0000, "theme.contrast 越界。")?;
    optional_range(
        theme,
        "backgroundImageOpacity",
        1,
        0x3FF0_0000_0000_0000,
        "背景透明度越界。",
    )?;
    optional_range(theme, "backgroundImageBlur", 24, 0x4038_0000_0000_0000, "背景模糊度越界。")
}

/// What is wrong with a member that is a focus, where there is one.
pub open spec fn focus_member_fault(value: JsonModel, key: Seq<char>) -> Option<ErrorModel> {
    match value.member(key) {
        Some(focus) => focus_fault(focus),
        None => None,
    }
}

fn check_focus_member(value: &Json, key: &str) -> (r: Result<(), AppError>)
    ensures
        fault(r) == focus_member_fault(value@, key@),
{
    match value.get(key) {
        Some(focus) => validate_background_focus(focus),
        None => Ok(()),
    }
}

/// What is wrong with the background, as far as it is described.
pub open spec fn background_fault(theme: JsonModel) -> Option<ErrorModel> {
    either(
        choice_fault(
            theme,
            "backgroundPosition"@,
            texts(POSITIONS@),
            "背景定位值必须是字符串。"@,
            "背景定位值无效。"@,
        ),
        either(
            focus_member_fault(theme, "backgroundFocus"@),
            choice_fault(
                theme,
                "visualIntensity"@,
                texts(INTENSITIES@),
                "视觉强度必须是字符串。"@,
                "视觉强度无效。"@,
            ),
        ),
    )
}

fn check_background(theme: &Json) -> (r: Result<(), AppError>)
    ensures
        fault(r) == background_fault(theme@),
{
    optional_choice(
        theme,
        "backgroundPosition",
        &POSITIONS,
        "背景定位值必须是字符串。",
        "背景定位值无效。",
    )?;
    check_focus_member(theme, "backgroundFocus")?;
    optional_choice(
        theme,
        "visualIntensity",
        &INTENSITIES,
        "视觉强度必须是字符串。",
        "视觉强度无效。",
    )
}

/// What is wrong with the triggers of an effect with an image.
pub open spec fn trigger_member_fault(effect: JsonModel) -> Option<ErrorModel> {
    match effect.member("triggers"@) {
        Some(triggers) => triggers_fault(triggers),
        None => None,
    }
}

fn check_trigger_member(effect: &Json) -> (r: Result<(), AppError>)
    ensures
        fault(r) == trigger_member_fault(effect@),
{
    match effect.get("triggers") {
        Some(triggers) => validate_effect_triggers(triggers),
        None => Ok(()),
    }
}

/// What is wrong with the overlay, where there is one.
pub open spec fn overlay_fault(effects: JsonModel) -> Option<ErrorModel> {
    match effects.member("overlay"@) {
        Some(overlay) => either(
            object_fault(
                overlay,
                texts(OVERLAY_FIELDS@),
                texts(IMAGE_REQUIRED@),
                "theme.effects.overlay"@,
            ),
            either(
                trigger_member_fault(overlay),
                either(
                    focus_member_fault(overlay, "position"@),
                    integer_fault(
                        overlay,
                        "widthPercent"@,
                        10,
                        80,
                        "瞬时叠加素材宽度必须是整数。"@,
                        "瞬时叠加素材宽度越界。"@,
                    ),
                ),
            ),
        ),
        None => None,
    }
}

fn check_overlay(effects: &Json) -> (r: Result<(), AppError>)
    ensures
        fault(r) == overlay_fault(effects@),
{
    if let Some(overlay) = effects.get("overlay") {
        closed_object(overlay, &OVERLAY_FIELDS, &IMAGE_REQUIRED, "theme.effects.overlay")?;
        check_trigger_member(overlay)?;
        check_focus_member(overlay, "position")?;
        optional_integer(
            overlay,
            "widthPercent",
            10,
            80,
            "瞬时叠加素材宽度必须是整数。",
            "瞬时叠加素材宽度越界。",
        )?;
    }
    Ok(())
}

/// What is wrong with the accent of the composer, where there is one.
pub open spec fn accent_fault(effects: JsonModel) -> Option<ErrorModel> {
    match effects.member("composerAccent"@) {
        Some(accent) => either(
            object_fault(
                accent,
                texts(ACCENT_FIELDS@),
                texts(IMAGE_REQUIRED@),
                "theme.effects.composerAccent"@,
            ),
            either(
                trigger_member_fault(accent),
                integer_fault(
                    accent,
                    "widthPx"@,
                    48,
                    240,
                    "输入框装饰素材宽度必须是整数。"@,
                    "输入框装饰素材宽度越界。"@,
                ),
            ),
        ),
        None => None,
    }
}

fn check_accent(effects: &Json) -> (r: Result<(), AppError>)
    ensures
        fault(r) == accent_fault(effects@),
{
    if let Some(accent) = effects.get("composerAccent") {
        closed_object(accent, &ACCENT_FIELDS, &IMAGE_REQUIRED, "theme.effects.composerAccent")?;
        check_trigger_member(accent)?;
        optional_integer(
            accent,
            "widthPx",
            48,
            240,
            "输入框装饰素材宽度必须是整数。",
            "输入框装饰素材宽度越界。",
        )?;
    }
    Ok(())
}

/// What is wrong with the effects, where there are any.
pub open spec fn effects_fault(theme: JsonModel) -> Option<ErrorModel> {
    match theme.member("effects"@) {
        Some(effects) => either(
            object_fault(effects, texts(EFFECT_FIELDS@), texts(NOTHING@), "theme.effects"@),
            either(
                choice_fault(
                    effects,
                    "ambient"@,
                    texts(AMBIENTS@),
                    "氛围特效必须是字符串。"@,
                    "氛围特效无效。"@,
                ),
                either(
                    choice_fault(
                        effects,
                        "intensity"@,
                        texts(EFFECT_INTENSITIES@),
                        "特效强度必须是字符串。"@,
                        "特效强度无效。"@,
                    ),
                    either(overlay_fault(effects), accent_fault(effects)),
                ),
            ),
        ),
        None => None,
    }
}

fn check_effects(theme: &Json) -> (r: Result<(), AppError>)
    ensures
        fault(r) == effects_fault(theme@),
{
    if let Some(effects) = theme.get("effects") {
        closed_object(effects, &EFFECT_FIELDS, &NOTHING, "theme.effects")?;
        optional_choice(
            effects,
            "ambient",
            &AMBIENTS,
            "氛围特效必须是字符串。",
            "氛围特效无效。",
        )?;
        optional_choice(
            effects,
            "intensity",
            &EFFECT_INTENSITIES,
            "特效强度必须是字符串。",
            "特效强度无效。",
        )?;
        check_overlay(effects)?;
        check_accent(effects)?;
    }
    Ok(())
}

/// What is wrong with an appearance.
pub open spec fn appearance_fault(theme: JsonModel) -> Option<ErrorModel> {
    either(
        object_fault(theme, texts(THEME_FIELDS@), texts(THEME_REQUIRED@), "theme.theme"@),
        either(
            color_member_fault(theme, "accent"@),
            either(
                color_member_fault(theme, "ink"@),
                either(
                    color_member_fault(theme, "surface"@),
                    either(
                        fonts_fault(theme),
                        either(
                            semantics_fault(theme),
                            either(
                                numbers_fault(theme),
                                either(background_fault(theme), effects_fault(theme)),
                            ),
                        ),
                    ),
                ),
            ),
        ),
    )
}

/// Checks an appearance.
pub fn validate_appearance(theme: &Json) -> (r: Result<(), AppError>)
    ensures
        fault(r) == appearance_fault(theme@),
{
    closed_object(theme, &THEME_FIELDS, &THEME_REQUIRED, "theme.theme")?;
    check_color_member(theme, "accent")?;
    check_color_member(theme, "ink")?;
    check_color_member(theme, "surface")?;
    check_fonts(theme)?;
    check_semantics(theme)?;
    check_numbers(theme)?;
    check_background(theme)?;
    check_effects(theme)
}

/// What is wrong with a quick action.
pub open spec fn action_fault(action: JsonModel) -> Option<ErrorModel> {
    either(
        object_fault(action, texts(ACTION_FIELDS@), texts(ACTION_REQUIRED@), "quickActions[]"@),
        either(text_fault(action, "title"@, 200), text_fault(action, "prompt"@, 1000)),
    )
}

/// What is wrong with a list of quick actions: the fault of the first one that has any.
pub open spec fn action_list_fault(actions: Seq<JsonModel>) -> Option<ErrorModel>
    decreases actions.len(),
{
    if actions.len() == 0 {
        None
    } else {
        either(action_fault(actions[0]), action_list_fault(actions.skip(1)))
    }
}

fn check_actions(actions: &Vec<Json>) -> (r: Result<(), AppError>)
    ensures
        fault(r) == action_list_fault(models(actions@)),
{
    let ghost whole = models(actions@);
    let mut i: usize = 0;
    assert(whole.skip(0) =~= whole);
    while i < actions.len()
        invariant
            i <= actions@.len(),
            whole == models(actions@),
            action_list_fault(whole) == action_list_fault(whole.skip(i as int)),
        decreases actions@.len() - i,
    {
        let action = &actions[i];
        assert(whole.skip(i as int)[0] == action@);
        assert(whole.skip(i as int).skip(1) =~= whole.skip(i + 1));
        closed_object(action, &ACTION_FIELDS, &ACTION_REQUIRED, "quickActions[]")?;
        required_text(action, "title", 200)?;
        required_text(action, "prompt", 1000)?;
        i += 1;
    }
    Ok(())
}

/// What is wrong with the home screen: its brand, its title, its four quick actions.
pub open spec fn home_fault(home: JsonModel) -> Option<ErrorModel> {
    either(
        object_fault(home, texts(HOME_FIELDS@), texts(HOME_REQUIRED@), "home"@),
        either(
            text_fault(home, "brand"@, 200),
            either(
                text_fault(home, "title"@, 200),
                match home.member("quickActions"@) {
                    Some(value) => match value.items() {
                        Some(actions) => if actions.len() == 4 {
                            action_list_fault(actions)
                        } else {
                            broken("quickActions 必须包含 4 项。"@)
                        },
                        None => broken("quickActions 必须是数组。"@),
                    },
                    None => broken("quickActions 必须是数组。"@),
                },
            ),
        ),
    )
}

/// Checks the home screen, its pet aside.
pub fn validate_home(home: &Json) -> (r: Result<(), AppError>)
    ensures
        fault(r) == home_fault(home@),
{
    closed_object(home, &HOME_FIELDS, &HOME_REQUIRED, "home")?;
    required_text(home, "brand", 200)?;
    required_text(home, "title", 200)?;
    let actions = match home.get("quickActions") {
        Some(value) => match value.as_items() {
            Some(actions) => actions,
            None => {
                return Err(AppError::Message("quickActions 必须是数组。".to_owned()));
            },
        },
        None => {
            return Err(AppError::Message("quickActions 必须是数组。".to_owned()));
        },
    };
    if actions.len() != 4 {
        return Err(AppError::Message("quickActions 必须包含 4 项。".to_owned()));
    }
    check_actions(actions)
}

/// What is wrong with the pet, where there is one.
pub open spec fn pet_fault(home: JsonModel) -> Option<ErrorModel> {
    match home.member("pet"@) {
        Some(pet) => either(
            object_fault(pet, texts(PET_FIELDS@), texts(PET_REQUIRED@), "pet"@),
            text_fault(pet, "image"@, 180),
        ),
        None => None,
    }
}

/// Checks the pet, where there is one.
pub fn validate_pet(home: &Json) -> (r: Result<(), AppError>)
    ensures
        fault(r) == pet_fault(home@),
{
    if let Some(pet) = home.get("pet") {
        closed_object(pet, &PET_FIELDS, &PET_REQUIRED, "pet")?;
        required_text(pet, "image", 180)?;
    }
    Ok(())
}

/// The image that a member names, where it is a text.
pub open spec fn named_asset(value: JsonModel, key: Seq<char>, directory: Seq<char>) -> Seq<
    AssetModel,
> {
    match value.text_member(key) {
        Some(relative) => seq![AssetModel { relative, directory }],
        None => Seq::empty(),
    }
}

/// The image of an effect, where the effect is there and names one.
pub open spec fn effect_asset(theme: JsonModel, role: Seq<char>) -> Seq<AssetModel> {
    match theme.member("effects"@) {
        Some(effects) => match effects.member(role) {
            Some(effect) => named_asset(effect, "image"@, "effects"@),
            None => Seq::empty(),
        },
        None => Seq::empty(),
    }
}

/// The images that a theme's look names, in the order in which they are looked at.
pub open spec fn look_assets(root: JsonModel, theme: JsonModel) -> Seq<AssetModel> {
    named_asset(root, "previewImage"@, "previews"@) + named_asset(
        theme,
        "backgroundImage"@,
        "backgrounds"@,
    ) + named_asset(theme, "logoImage"@, "logos"@) + effect_asset(theme, "overlay"@)
        + effect_asset(theme, "composerAccent"@)
}

/// The image of the pet, where there is one.
pub open spec fn pet_asset(home: JsonModel) -> Seq<AssetModel> {
    match home.member("pet"@) {
        Some(pet) => named_asset(pet, "image"@, "pets"@),
        None => Seq::empty(),
    }
}

/// The member `home` of a manifest, or nothing.
pub open spec fn home_part(root: JsonModel) -> JsonModel {
    match root.member("home"@) {
        Some(home) => home,
        None => JsonModel::Null,
    }
}

/// What is wrong with the text of a manifest before its images are looked at.
pub open spec fn look_fault(root: JsonModel, id: Seq<char>, versioned: bool) -> Option<
    ErrorModel,
> {
    either(
        identity_fault(root, id, versioned),
        match root.member("theme"@) {
            Some(theme) => either(appearance_fault(theme), text_fault(root, "previewImage"@, 180)),
            None => broken("主题缺少 theme。"@),
        },
    )
}

/// Where the check of a manifest stands, given what was found for the first of its images.
pub open spec fn verdict(
    root: JsonModel,
    id: Seq<char>,
    versioned: bool,
    images: Seq<ImageModel>,
) -> StepModel {
    if look_fault(root, id, versioned) is Some {
        StepModel::Finished(look_fault(root, id, versioned))
    } else {
        let look = look_assets(root, root.member("theme"@)->0);
        let home = home_part(root);
        match walk(look, images) {
            Some(step) => step,
            None => match either(home_fault(home), pet_fault(home)) {
                Some(error) => StepModel::Finished(Some(error)),
                None => match walk(pet_asset(home), left(images, look.len() as int)) {
                    Some(step) => step,
                    None => StepModel::Finished(None),
                },
            },
        }
    }
}

fn name_asset(assets: &mut Vec<AssetRequest>, value: &Json, key: &str, directory: &str)
    ensures
        asset_models(final(assets)@) == asset_models(old(assets)@) + named_asset(
            value@,
            key@,
            directory@,
        ),
{
    if let Some(relative) = value.text_at(key) {
        assets.push(
            AssetRequest { relative: relative.to_owned(), directory: directory.to_owned() },
        );
    }
    assert(asset_models(assets@) =~= asset_models(old(assets)@) + named_asset(
        value@,
        key@,
        directory@,
    ));
}

fn name_effect(assets: &mut Vec<AssetRequest>, theme: &Json, role: &str)
    ensures
        asset_models(final(assets)@) == asset_models(old(assets)@) + effect_asset(theme@, role@),
{
    if let Some(effects) = theme.get("effects") {
        if let Some(effect) = effects.get(role) {
            name_asset(assets, effect, "image", "effects");
            return ;
        }
    }
    assert(asset_models(assets@) =~= asset_models(old(assets)@) + effect_asset(theme@, role@));
}

fn name_look(root: &Json, theme: &Json) -> (assets: Vec<AssetRequest>)
    ensures
        asset_models(assets@) == look_assets(root@, theme@),
        assets@.len() <= 5,
{
    let mut assets: Vec<AssetRequest> = Vec::new();
    assert(asset_models(assets@) =~= Seq::empty());
    name_asset(&mut assets, root, "previewImage", "previews");
    assert(asset_models(assets@) =~= named_asset(root@, "previewImage"@, "previews"@));
    name_asset(&mut assets, theme, "backgroundImage", "backgrounds");
    name_asset(&mut assets, theme, "logoImage", "logos");
    name_effect(&mut assets, theme, "overlay");
    name_effect(&mut assets, theme, "composerAccent");
    assert(assets@.len() == asset_models(assets@).len());
    assets
}

fn name_pet(home: &Json) -> (assets: Vec<AssetRequest>)
    ensures
        asset_models(assets@) == pet_asset(home@),
        assets@.len() <= 1,
{
    let mut assets: Vec<AssetRequest> = Vec::new();
    assert(asset_models(assets@) =~= Seq::empty());
    if let Some(pet) = home.get("pet") {
        name_asset(&mut assets, pet, "image", "pets");
    }
    assert(asset_models(assets@) =~= pet_asset(home@));
    assert(assets@.len() == asset_models(assets@).len());
    assets
}

fn check_home(home: &Json) -> (r: Result<(), AppError>)
    ensures
        fault(r) == either(home_fault(home@), pet_fault(home@)),
{
    validate_home(home)?;
    validate_pet(home)
}

fn check_look<'a>(root: &'a Json, expected_id: &str, versioned: bool) -> (r: Result<
    &'a Json,
    AppError,
>)
    ensures
        fault(r) == look_fault(root@, expected_id@, versioned),
        r is Ok ==> root@.member("theme"@) == Some(r->Ok_0@),
{
    validate_identity(root, expected_id, versioned)?;
    match root.get("theme") {
        Some(theme) => {
            validate_appearance(theme)?;
            required_text(root, "previewImage", 180)?;
            Ok(theme)
        },
        None => Err(AppError::Message("主题缺少 theme。".to_owned())),
    }
}

/// Checks a manifest that was read, given whether its version is a version number and what was
/// found for the first of the images that it names.
pub fn validate_manifest(
    root: &Json,
    expected_id: &str,
    versioned: bool,
    images: &Vec<Image>,
) -> (step: Step)
    ensures
        step@ == verdict(root@, expected_id@, versioned, image_models(images@)),
{
    let ghost found = image_models(images@);
    let theme = match check_look(root, expected_id, versioned) {
        Ok(theme) => theme,
        Err(error) => {
            return Step::Finished(Err(error));
        },
    };
    let look = name_look(root, theme);
    assert(left(found, 0) =~= found);
    if let Some(step) = check_assets(&look, images, 0) {
        return step;
    }
    let none = Json::Null;
    let home = match root.get("home") {
        Some(home) => home,
        None => &none,
    };
    if let Err(error) = check_home(home) {
        return Step::Finished(Err(error));
    }
    let pet = name_pet(home);
    assert(look@.len() == asset_models(look@).len());
    match check_assets(&pet, images, look.len()) {
        Some(step) => step,
        None => Step::Finished(Ok(())),
    }
}

/// Whether the version of a manifest is a version number.
pub open spec fn versioned(root: JsonModel) -> bool {
    root.text_member("version"@) is Some && semantic_version(root.text_member("version"@)->0)
}

/// Where the check of a manifest stands, given its bytes and what was found for the first of
/// its images.
pub open spec fn theme_verdict(
    manifest: Seq<u8>,
    id: Seq<char>,
    images: Seq<ImageModel>,
) -> StepModel {
    match json_read(manifest) {
        Ok(root) => verdict(root, id, versioned(root), images),
        Err(text) => StepModel::Finished(Some(ErrorModel::Json(text))),
    }
}

/// Checks the manifest of the theme with that identifier, given its bytes and what was found
/// for the first of the images that it names. A manifest is sound when no image is asked for
/// any more and no error came.
pub fn validate_theme(manifest: &Vec<u8>, expected_id: &str, images: &Vec<Image>) -> (step: Step)
    ensures
        step@ == theme_verdict(manifest@, expected_id@, image_models(images@)),
{
    match read_json(manifest) {
        Ok(root) => {
            let known = match root.text_at("version") {
                Some(version) => is_semantic_version(version),
                None => false,
            };
            validate_manifest(&root, expected_id, known, images)
        },
        Err(text) => Step::Finished(Err(AppError::Json(text))),
    }
}

} // verus!
