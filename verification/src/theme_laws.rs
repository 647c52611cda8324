//! What holds of the check of themes as a whole.

use crate::assets::{
    asset_fault, left, walk_passes, walk_reads, walk_settles, AssetModel, ImageModel, StepModel,
};
use crate::error::{either, ErrorModel};
use crate::json::JsonModel;
use crate::rules::{asset_path, catalog_id, font_stack};
use crate::rules_laws::{colors_are, hexadecimal};
use crate::schema::{
    choice_fault, closed, closed_objects_pass, focus_fault, integer_fault, object_fault,
    range_fault, text_fault, trigger_list_fault, triggers_fault, FOCUS_FIELDS, TRIGGERS,
};
use crate::schema_laws::{numbers_lie_in_range, triggers_are_known, up_to};
use crate::text::texts;
use crate::theme::{
    accent_fault, action_fault, action_list_fault, appearance_fault, color_member_fault,
    effects_fault, fonts_fault, home_fault, home_part, identity_fault, look_assets, look_fault,
    overlay_fault, pet_asset, pet_fault, semantics_fault, verdict, versioned, ACCENT_FIELDS,
    ACTION_FIELDS, ACTION_REQUIRED, AMBIENTS, CATEGORIES, EFFECT_FIELDS, EFFECT_INTENSITIES,
    FONT_FIELDS, HOME_FIELDS, HOME_REQUIRED, IMAGE_REQUIRED, INTENSITIES, MANIFEST_FIELDS,
    MANIFEST_REQUIRED, NOTHING, OVERLAY_FIELDS, PET_FIELDS, PET_REQUIRED, POSITIONS,
    SEMANTIC_FIELDS, THEME_FIELDS, THEME_REQUIRED, VARIANTS,
};
use vstd::prelude::*;

verus! {

/// A member that is a text of 1 to `max` characters.
pub open spec fn short(value: JsonModel, key: Seq<char>, max: nat) -> bool {
    value.member(key) matches Some(JsonModel::Text(text)) && 1 <= text.len() <= max
}

/// A member that is one of the given texts.
pub open spec fn among(value: JsonModel, key: Seq<char>, choices: Seq<Seq<char>>) -> bool {
    value.member(key) matches Some(JsonModel::Text(text)) && choices.contains(text)
}

/// The members of a manifest.
pub open spec fn manifest_members() -> Seq<Seq<char>> {
    seq![
        "$schema"@,
        "schemaVersion"@,
        "version"@,
        "displayName"@,
        "codeThemeId"@,
        "category"@,
        "description"@,
        "author"@,
        "variant"@,
        "previewImage"@,
        "theme"@,
        "home"@,
        "copy"@,
    ]
}

/// The members that a manifest must have: all but the schema and the copy.
pub open spec fn manifest_needs() -> Seq<Seq<char>> {
    seq![
        "schemaVersion"@,
        "version"@,
        "displayName"@,
        "codeThemeId"@,
        "category"@,
        "description"@,
        "author"@,
        "variant"@,
        "previewImage"@,
        "theme"@,
        "home"@,
    ]
}

/// The seven categories.
pub open spec fn categories() -> Seq<Seq<char>> {
    seq!["人物"@, "动漫"@, "游戏"@, "风景"@, "极简"@, "节日"@, "其他"@]
}

/// A manifest that names the theme, in every field that says what the theme is.
pub open spec fn sound_identity(root: JsonModel, id: Seq<char>, versioned: bool) -> bool {
    &&& closed(root, manifest_members(), manifest_needs())
    &&& root.member("schemaVersion"@) == Some(JsonModel::Unsigned(1))
    &&& root.member("codeThemeId"@) == Some(JsonModel::Text(id))
    &&& catalog_id(id)
    &&& short(root, "version"@, 64)
    &&& versioned
    &&& short(root, "displayName"@, 60)
    &&& short(root, "description"@, 120)
    &&& short(root, "author"@, 60)
    &&& among(root, "category"@, categories())
    &&& among(root, "variant"@, seq!["light"@, "dark"@])
    &&& short(root, "previewImage"@, 180)
}

/// A member that is a colour: a number sign and six hexadecimal digits.
pub open spec fn colored(theme: JsonModel, key: Seq<char>) -> bool {
    theme.member(key) matches Some(JsonModel::Text(text)) && text.len() == 7 && text[0] == '#'
        && forall|i: int| 1 <= i < 7 ==> hexadecimal(#[trigger] text[i])
}

/// A font, where there is one, that is a font stack.
pub open spec fn sound_font(fonts: JsonModel, key: Seq<char>) -> bool {
    fonts.member(key) matches Some(font) ==> font matches JsonModel::Text(text) && font_stack(text)
}

/// A member that, where it is there, is one of the given texts.
pub open spec fn sound_choice(value: JsonModel, key: Seq<char>, choices: Seq<Seq<char>>) -> bool {
    value.member(key) is Some ==> among(value, key, choices)
}

/// A member that, where it is a number, lies between 0 and a limit.
pub open spec fn sound_number(value: JsonModel, key: Seq<char>, limit: nat) -> bool {
    value.member(key) matches Some(number) ==> up_to(number, limit)
}

/// A member that, where it is there, is an integer between two limits.
pub open spec fn sound_integer(value: JsonModel, key: Seq<char>, least: u64, most: u64) -> bool {
    value.member(key) matches Some(member) ==> member matches JsonModel::Unsigned(n) && least <= n
        <= most
}

/// A coordinate from 0 to 100.
pub open spec fn sound_axis(focus: JsonModel, axis: Seq<char>) -> bool {
    focus.member(axis) matches Some(JsonModel::Unsigned(n)) && n <= 100
}

/// Two coordinates from 0 to 100 and nothing else.
pub open spec fn sound_focus(focus: JsonModel) -> bool {
    &&& closed(focus, seq!["x"@, "y"@], seq!["x"@, "y"@])
    &&& sound_axis(focus, "x"@)
    &&& sound_axis(focus, "y"@)
}

/// One or two triggers, each a known one, and no two the same.
pub open spec fn sound_triggers(value: JsonModel) -> bool {
    let start = JsonModel::Text("task-start"@);
    let send = JsonModel::Text("message-send"@);
    ||| value == JsonModel::Array(seq![start])
    ||| value == JsonModel::Array(seq![send])
    ||| value == JsonModel::Array(seq![start, send])
    ||| value == JsonModel::Array(seq![send, start])
}

/// Effects that are of the known kinds, as far as there are any.
pub open spec fn sound_effects(theme: JsonModel) -> bool {
    theme.member("effects"@) matches Some(effects) ==> {
        &&& closed(
            effects,
            seq!["ambient"@, "intensity"@, "overlay"@, "composerAccent"@],
            Seq::empty(),
        )
        &&& sound_choice(effects, "ambient"@, seq!["none"@, "rain"@, "particles"@, "storm"@])
        &&& sound_choice(effects, "intensity"@, seq!["subtle"@, "balanced"@, "vivid"@])
        &&& effects.member("overlay"@) matches Some(overlay) ==> sound_overlay(overlay)
        &&& effects.member("composerAccent"@) matches Some(accent) ==> sound_accent(accent)
    }
}

/// An overlay with an image, triggers, and a place and a width within bounds.
pub open spec fn sound_overlay(overlay: JsonModel) -> bool {
    &&& closed(
        overlay,
        seq!["image"@, "triggers"@, "position"@, "widthPercent"@],
        seq!["image"@, "triggers"@],
    )
    &&& overlay.member("triggers"@) matches Some(triggers) && sound_triggers(triggers)
    &&& overlay.member("position"@) matches Some(position) ==> sound_focus(position)
    &&& sound_integer(overlay, "widthPercent"@, 10, 80)
}

/// An accent of the composer with an image, triggers, and a width within bounds.
pub open spec fn sound_accent(accent: JsonModel) -> bool {
    &&& closed(accent, seq!["image"@, "triggers"@, "widthPx"@], seq!["image"@, "triggers"@])
    &&& accent.member("triggers"@) matches Some(triggers) && sound_triggers(triggers)
    &&& sound_integer(accent, "widthPx"@, 48, 240)
}

/// The members of an appearance.
pub open spec fn look_members() -> Seq<Seq<char>> {
    seq![
        "accent"@,
        "contrast"@,
        "fonts"@,
        "ink"@,
        "opaqueWindows"@,
        "semanticColors"@,
        "surface"@,
        "backgroundImage"@,
        "backgroundPosition"@,
        "backgroundFocus"@,
        "visualIntensity"@,
        "effects"@,
        "logoImage"@,
        "backgroundImageOpacity"@,
        "backgroundImageBlur"@,
    ]
}

/// The eight places of a background.
pub open spec fn positions() -> Seq<Seq<char>> {
    seq![
        "center"@,
        "center top"@,
        "center 20%"@,
        "center 30%"@,
        "center 40%"@,
        "center bottom"@,
        "left center"@,
        "right center"@,
    ]
}

/// An appearance with its three colours, and with nothing in it that is out of bounds.
pub open spec fn sound_look(theme: JsonModel) -> bool {
    &&& closed(theme, look_members(), seq!["accent"@, "ink"@, "surface"@])
    &&& colored(theme, "accent"@)
    &&& colored(theme, "ink"@)
    &&& colored(theme, "surface"@)
    &&& theme.member("fonts"@) matches Some(fonts) ==> {
        &&& closed(fonts, seq!["ui"@, "code"@, "display"@], Seq::empty())
        &&& sound_font(fonts, "ui"@)
        &&& sound_font(fonts, "code"@)
        &&& sound_font(fonts, "display"@)
    }
    &&& theme.member("semanticColors"@) matches Some(colors) ==> {
        &&& closed(colors, seq!["diffAdded"@, "diffRemoved"@, "skill"@], Seq::empty())
        &&& colors.member("diffAdded"@) matches Some(JsonModel::Text(_)) ==> colored(
            colors,
            "diffAdded"@,
        )
        &&& colors.member("diffRemoved"@) matches Some(JsonModel::Text(_)) ==> colored(
            colors,
            "diffRemoved"@,
        )
        &&& colors.member("skill"@) matches Some(JsonModel::Text(_)) ==> colored(colors, "skill"@)
    }
    &&& sound_number(theme, "contrast"@, 100)
    &&& sound_number(theme, "backgroundImageOpacity"@, 1)
    &&& sound_number(theme, "backgroundImageBlur"@, 24)
    &&& sound_choice(theme, "backgroundPosition"@, positions())
    &&& theme.member("backgroundFocus"@) matches Some(focus) ==> sound_focus(focus)
    &&& sound_choice(theme, "visualIntensity"@, seq!["clear"@, "balanced"@, "immersive"@])
    &&& sound_effects(theme)
}

/// A quick action with a title and a prompt.
pub open spec fn sound_action(action: JsonModel) -> bool {
    &&& closed(
        action,
        seq!["icon"@, "title"@, "description"@, "prompt"@],
        seq!["title"@, "prompt"@],
    )
    &&& short(action, "title"@, 200)
    &&& short(action, "prompt"@, 1000)
}

/// The members of a home screen.
pub open spec fn home_members() -> Seq<Seq<char>> {
    seq![
        "brand"@,
        "eyebrow"@,
        "badge"@,
        "title"@,
        "subtitle"@,
        "footerNote"@,
        "composerHint"@,
        "tags"@,
        "sidebarLabels"@,
        "quickActions"@,
        "pet"@,
    ]
}

/// A home screen with a brand, a title and four quick actions, and a pet, where there is one,
/// with an image.
pub open spec fn sound_home(home: JsonModel) -> bool {
    &&& closed(home, home_members(), seq!["brand"@, "title"@, "quickActions"@])
    &&& short(home, "brand"@, 200)
    &&& short(home, "title"@, 200)
    &&& home.member("quickActions"@) matches Some(JsonModel::Array(actions)) && actions.len() == 4
        && forall|i: int| 0 <= i < 4 ==> sound_action(#[trigger] actions[i])
    &&& home.member("pet"@) matches Some(pet) ==> {
        &&& closed(pet, seq!["image"@, "alt"@, "size"@], seq!["image"@])
        &&& short(pet, "image"@, 180)
    }
}

/// A manifest whose text is sound.
pub open spec fn sound_manifest(root: JsonModel, id: Seq<char>, versioned: bool) -> bool {
    &&& sound_identity(root, id, versioned)
    &&& root.member("theme"@) matches Some(theme) && sound_look(theme)
    &&& root.member("home"@) matches Some(home) && sound_home(home)
}

/// The image that a member of a value names, where there is a value and the member is a text.
pub open spec fn image_of(value: Option<JsonModel>, key: Seq<char>, directory: Seq<char>) -> Seq<
    AssetModel,
> {
    match value {
        Some(holder) => match holder.member(key) {
            Some(JsonModel::Text(relative)) => seq![AssetModel { relative, directory }],
            _ => Seq::empty(),
        },
        None => Seq::empty(),
    }
}

/// A member of a value, where there is a value.
pub open spec fn part_of(value: Option<JsonModel>, key: Seq<char>) -> Option<JsonModel> {
    match value {
        Some(value) => value.member(key),
        None => None,
    }
}

/// The images that a manifest names, in the order in which they are looked at: the preview, the
/// background, the logo, the overlay, the accent of the composer and the pet, each in a directory
/// of its own.
pub open spec fn theme_assets(root: JsonModel) -> Seq<AssetModel> {
    let theme = root.member("theme"@);
    let effects = part_of(theme, "effects"@);
    image_of(Some(root), "previewImage"@, "previews"@) + image_of(
        theme,
        "backgroundImage"@,
        "backgrounds"@,
    ) + image_of(theme, "logoImage"@, "logos"@) + image_of(
        part_of(effects, "overlay"@),
        "image"@,
        "effects"@,
    ) + image_of(part_of(effects, "composerAccent"@), "image"@, "effects"@) + image_of(
        part_of(root.member("home"@), "pet"@),
        "image"@,
        "pets"@,
    )
}

/// The lists of members and of choices, in words.
proof fn lists_in_words()
    ensures
        texts(MANIFEST_FIELDS@) == manifest_members(),
        texts(MANIFEST_REQUIRED@) == manifest_needs(),
        texts(CATEGORIES@) == categories(),
        texts(VARIANTS@) == seq!["light"@, "dark"@],
        texts(THEME_FIELDS@) == look_members(),
        texts(THEME_REQUIRED@) == seq!["accent"@, "ink"@, "surface"@],
        texts(FONT_FIELDS@) == seq!["ui"@, "code"@, "display"@],
        texts(SEMANTIC_FIELDS@) == seq!["diffAdded"@, "diffRemoved"@, "skill"@],
        texts(POSITIONS@) == positions(),
        texts(INTENSITIES@) == seq!["clear"@, "balanced"@, "immersive"@],
        texts(EFFECT_FIELDS@) == seq!["ambient"@, "intensity"@, "overlay"@, "composerAccent"@],
        texts(AMBIENTS@) == seq!["none"@, "rain"@, "particles"@, "storm"@],
        texts(EFFECT_INTENSITIES@) == seq!["subtle"@, "balanced"@, "vivid"@],
        texts(OVERLAY_FIELDS@) == seq!["image"@, "triggers"@, "position"@, "widthPercent"@],
        texts(ACCENT_FIELDS@) == seq!["image"@, "triggers"@, "widthPx"@],
        texts(IMAGE_REQUIRED@) == seq!["image"@, "triggers"@],
        texts(HOME_FIELDS@) == home_members(),
        texts(HOME_REQUIRED@) == seq!["brand"@, "title"@, "quickActions"@],
        texts(ACTION_FIELDS@) == seq!["icon"@, "title"@, "description"@, "prompt"@],
        texts(ACTION_REQUIRED@) == seq!["title"@, "prompt"@],
        texts(PET_FIELDS@) == seq!["image"@, "alt"@, "size"@],
        texts(PET_REQUIRED@) == seq!["image"@],
        texts(NOTHING@) == Seq::<Seq<char>>::empty(),
        texts(FOCUS_FIELDS@) == seq!["x"@, "y"@],
{
    assert(texts(MANIFEST_FIELDS@) =~= manifest_members());
    assert(texts(MANIFEST_REQUIRED@) =~= manifest_needs());
    assert(texts(CATEGORIES@) =~= categories());
    assert(texts(VARIANTS@) =~= seq!["light"@, "dark"@]);
    assert(texts(THEME_FIELDS@) =~= look_members());
    assert(texts(THEME_REQUIRED@) =~= seq!["accent"@, "ink"@, "surface"@]);
    assert(texts(FONT_FIELDS@) =~= seq!["ui"@, "code"@, "display"@]);
    assert(texts(SEMANTIC_FIELDS@) =~= seq!["diffAdded"@, "diffRemoved"@, "skill"@]);
    assert(texts(POSITIONS@) =~= positions());
    assert(texts(INTENSITIES@) =~= seq!["clear"@, "balanced"@, "immersive"@]);
    assert(texts(EFFECT_FIELDS@) =~= seq![
        "ambient"@,
        "intensity"@,
        "overlay"@,
        "composerAccent"@,
    ]);
    assert(texts(AMBIENTS@) =~= seq!["none"@, "rain"@, "particles"@, "storm"@]);
    assert(texts(EFFECT_INTENSITIES@) =~= seq!["subtle"@, "balanced"@, "vivid"@]);
    assert(texts(OVERLAY_FIELDS@) =~= seq![
        "image"@,
        "triggers"@,
        "position"@,
        "widthPercent"@,
    ]);
    assert(texts(ACCENT_FIELDS@) =~= seq!["image"@, "triggers"@, "widthPx"@]);
    assert(texts(IMAGE_REQUIRED@) =~= seq!["image"@, "triggers"@]);
    assert(texts(HOME_FIELDS@) =~= home_members());
    assert(texts(HOME_REQUIRED@) =~= seq!["brand"@, "title"@, "quickActions"@]);
    assert(texts(ACTION_FIELDS@) =~= seq!["icon"@, "title"@, "description"@, "prompt"@]);
    assert(texts(ACTION_REQUIRED@) =~= seq!["title"@, "prompt"@]);
    assert(texts(PET_FIELDS@) =~= seq!["image"@, "alt"@, "size"@]);
    assert(texts(PET_REQUIRED@) =~= seq!["image"@]);
    assert(texts(NOTHING@) =~= Seq::<Seq<char>>::empty());
    assert(texts(FOCUS_FIELDS@) =~= seq!["x"@, "y"@]);
}

/// The categories and the variants are short.
proof fn choices_are_short(text: Seq<char>)
    ensures
        categories().contains(text) ==> 1 <= text.len() <= 8,
        seq!["light"@, "dark"@].contains(text) ==> 1 <= text.len() <= 8,
{
    reveal_strlit("人物");
    reveal_strlit("动漫");
    reveal_strlit("游戏");
    reveal_strlit("风景");
    reveal_strlit("极简");
    reveal_strlit("节日");
    reveal_strlit("其他");
    reveal_strlit("light");
    reveal_strlit("dark");
}

proof fn focus_passes(focus: JsonModel)
    ensures
        focus_fault(focus) is None <==> sound_focus(focus),
{
    lists_in_words();
    closed_objects_pass(focus, seq!["x"@, "y"@], seq!["x"@, "y"@], "theme.backgroundFocus"@);
}

proof fn color_passes(theme: JsonModel, key: Seq<char>)
    ensures
        color_member_fault(theme, key) is None <==> colored(theme, key),
{
    if let Some(JsonModel::Text(text)) = theme.member(key) {
        colors_are(text, key);
    }
}

proof fn effects_pass(theme: JsonModel)
    ensures
        effects_fault(theme) is None <==> sound_effects(theme),
{
    lists_in_words();
    if let Some(effects) = theme.member("effects"@) {
        closed_objects_pass(effects, texts(EFFECT_FIELDS@), texts(NOTHING@), "theme.effects"@);
        overlay_passes(effects);
        accent_passes(effects);
    }
}

/// A list of triggers, however long, passes exactly where each is a known one and none stands
/// there twice.
pub proof fn trigger_list_passes(values: Seq<JsonModel>)
    ensures
        trigger_list_fault(values) is None <==> (forall|i: int|
            0 <= i < values.len() ==> (#[trigger] values[i]).text() is Some && texts(
                TRIGGERS@,
            ).contains(values[i].text()->0)) && values.no_duplicates(),
    decreases values.len(),
{
    if values.len() > 0 {
        let earlier = values.drop_last();
        let last = values.last();
        trigger_list_passes(earlier);
        assert(forall|i: int| 0 <= i < earlier.len() ==> earlier[i] == values[i]);
        assert(last == values[values.len() - 1]);
        if trigger_list_fault(values) is None {
            assert(last == JsonModel::Text(last.text()->0));
            assert forall|i: int, j: int|
                0 <= i < values.len() && 0 <= j < values.len() && i != j implies values[i]
                != values[j] by {
                if i == values.len() - 1 {
                    assert(earlier[j] == values[j]);
                    assert(!earlier.contains(last));
                } else if j == values.len() - 1 {
                    assert(earlier[i] == values[i]);
                    assert(!earlier.contains(last));
                } else {
                    assert(earlier[i] == values[i] && earlier[j] == values[j]);
                }
            }
        } else if (forall|i: int|
            0 <= i < values.len() ==> (#[trigger] values[i]).text() is Some && texts(
                TRIGGERS@,
            ).contains(values[i].text()->0)) && values.no_duplicates() {
            assert(last.text() is Some);
            assert(last == JsonModel::Text(last.text()->0));
            assert forall|i: int| 0 <= i < earlier.len() implies earlier[i] != last by {
                assert(earlier[i] == values[i]);
            }
            assert(!earlier.contains(last));
            assert forall|i: int| 0 <= i < earlier.len() implies (
            #[trigger] earlier[i]).text() is Some && texts(TRIGGERS@).contains(
                earlier[i].text()->0,
            ) by {
                assert(earlier[i] == values[i]);
            }
            assert(earlier.no_duplicates());
        }
    }
}

proof fn triggers_pass(value: JsonModel)
    ensures
        triggers_fault(value) is None <==> sound_triggers(value),
{
    triggers_are_known(value);
}

proof fn overlay_passes(effects: JsonModel)
    ensures
        overlay_fault(effects) is None <==> (effects.member("overlay"@) matches Some(overlay)
            ==> sound_overlay(overlay)),
{
    lists_in_words();
    if let Some(overlay) = effects.member("overlay"@) {
        let needs = seq!["image"@, "triggers"@];
        closed_objects_pass(
            overlay,
            texts(OVERLAY_FIELDS@),
            texts(IMAGE_REQUIRED@),
            "theme.effects.overlay"@,
        );
        assert(needs[1] == "triggers"@);
        if let Some(triggers) = overlay.member("triggers"@) {
            triggers_pass(triggers);
        }
        if let Some(position) = overlay.member("position"@) {
            focus_passes(position);
        }
    }
}

proof fn accent_passes(effects: JsonModel)
    ensures
        accent_fault(effects) is None <==> (effects.member("composerAccent"@) matches Some(accent)
            ==> sound_accent(accent)),
{
    lists_in_words();
    if let Some(accent) = effects.member("composerAccent"@) {
        let needs = seq!["image"@, "triggers"@];
        closed_objects_pass(
            accent,
            texts(ACCENT_FIELDS@),
            texts(IMAGE_REQUIRED@),
            "theme.effects.composerAccent"@,
        );
        assert(needs[1] == "triggers"@);
        if let Some(triggers) = accent.member("triggers"@) {
            triggers_pass(triggers);
        }
    }
}

proof fn semantic_passes(colors: JsonModel, key: Seq<char>)
    ensures
        crate::theme::semantic_fault(colors, key) is None <==> (colors.member(key) matches Some(
            JsonModel::Text(_),
        ) ==> colored(colors, key)),
{
    if let Some(JsonModel::Text(text)) = colors.member(key) {
        colors_are(text, key);
    }
}

proof fn look_passes(theme: JsonModel)
    ensures
        appearance_fault(theme) is None <==> sound_look(theme),
{
    lists_in_words();
    closed_objects_pass(theme, texts(THEME_FIELDS@), texts(THEME_REQUIRED@), "theme.theme"@);
    color_passes(theme, "accent"@);
    color_passes(theme, "ink"@);
    color_passes(theme, "surface"@);
    if let Some(fonts) = theme.member("fonts"@) {
        closed_objects_pass(fonts, texts(FONT_FIELDS@), texts(NOTHING@), "theme.fonts"@);
    }
    if let Some(colors) = theme.member("semanticColors"@) {
        closed_objects_pass(colors, texts(SEMANTIC_FIELDS@), texts(NOTHING@), "semanticColors"@);
        semantic_passes(colors, "diffAdded"@);
        semantic_passes(colors, "diffRemoved"@);
        semantic_passes(colors, "skill"@);
    }
    numbers_lie_in_range(theme, "contrast"@, "theme.contrast 越界。"@);
    numbers_lie_in_range(theme, "backgroundImageOpacity"@, "背景透明度越界。"@);
    numbers_lie_in_range(theme, "backgroundImageBlur"@, "背景模糊度越界。"@);
    if let Some(focus) = theme.member("backgroundFocus"@) {
        focus_passes(focus);
    }
    effects_pass(theme);
}

proof fn actions_pass(actions: Seq<JsonModel>)
    ensures
        action_list_fault(actions) is None <==> forall|i: int|
            0 <= i < actions.len() ==> sound_action(#[trigger] actions[i]),
    decreases actions.len(),
{
    if actions.len() > 0 {
        let rest = actions.skip(1);
        actions_pass(rest);
        lists_in_words();
        closed_objects_pass(
            actions[0],
            texts(ACTION_FIELDS@),
            texts(ACTION_REQUIRED@),
            "quickActions[]"@,
        );
        assert(action_fault(actions[0]) is None <==> sound_action(actions[0]));
        assert(forall|i: int| 0 <= i < rest.len() ==> rest[i] == actions[i + 1]);
        if action_list_fault(actions) is None {
            assert forall|i: int| 0 <= i < actions.len() implies sound_action(
                #[trigger] actions[i],
            ) by {
                if i > 0 {
                    assert(rest[i - 1] == actions[i]);
                }
            }
        }
    }
}

proof fn home_passes(home: JsonModel)
    ensures
        either(home_fault(home), pet_fault(home)) is None <==> sound_home(home),
{
    lists_in_words();
    closed_objects_pass(home, texts(HOME_FIELDS@), texts(HOME_REQUIRED@), "home"@);
    if let Some(JsonModel::Array(actions)) = home.member("quickActions"@) {
        actions_pass(actions);
    }
    if let Some(pet) = home.member("pet"@) {
        closed_objects_pass(pet, texts(PET_FIELDS@), texts(PET_REQUIRED@), "pet"@);
    }
}

proof fn manifest_passes(root: JsonModel, id: Seq<char>, versioned: bool)
    ensures
        look_fault(root, id, versioned) is None <==> sound_identity(root, id, versioned) && (
        root.member("theme"@) matches Some(theme) && sound_look(theme)),
        look_fault(root, id, versioned) is None ==> root.member("home"@) is Some,
{
    lists_in_words();
    closed_objects_pass(root, texts(MANIFEST_FIELDS@), texts(MANIFEST_REQUIRED@), "theme"@);
    assert(manifest_needs()[10] == "home"@);
    if let Some(theme) = root.member("theme"@) {
        look_passes(theme);
    }
    if let Some(JsonModel::Text(text)) = root.member("category"@) {
        choices_are_short(text);
    }
    if let Some(JsonModel::Text(text)) = root.member("variant"@) {
        choices_are_short(text);
    }
    if let Some(JsonModel::Text(text)) = root.member("codeThemeId"@) {
        assert(catalog_id(text) ==> 2 <= text.len() <= 64);
    }
}

/// The images of the look and the pet, in turn, are those that the manifest names.
proof fn images_in_turn(root: JsonModel)
    requires
        root.member("theme"@) is Some,
    ensures
        look_assets(root, root.member("theme"@)->0) + pet_asset(home_part(root)) == theme_assets(
            root,
        ),
{
    assert(look_assets(root, root.member("theme"@)->0) + pet_asset(home_part(root))
        =~= theme_assets(root));
}

/// A theme is accepted exactly when the text of its manifest is sound and each of the images
/// that it names was looked at and is sound.
pub proof fn accepted_themes(
    root: JsonModel,
    id: Seq<char>,
    versioned: bool,
    images: Seq<ImageModel>,
)
    ensures
        verdict(root, id, versioned, images) == StepModel::Finished(None) <==> {
            &&& sound_manifest(root, id, versioned)
            &&& theme_assets(root).len() <= images.len()
            &&& forall|i: int|
                0 <= i < theme_assets(root).len() ==> asset_fault(
                    #[trigger] theme_assets(root)[i],
                    images[i],
                ) is None
        },
{
    manifest_passes(root, id, versioned);
    home_passes(home_part(root));
    if root.member("theme"@) is Some {
        images_in_turn(root);
        accepted_with_images(root, id, versioned, images);
    }
}

proof fn accepted_with_images(
    root: JsonModel,
    id: Seq<char>,
    versioned: bool,
    images: Seq<ImageModel>,
)
    requires
        root.member("theme"@) is Some,
        look_assets(root, root.member("theme"@)->0) + pet_asset(home_part(root)) == theme_assets(
            root,
        ),
    ensures
        verdict(root, id, versioned, images) == StepModel::Finished(None) <==> {
            &&& look_fault(root, id, versioned) is None
            &&& either(home_fault(home_part(root)), pet_fault(home_part(root))) is None
            &&& theme_assets(root).len() <= images.len()
            &&& forall|i: int|
                0 <= i < theme_assets(root).len() ==> asset_fault(
                    #[trigger] theme_assets(root)[i],
                    images[i],
                ) is None
        },
{
    let look = look_assets(root, root.member("theme"@)->0);
    let pet = pet_asset(home_part(root));
    let all = theme_assets(root);
    let rest = left(images, look.len() as int);
    walk_passes(look, images);
    walk_passes(pet, rest);
    assert(forall|i: int| 0 <= i < look.len() ==> all[i] == look[i]);
    assert(forall|i: int| 0 <= i < pet.len() ==> all[look.len() + i] == pet[i]);
    if look.len() <= images.len() {
        assert(forall|i: int| 0 <= i < rest.len() ==> rest[i] == images[look.len() + i]);
    }
    if verdict(root, id, versioned, images) == StepModel::Finished(None) {
        assert forall|i: int| 0 <= i < all.len() implies asset_fault(
            #[trigger] all[i],
            images[i],
        ) is None by {
            if i >= look.len() {
                assert(pet[i - look.len()] == all[i]);
            } else {
                assert(look[i] == all[i]);
            }
        }
    } else if all.len() <= images.len() && forall|i: int|
        0 <= i < all.len() ==> asset_fault(#[trigger] all[i], images[i]) is None {
        assert forall|i: int| 0 <= i < look.len() implies asset_fault(
            #[trigger] look[i],
            images[i],
        ) is None by {
            assert(all[i] == look[i]);
        }
        assert forall|i: int| 0 <= i < pet.len() implies asset_fault(
            #[trigger] pet[i],
            rest[i],
        ) is None by {
            assert(all[look.len() + i] == pet[i]);
        }
    }
}

/// Once the check of a theme is over, whatever else is found does not change its outcome.
pub proof fn verdicts_settle(
    root: JsonModel,
    id: Seq<char>,
    versioned: bool,
    images: Seq<ImageModel>,
    more: Seq<ImageModel>,
)
    ensures
        verdict(root, id, versioned, images) is Finished ==> verdict(
            root,
            id,
            versioned,
            images + more,
        ) == verdict(root, id, versioned, images),
{
    let look = look_assets(root, root.member("theme"@)->0);
    let pet = pet_asset(home_part(root));
    walk_settles(look, images, more);
    walk_passes(look, images);
    if look.len() <= images.len() {
        let rest = left(images, look.len() as int);
        walk_settles(pet, rest, more);
        assert(left(images + more, look.len() as int) =~= rest + more);
    }
}

/// The check of a theme looks at no more than six images, at each of them once and in order,
/// and only by a path that leads into the image's directory.
pub proof fn bounded_reads(
    root: JsonModel,
    id: Seq<char>,
    versioned: bool,
    images: Seq<ImageModel>,
)
    ensures
        verdict(root, id, versioned, images) matches StepModel::Read(asset) ==> {
            &&& images.len() < theme_assets(root).len() <= 6
            &&& asset == theme_assets(root)[images.len() as int]
            &&& asset_path(asset.relative, asset.directory)
        },
{
    let look = look_assets(root, root.member("theme"@)->0);
    let pet = pet_asset(home_part(root));
    if look_fault(root, id, versioned) is None {
        images_in_turn(root);
    }
    walk_reads(look, images);
    walk_passes(look, images);
    walk_reads(pet, left(images, look.len() as int));
}

/// Whether a fault is the first of a list of faults, or none where the list holds none.
pub open spec fn first_of(faults: Seq<Option<ErrorModel>>, fault: Option<ErrorModel>) -> bool {
    &&& (forall|k: int| 0 <= k < faults.len() ==> (#[trigger] faults[k]) is None) ==> fault is None
    &&& forall|k: int|
        0 <= k < faults.len() && (#[trigger] faults[k]) is Some && (forall|j: int|
            0 <= j < k ==> (#[trigger] faults[j]) is None) ==> fault == faults[k]
}

/// The error where a condition does not hold.
pub open spec fn refused_unless(holds: bool, text: Seq<char>) -> Option<ErrorModel> {
    if holds {
        None
    } else {
        Some(ErrorModel::Message(text))
    }
}

/// A manifest is refused for the first thing in it that is wrong: its members, then its schema's
/// version, its identifier, its version, its names, its category, its variant.
pub proof fn identities_are_checked_in_order(root: JsonModel, id: Seq<char>, versioned: bool)
    ensures
        first_of(
            seq![
                object_fault(root, manifest_members(), manifest_needs(), "theme"@),
                refused_unless(
                    root.member("schemaVersion"@) == Some(JsonModel::Unsigned(1)),
                    "远程主题必须使用 schemaVersion 1："@ + id,
                ),
                text_fault(root, "codeThemeId"@, 64),
                refused_unless(
                    root.member("codeThemeId"@) == Some(JsonModel::Text(id)) && catalog_id(id),
                    "主题 ID 与索引不一致："@ + id,
                ),
                text_fault(root, "version"@, 64),
                refused_unless(versioned, "主题版本无效："@ + id),
                text_fault(root, "displayName"@, 60),
                text_fault(root, "description"@, 120),
                text_fault(root, "author"@, 60),
                text_fault(root, "category"@, 8),
                refused_unless(
                    among(root, "category"@, categories()),
                    "主题分类无效："@ + id,
                ),
                text_fault(root, "variant"@, 8),
                refused_unless(
                    among(root, "variant"@, seq!["light"@, "dark"@]),
                    "主题模式无效："@ + id,
                ),
            ],
            identity_fault(root, id, versioned),
        ),
{
    lists_in_words();
    let faults = seq![
        object_fault(root, manifest_members(), manifest_needs(), "theme"@),
        refused_unless(
            root.member("schemaVersion"@) == Some(JsonModel::Unsigned(1)),
            "远程主题必须使用 schemaVersion 1："@ + id,
        ),
        text_fault(root, "codeThemeId"@, 64),
        refused_unless(
            root.member("codeThemeId"@) == Some(JsonModel::Text(id)) && catalog_id(id),
            "主题 ID 与索引不一致："@ + id,
        ),
        text_fault(root, "version"@, 64),
        refused_unless(versioned, "主题版本无效："@ + id),
        text_fault(root, "displayName"@, 60),
        text_fault(root, "description"@, 120),
        text_fault(root, "author"@, 60),
        text_fault(root, "category"@, 8),
        refused_unless(among(root, "category"@, categories()), "主题分类无效："@ + id),
        text_fault(root, "variant"@, 8),
        refused_unless(
            among(root, "variant"@, seq!["light"@, "dark"@]),
            "主题模式无效："@ + id,
        ),
    ];
    assert(faults[0] == faults[0] && faults[1] == faults[1] && faults[2] == faults[2] && faults[3]
        == faults[3] && faults[4] == faults[4] && faults[5] == faults[5] && faults[6] == faults[6]
        && faults[7] == faults[7] && faults[8] == faults[8] && faults[9] == faults[9] && faults[10]
        == faults[10] && faults[11] == faults[11] && faults[12] == faults[12]);
}

/// An appearance is refused for the first thing in it that is wrong: its members, its colours, its
/// fonts, its colours with a meaning, its numbers, its background, its effects.
pub proof fn looks_are_checked_in_order(theme: JsonModel)
    ensures
        first_of(
            seq![
                object_fault(
                    theme,
                    look_members(),
                    seq!["accent"@, "ink"@, "surface"@],
                    "theme.theme"@,
                ),
                color_member_fault(theme, "accent"@),
                color_member_fault(theme, "ink"@),
                color_member_fault(theme, "surface"@),
                fonts_fault(theme),
                semantics_fault(theme),
                range_fault(
                    theme,
                    "contrast"@,
                    100,
                    0x4059_0000_0000_0000,
                    "theme.contrast 越界。"@,
                ),
                range_fault(
                    theme,
                    "backgroundImageOpacity"@,
                    1,
                    0x3FF0_0000_0000_0000,
                    "背景透明度越界。"@,
                ),
                range_fault(
                    theme,
                    "backgroundImageBlur"@,
                    24,
                    0x4038_0000_0000_0000,
                    "背景模糊度越界。"@,
                ),
                choice_fault(
                    theme,
                    "backgroundPosition"@,
                    positions(),
                    "背景定位值必须是字符串。"@,
                    "背景定位值无效。"@,
                ),
                match theme.member("backgroundFocus"@) {
                    Some(focus) => focus_fault(focus),
                    None => None,
                },
                choice_fault(
                    theme,
                    "visualIntensity"@,
                    seq!["clear"@, "balanced"@, "immersive"@],
                    "视觉强度必须是字符串。"@,
                    "视觉强度无效。"@,
                ),
                effects_fault(theme),
            ],
            appearance_fault(theme),
        ),
{
    lists_in_words();
    let faults = seq![
        object_fault(theme, look_members(), seq!["accent"@, "ink"@, "surface"@], "theme.theme"@),
        color_member_fault(theme, "accent"@),
        color_member_fault(theme, "ink"@),
        color_member_fault(theme, "surface"@),
        fonts_fault(theme),
        semantics_fault(theme),
        range_fault(theme, "contrast"@, 100, 0x4059_0000_0000_0000, "theme.contrast 越界。"@),
        range_fault(
            theme,
            "backgroundImageOpacity"@,
            1,
            0x3FF0_0000_0000_0000,
            "背景透明度越界。"@,
        ),
        range_fault(
            theme,
            "backgroundImageBlur"@,
            24,
            0x4038_0000_0000_0000,
            "背景模糊度越界。"@,
        ),
        choice_fault(
            theme,
            "backgroundPosition"@,
            positions(),
            "背景定位值必须是字符串。"@,
            "背景定位值无效。"@,
        ),
        match theme.member("backgroundFocus"@) {
            Some(focus) => focus_fault(focus),
            None => None,
        },
        choice_fault(
            theme,
            "visualIntensity"@,
            seq!["clear"@, "balanced"@, "immersive"@],
            "视觉强度必须是字符串。"@,
            "视觉强度无效。"@,
        ),
        effects_fault(theme),
    ];
    assert(faults[0] == faults[0] && faults[1] == faults[1] && faults[2] == faults[2] && faults[3]
        == faults[3] && faults[4] == faults[4] && faults[5] == faults[5] && faults[6] == faults[6]
        && faults[7] == faults[7] && faults[8] == faults[8] && faults[9] == faults[9] && faults[10]
        == faults[10] && faults[11] == faults[11] && faults[12] == faults[12]);
}

/// A colour, a font or a colour with a meaning is refused by its own name.
pub proof fn colors_and_fonts_are_named(theme: JsonModel, key: Seq<char>, text: Seq<char>)
    ensures
        theme.member(key) == Some(JsonModel::Text(text)) && 1 <= text.len() <= 7 && !colored(
            theme,
            key,
        ) ==> color_member_fault(theme, key) == Some(
            ErrorModel::Message(key + " 颜色无效。"@),
        ),
        text_fault(theme, key, 7) is Some ==> color_member_fault(theme, key) == text_fault(
            theme,
            key,
            7,
        ),
        theme.member("fonts"@) matches Some(fonts) ==> {
            let open = object_fault(
                fonts,
                seq!["ui"@, "code"@, "display"@],
                Seq::empty(),
                "theme.fonts"@,
            );
            &&& open is Some ==> fonts_fault(theme) == open
            &&& open is None && fonts.member("ui"@) is Some && !(fonts.member("ui"@)->0 is Text)
                ==> fonts_fault(theme) == Some(
                ErrorModel::Message("theme.fonts."@ + "ui"@ + " 必须是字符串。"@),
            )
            &&& open is None && sound_font(fonts, "ui"@) && fonts.member("code"@) is Some && !(
            fonts.member("code"@)->0 is Text) ==> fonts_fault(theme) == Some(
                ErrorModel::Message("theme.fonts."@ + "code"@ + " 必须是字符串。"@),
            )
            &&& open is None && sound_font(fonts, "ui"@) && sound_font(fonts, "code"@)
                && fonts.member("display"@) is Some && !(fonts.member("display"@)->0 is Text)
                ==> fonts_fault(theme) == Some(
                ErrorModel::Message("theme.fonts."@ + "display"@ + " 必须是字符串。"@),
            )
            &&& open is None && fonts_fault(theme) is Some && (forall|k: Seq<char>| #[trigger]
                fonts.member(k) is Some ==> fonts.member(k)->0 is Text) ==> fonts_fault(theme)
                == Some(ErrorModel::Message("主题字体配置无效。"@))
        },
        theme.member("semanticColors"@) matches Some(colors) ==> {
            let open = object_fault(
                colors,
                seq!["diffAdded"@, "diffRemoved"@, "skill"@],
                Seq::empty(),
                "semanticColors"@,
            );
            &&& open is Some ==> semantics_fault(theme) == open
            &&& open is None && semantics_fault(theme) is Some ==> semantics_fault(theme) == Some(
                ErrorModel::Message(
                    (if colors.member("diffAdded"@) is Some && colors.member("diffAdded"@)->0 is Text
                        && !colored(colors, "diffAdded"@) {
                        "diffAdded"@
                    } else if colors.member("diffRemoved"@) is Some && colors.member(
                        "diffRemoved"@,
                    )->0 is Text && !colored(colors, "diffRemoved"@) {
                        "diffRemoved"@
                    } else {
                        "skill"@
                    }) + " 颜色无效。"@,
                ),
            )
        },
{
    lists_in_words();
    if theme.member(key) == Some(JsonModel::Text(text)) {
        colors_are(text, key);
    }
    if let Some(colors) = theme.member("semanticColors"@) {
        semantic_passes(colors, "diffAdded"@);
        semantic_passes(colors, "diffRemoved"@);
        semantic_passes(colors, "skill"@);
    }
}

/// Effects are refused for the first thing in them that is wrong, and so are an overlay and an
/// accent of the composer.
pub proof fn effects_are_checked_in_order(theme: JsonModel, effects: JsonModel)
    requires
        theme.member("effects"@) == Some(effects),
    ensures
        first_of(
            seq![
                object_fault(
                    effects,
                    seq!["ambient"@, "intensity"@, "overlay"@, "composerAccent"@],
                    Seq::empty(),
                    "theme.effects"@,
                ),
                choice_fault(
                    effects,
                    "ambient"@,
                    seq!["none"@, "rain"@, "particles"@, "storm"@],
                    "氛围特效必须是字符串。"@,
                    "氛围特效无效。"@,
                ),
                choice_fault(
                    effects,
                    "intensity"@,
                    seq!["subtle"@, "balanced"@, "vivid"@],
                    "特效强度必须是字符串。"@,
                    "特效强度无效。"@,
                ),
                overlay_fault(effects),
                accent_fault(effects),
            ],
            effects_fault(theme),
        ),
        effects.member("overlay"@) matches Some(overlay) ==> first_of(
            seq![
                object_fault(
                    overlay,
                    seq!["image"@, "triggers"@, "position"@, "widthPercent"@],
                    seq!["image"@, "triggers"@],
                    "theme.effects.overlay"@,
                ),
                match overlay.member("triggers"@) {
                    Some(triggers) => triggers_fault(triggers),
                    None => None,
                },
                match overlay.member("position"@) {
                    Some(position) => focus_fault(position),
                    None => None,
                },
                integer_fault(
                    overlay,
                    "widthPercent"@,
                    10,
                    80,
                    "瞬时叠加素材宽度必须是整数。"@,
                    "瞬时叠加素材宽度越界。"@,
                ),
            ],
            overlay_fault(effects),
        ),
        effects.member("composerAccent"@) matches Some(accent) ==> first_of(
            seq![
                object_fault(
                    accent,
                    seq!["image"@, "triggers"@, "widthPx"@],
                    seq!["image"@, "triggers"@],
                    "theme.effects.composerAccent"@,
                ),
                match accent.member("triggers"@) {
                    Some(triggers) => triggers_fault(triggers),
                    None => None,
                },
                integer_fault(
                    accent,
                    "widthPx"@,
                    48,
                    240,
                    "输入框装饰素材宽度必须是整数。"@,
                    "输入框装饰素材宽度越界。"@,
                ),
            ],
            accent_fault(effects),
        ),
{
    lists_in_words();
    let faults = seq![
        object_fault(
            effects,
            seq!["ambient"@, "intensity"@, "overlay"@, "composerAccent"@],
            Seq::empty(),
            "theme.effects"@,
        ),
        choice_fault(
            effects,
            "ambient"@,
            seq!["none"@, "rain"@, "particles"@, "storm"@],
            "氛围特效必须是字符串。"@,
            "氛围特效无效。"@,
        ),
        choice_fault(
            effects,
            "intensity"@,
            seq!["subtle"@, "balanced"@, "vivid"@],
            "特效强度必须是字符串。"@,
            "特效强度无效。"@,
        ),
        overlay_fault(effects),
        accent_fault(effects),
    ];
    assert(faults[0] == faults[0] && faults[1] == faults[1] && faults[2] == faults[2] && faults[3]
        == faults[3] && faults[4] == faults[4]);
    if let Some(overlay) = effects.member("overlay"@) {
        let list = seq![
            object_fault(
                overlay,
                seq!["image"@, "triggers"@, "position"@, "widthPercent"@],
                seq!["image"@, "triggers"@],
                "theme.effects.overlay"@,
            ),
            match overlay.member("triggers"@) {
                Some(triggers) => triggers_fault(triggers),
                None => None,
            },
            match overlay.member("position"@) {
                Some(position) => focus_fault(position),
                None => None,
            },
            integer_fault(
                overlay,
                "widthPercent"@,
                10,
                80,
                "瞬时叠加素材宽度必须是整数。"@,
                "瞬时叠加素材宽度越界。"@,
            ),
        ];
        assert(list[0] == list[0] && list[1] == list[1] && list[2] == list[2] && list[3] == list[3]);
    }
    if let Some(accent) = effects.member("composerAccent"@) {
        let list = seq![
            object_fault(
                accent,
                seq!["image"@, "triggers"@, "widthPx"@],
                seq!["image"@, "triggers"@],
                "theme.effects.composerAccent"@,
            ),
            match accent.member("triggers"@) {
                Some(triggers) => triggers_fault(triggers),
                None => None,
            },
            integer_fault(
                accent,
                "widthPx"@,
                48,
                240,
                "输入框装饰素材宽度必须是整数。"@,
                "输入框装饰素材宽度越界。"@,
            ),
        ];
        assert(list[0] == list[0] && list[1] == list[1] && list[2] == list[2]);
    }
}

/// The fault of an action as the schema gives it.
pub open spec fn action_refusal(action: JsonModel) -> Option<ErrorModel> {
    either(
        object_fault(
            action,
            seq!["icon"@, "title"@, "description"@, "prompt"@],
            seq!["title"@, "prompt"@],
            "quickActions[]"@,
        ),
        either(text_fault(action, "title"@, 200), text_fault(action, "prompt"@, 1000)),
    )
}

/// A home screen is refused for the first thing in it that is wrong: its members, its brand, its
/// title, its quick actions in their order; and then its pet.
pub proof fn homes_are_checked_in_order(home: JsonModel)
    ensures
        first_of(
            seq![
                object_fault(
                    home,
                    home_members(),
                    seq!["brand"@, "title"@, "quickActions"@],
                    "home"@,
                ),
                text_fault(home, "brand"@, 200),
                text_fault(home, "title"@, 200),
                refused_unless(
                    home.member("quickActions"@) is Some && home.member(
                        "quickActions"@,
                    )->0 is Array,
                    "quickActions 必须是数组。"@,
                ),
                refused_unless(
                    home.member("quickActions"@) matches Some(JsonModel::Array(list)) && list.len()
                        == 4,
                    "quickActions 必须包含 4 项。"@,
                ),
                action_refusal(home.member("quickActions"@)->0->Array_0[0]),
                action_refusal(home.member("quickActions"@)->0->Array_0[1]),
                action_refusal(home.member("quickActions"@)->0->Array_0[2]),
                action_refusal(home.member("quickActions"@)->0->Array_0[3]),
            ],
            home_fault(home),
        ),
        home.member("pet"@) is None ==> pet_fault(home) is None,
        home.member("pet"@) matches Some(pet) ==> first_of(
            seq![
                object_fault(pet, seq!["image"@, "alt"@, "size"@], seq!["image"@], "pet"@),
                text_fault(pet, "image"@, 180),
            ],
            pet_fault(home),
        ),
{
    lists_in_words();
    let actions = home.member("quickActions"@)->0->Array_0;
    let faults = seq![
        object_fault(home, home_members(), seq!["brand"@, "title"@, "quickActions"@], "home"@),
        text_fault(home, "brand"@, 200),
        text_fault(home, "title"@, 200),
        refused_unless(
            home.member("quickActions"@) is Some && home.member("quickActions"@)->0 is Array,
            "quickActions 必须是数组。"@,
        ),
        refused_unless(
            home.member("quickActions"@) matches Some(JsonModel::Array(list)) && list.len() == 4,
            "quickActions 必须包含 4 项。"@,
        ),
        action_refusal(actions[0]),
        action_refusal(actions[1]),
        action_refusal(actions[2]),
        action_refusal(actions[3]),
    ];
    assert(faults[0] == faults[0] && faults[1] == faults[1] && faults[2] == faults[2] && faults[3]
        == faults[3] && faults[4] == faults[4] && faults[5] == faults[5] && faults[6] == faults[6]
        && faults[7] == faults[7] && faults[8] == faults[8]);
    if home.member("quickActions"@) is Some && home.member("quickActions"@)->0 is Array
        && actions.len() == 4 {
        reveal_with_fuel(action_list_fault, 5);
        assert(actions.skip(1)[0] == actions[1]);
        assert(actions.skip(1).skip(1)[0] == actions[2]);
        assert(actions.skip(1).skip(1).skip(1)[0] == actions[3]);
        assert(action_fault(actions[0]) == action_refusal(actions[0]));
        assert(action_list_fault(actions) == either(
            action_refusal(actions[0]),
            either(
                action_refusal(actions[1]),
                either(action_refusal(actions[2]), action_refusal(actions[3])),
            ),
        ));
    }
    if let Some(pet) = home.member("pet"@) {
        let list = seq![
            object_fault(pet, seq!["image"@, "alt"@, "size"@], seq!["image"@], "pet"@),
            text_fault(pet, "image"@, 180),
        ];
        assert(list[0] == list[0] && list[1] == list[1]);
    }
}

/// The text of a manifest is checked from its identity over its appearance to the name of its
/// preview, before any image is looked at; its home screen is checked after the images of its
/// look, and the image of its pet last.
pub proof fn themes_are_checked_in_order(
    root: JsonModel,
    id: Seq<char>,
    known: bool,
    images: Seq<ImageModel>,
)
    ensures
        identity_fault(root, id, known) is Some ==> verdict(root, id, known, images)
            == StepModel::Finished(identity_fault(root, id, known)),
        identity_fault(root, id, known) is None ==> root.member("theme"@) is Some,
        identity_fault(root, id, known) is None ==> {
            let theme = root.member("theme"@)->0;
            &&& appearance_fault(theme) is Some ==> verdict(root, id, known, images)
                == StepModel::Finished(appearance_fault(theme))
            &&& appearance_fault(theme) is None && text_fault(root, "previewImage"@, 180) is Some
                ==> verdict(root, id, known, images) == StepModel::Finished(
                text_fault(root, "previewImage"@, 180),
            )
        },
        look_fault(root, id, known) is None ==> {
            let n = look_assets(root, root.member("theme"@)->0).len();
            let home = root.member("home"@)->0;
            &&& forall|i: int|
                0 <= i < n ==> #[trigger] theme_assets(root)[i] == look_assets(
                    root,
                    root.member("theme"@)->0,
                )[i]
            &&& n <= images.len() && (forall|i: int|
                0 <= i < n ==> asset_fault(#[trigger] theme_assets(root)[i], images[i]) is None)
                ==> {
                &&& home_fault(home) is Some ==> verdict(root, id, known, images)
                    == StepModel::Finished(home_fault(home))
                &&& home_fault(home) is None && pet_fault(home) is Some ==> verdict(
                    root,
                    id,
                    known,
                    images,
                ) == StepModel::Finished(pet_fault(home))
            }
        },
        versioned(root) <==> (root.member("version"@) matches Some(JsonModel::Text(text))
            && crate::outside::semantic_version(text)),
{
    lists_in_words();
    closed_objects_pass(root, texts(MANIFEST_FIELDS@), texts(MANIFEST_REQUIRED@), "theme"@);
    assert(manifest_needs()[9] == "theme"@);
    manifest_passes(root, id, known);
    if look_fault(root, id, known) is None {
        images_in_turn(root);
        let look = look_assets(root, root.member("theme"@)->0);
        walk_passes(look, images);
        assert(forall|i: int| 0 <= i < look.len() ==> #[trigger] theme_assets(root)[i] == look[i]);
        if look.len() <= images.len() && forall|i: int|
            0 <= i < look.len() ==> asset_fault(#[trigger] theme_assets(root)[i], images[i]) is None {
            assert forall|i: int| 0 <= i < look.len() implies asset_fault(
                #[trigger] look[i],
                images[i],
            ) is None by {
                assert(theme_assets(root)[i] == look[i]);
            }
        }
    }
}

} // verus!
