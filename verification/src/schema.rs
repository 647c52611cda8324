//! The building blocks of the document schemas: closed objects, texts of bounded length,
//! choices, numbers in a range.

use crate::error::{broken, either, fault, AppError, ErrorModel};
use crate::json::{member_models, models, object_model, Json, JsonModel};
use crate::text::{chars_of, join2, join3, one_of, same, texts};
use vstd::prelude::*;

verus! {

/// The name of the first member that is not among `allowed`.
pub open spec fn first_unknown(
    members: Seq<(Seq<char>, JsonModel)>,
    allowed: Seq<Seq<char>>,
) -> Option<Seq<char>>
    decreases members.len(),
{
    if members.len() == 0 {
        None
    } else if !allowed.contains(members[0].0) {
        Some(members[0].0)
    } else {
        first_unknown(members.skip(1), allowed)
    }
}

/// The first of the `required` names that no member has.
pub open spec fn first_missing(value: JsonModel, required: Seq<Seq<char>>) -> Option<Seq<char>>
    decreases required.len(),
{
    if required.len() == 0 {
        None
    } else if value.member(required[0]) is None {
        Some(required[0])
    } else {
        first_missing(value, required.skip(1))
    }
}

/// What keeps a value from being an object with the required members and no others than the
/// allowed ones.
pub open spec fn object_fault(
    value: JsonModel,
    allowed: Seq<Seq<char>>,
    required: Seq<Seq<char>>,
    path: Seq<char>,
) -> Option<ErrorModel> {
    match value {
        JsonModel::Object(members) => match first_unknown(members, allowed) {
            Some(key) => broken(path + " 包含未知字段："@ + key),
            None => match first_missing(value, required) {
                Some(key) => broken(path + " 缺少字段："@ + key),
                None => None,
            },
        },
        _ => broken(path + " 必须是对象。"@),
    }
}

/// An object with the required members and no others than the allowed ones.
pub open spec fn closed(
    value: JsonModel,
    allowed: Seq<Seq<char>>,
    required: Seq<Seq<char>>,
) -> bool {
    &&& value is Object
    &&& forall|i: int|
        0 <= i < value->Object_0.len() ==> allowed.contains((#[trigger] value->Object_0[i]).0)
    &&& forall|i: int|
        0 <= i < required.len() ==> value.member(#[trigger] required[i]) is Some
}

proof fn unknown_members(members: Seq<(Seq<char>, JsonModel)>, allowed: Seq<Seq<char>>)
    ensures
        first_unknown(members, allowed) is None <==> forall|i: int|
            0 <= i < members.len() ==> allowed.contains((#[trigger] members[i]).0),
    decreases members.len(),
{
    if members.len() > 0 {
        let rest = members.skip(1);
        unknown_members(rest, allowed);
        if first_unknown(members, allowed) is None {
            assert forall|i: int| 0 <= i < members.len() implies allowed.contains(
                (#[trigger] members[i]).0,
            ) by {
                if i > 0 {
                    assert(members[i] == rest[i - 1]);
                }
            }
        }
        if forall|i: int| 0 <= i < members.len() ==> allowed.contains((#[trigger] members[i]).0) {
            assert(allowed.contains(members[0].0));
            assert forall|i: int| 0 <= i < rest.len() implies allowed.contains(
                (#[trigger] rest[i]).0,
            ) by {
                assert(rest[i] == members[i + 1]);
            }
        }
    }
}

proof fn missing_members(value: JsonModel, required: Seq<Seq<char>>)
    ensures
        first_missing(value, required) is None <==> forall|i: int|
            0 <= i < required.len() ==> value.member(#[trigger] required[i]) is Some,
    decreases required.len(),
{
    if required.len() > 0 {
        let rest = required.skip(1);
        missing_members(value, rest);
        if first_missing(value, required) is None {
            assert forall|i: int| 0 <= i < required.len() implies value.member(
                #[trigger] required[i],
            ) is Some by {
                if i > 0 {
                    assert(required[i] == rest[i - 1]);
                }
            }
        }
        if forall|i: int| 0 <= i < required.len() ==> value.member(#[trigger] required[i]) is Some {
            assert(value.member(required[0]) is Some);
            assert forall|i: int| 0 <= i < rest.len() implies value.member(
                #[trigger] rest[i],
            ) is Some by {
                assert(rest[i] == required[i + 1]);
            }
        }
    }
}

/// A value passes exactly where it is a closed object.
pub proof fn closed_objects_pass(
    value: JsonModel,
    allowed: Seq<Seq<char>>,
    required: Seq<Seq<char>>,
    path: Seq<char>,
)
    ensures
        object_fault(value, allowed, required, path) is None <==> closed(value, allowed, required),
{
    if value is Object {
        unknown_members(value->Object_0, allowed);
        missing_members(value, required);
    }
}

fn unknown_key<'a>(members: &'a Vec<(String, Json)>, allowed: &[&str]) -> (r: Option<&'a str>)
    ensures
        match r {
            Some(key) => first_unknown(member_models(members@), texts(allowed@)) == Some(key@),
            None => first_unknown(member_models(members@), texts(allowed@)) is None,
        },
{
    let ghost whole = member_models(members@);
    let mut i: usize = 0;
    assert(whole.skip(0) =~= whole);
    while i < members.len()
        invariant
            i <= members@.len(),
            whole == member_models(members@),
            first_unknown(whole, texts(allowed@)) == first_unknown(
                whole.skip(i as int),
                texts(allowed@),
            ),
        decreases members@.len() - i,
    {
        assert(whole.skip(i as int).skip(1) =~= whole.skip(i + 1));
        if !one_of(&members[i].0, allowed) {
            return Some(members[i].0.as_str());
        }
        i += 1;
    }
    None
}

fn missing_key<'a>(value: &Json, required: &[&'a str]) -> (r: Option<&'a str>)
    ensures
        match r {
            Some(key) => first_missing(value@, texts(required@)) == Some(key@),
            None => first_missing(value@, texts(required@)) is None,
        },
{
    let ghost whole = texts(required@);
    let mut i: usize = 0;
    assert(whole.skip(0) =~= whole);
    while i < required.len()
        invariant
            i <= required@.len(),
            whole == texts(required@),
            first_missing(value@, whole) == first_missing(value@, whole.skip(i as int)),
        decreases required@.len() - i,
    {
        assert(whole.skip(i as int).skip(1) =~= whole.skip(i + 1));
        if value.get(required[i]).is_none() {
            return Some(required[i]);
        }
        i += 1;
    }
    None
}

/// Checks that a value is an object with the required members and no others than the allowed
/// ones.
pub fn closed_object(value: &Json, allowed: &[&str], required: &[&str], path: &str) -> (r: Result<
    (),
    AppError,
>)
    ensures
        fault(r) == object_fault(value@, texts(allowed@), texts(required@), path@),
{
    match value {
        Json::Object(members) => {
            proof {
                object_model(*members);
            }
            match unknown_key(members, allowed) {
                Some(key) => Err(AppError::Message(join3(path, " 包含未知字段：", key))),
                None => match missing_key(value, required) {
                    Some(key) => Err(AppError::Message(join3(path, " 缺少字段：", key))),
                    None => Ok(()),
                },
            }
        },
        _ => Err(AppError::Message(join2(path, " 必须是对象。"))),
    }
}

/// What keeps a member from being a text of 1 to `max` characters.
pub open spec fn text_fault(value: JsonModel, key: Seq<char>, max: nat) -> Option<ErrorModel> {
    match value.text_member(key) {
        Some(text) => if 0 < text.len() <= max {
            None
        } else {
            broken(key + " 长度无效。"@)
        },
        None => broken(key + " 必须是字符串。"@),
    }
}

/// A member that is a text of 1 to `max` characters.
pub fn required_text<'a>(value: &'a Json, key: &str, max: usize) -> (r: Result<&'a str, AppError>)
    ensures
        fault(r) == text_fault(value@, key@, max as nat),
        r is Ok ==> value@.text_member(key@) == Some(r->Ok_0@),
{
    match value.text_at(key) {
        Some(text) => {
            let n: usize = chars_of(text).len();
            if n == 0 || n > max {
                Err(AppError::Message(join2(key, " 长度无效。")))
            } else {
                Ok(text)
            }
        },
        None => Err(AppError::Message(join2(key, " 必须是字符串。"))),
    }
}

/// What keeps a member, where there is one, from being one of the given texts.
pub open spec fn choice_fault(
    value: JsonModel,
    key: Seq<char>,
    choices: Seq<Seq<char>>,
    no_text: Seq<char>,
    no_choice: Seq<char>,
) -> Option<ErrorModel> {
    match value.member(key) {
        Some(member) => match member.text() {
            Some(text) => if choices.contains(text) {
                None
            } else {
                broken(no_choice)
            },
            None => broken(no_text),
        },
        None => None,
    }
}

/// Checks that a member, where there is one, is one of the given texts.
pub fn optional_choice(
    value: &Json,
    key: &str,
    choices: &[&str],
    no_text: &str,
    no_choice: &str,
) -> (r: Result<(), AppError>)
    ensures
        fault(r) == choice_fault(value@, key@, texts(choices@), no_text@, no_choice@),
{
    match value.get(key) {
        Some(member) => match member.as_text() {
            Some(text) => if one_of(text, choices) {
                Ok(())
            } else {
                Err(AppError::Message(no_choice.to_owned()))
            },
            None => Err(AppError::Message(no_text.to_owned())),
        },
        None => Ok(()),
    }
}

/// Whether a number, if the value is one, lies from zero to `limit`, whose double has the bits
/// `limit_bits`.
///
/// The bits of doubles that are not negative are ordered as the doubles are, and zero has two
/// forms.
pub open spec fn in_range(value: JsonModel, limit: u64, limit_bits: u64) -> bool {
    match value {
        JsonModel::Unsigned(n) => n <= limit,
        JsonModel::Negative(_) => false,
        JsonModel::Float(bits) => bits <= limit_bits || bits == 0x8000_0000_0000_0000,
        _ => true,
    }
}

/// What keeps a member that is a number from lying in its range.
pub open spec fn range_fault(
    value: JsonModel,
    key: Seq<char>,
    limit: u64,
    limit_bits: u64,
    text: Seq<char>,
) -> Option<ErrorModel> {
    match value.member(key) {
        Some(member) => if in_range(member, limit, limit_bits) {
            None
        } else {
            broken(text)
        },
        None => None,
    }
}

/// Checks that a member that is a number lies in its range.
pub fn optional_range(value: &Json, key: &str, limit: u64, limit_bits: u64, text: &str) -> (r: Result<
    (),
    AppError,
>)
    ensures
        fault(r) == range_fault(value@, key@, limit, limit_bits, text@),
{
    match value.get(key) {
        Some(member) => {
            let inside = match member {
                Json::Unsigned(n) => *n <= limit,
                Json::Negative(_) => false,
                Json::Float(bits) => *bits <= limit_bits || *bits == 0x8000_0000_0000_0000,
                _ => true,
            };
            if inside {
                Ok(())
            } else {
                Err(AppError::Message(text.to_owned()))
            }
        },
        None => Ok(()),
    }
}

/// What keeps a member, where there is one, from being an integer from `least` to `most`.
pub open spec fn integer_fault(
    value: JsonModel,
    key: Seq<char>,
    least: u64,
    most: u64,
    no_integer: Seq<char>,
    out_of_range: Seq<char>,
) -> Option<ErrorModel> {
    match value.member(key) {
        Some(member) => match member.unsigned() {
            Some(n) => if least <= n <= most {
                None
            } else {
                broken(out_of_range)
            },
            None => broken(no_integer),
        },
        None => None,
    }
}

/// Checks that a member, where there is one, is an integer from `least` to `most`.
pub fn optional_integer(
    value: &Json,
    key: &str,
    least: u64,
    most: u64,
    no_integer: &str,
    out_of_range: &str,
) -> (r: Result<(), AppError>)
    ensures
        fault(r) == integer_fault(value@, key@, least, most, no_integer@, out_of_range@),
{
    match value.get(key) {
        Some(member) => match member.as_unsigned() {
            Some(n) => if least <= n && n <= most {
                Ok(())
            } else {
                Err(AppError::Message(out_of_range.to_owned()))
            },
            None => Err(AppError::Message(no_integer.to_owned())),
        },
        None => Ok(()),
    }
}

/// The coordinates of a focus.
pub const FOCUS_FIELDS: [&'static str; 2] = ["x", "y"];

/// What keeps a coordinate from being an integer from 0 to 100.
pub open spec fn axis_fault(focus: JsonModel, axis: Seq<char>) -> Option<ErrorModel> {
    match focus.unsigned_member(axis) {
        Some(n) => if n <= 100 {
            None
        } else {
            broken("背景焦点 "@ + axis + " 必须是 0–100 的整数。"@)
        },
        None => broken("背景焦点 "@ + axis + " 必须是 0–100 的整数。"@),
    }
}

/// What keeps a value from being a focus: two coordinates from 0 to 100 and nothing else.
pub open spec fn focus_fault(focus: JsonModel) -> Option<ErrorModel> {
    either(
        object_fault(focus, texts(FOCUS_FIELDS@), texts(FOCUS_FIELDS@), "theme.backgroundFocus"@),
        either(axis_fault(focus, "x"@), axis_fault(focus, "y"@)),
    )
}

fn check_axis(focus: &Json, axis: &str) -> (r: Result<(), AppError>)
    ensures
        fault(r) == axis_fault(focus@, axis@),
{
    match focus.unsigned_at(axis) {
        Some(n) => {
            if n <= 100 {
                return Ok(());
            }
        },
        None => {},
    }
    Err(AppError::Message(join3("背景焦点 ", axis, " 必须是 0–100 的整数。")))
}

/// Checks a focus: two integers from 0 to 100.
pub fn validate_background_focus(focus: &Json) -> (r: Result<(), AppError>)
    ensures
        fault(r) == focus_fault(focus@),
{
    closed_object(focus, &FOCUS_FIELDS, &FOCUS_FIELDS, "theme.backgroundFocus")?;
    check_axis(focus, "x")?;
    check_axis(focus, "y")
}

/// What may set off an effect.
pub const TRIGGERS: [&'static str; 2] = ["task-start", "message-send"];

/// What keeps a value from being a trigger that is not among the earlier ones.
pub open spec fn trigger_fault(earlier: Seq<JsonModel>, value: JsonModel) -> Option<ErrorModel> {
    match value.text() {
        Some(text) => if texts(TRIGGERS@).contains(text) && !earlier.contains(
            JsonModel::Text(text),
        ) {
            None
        } else {
            broken("特效触发器无效或重复。"@)
        },
        None => broken("特效触发器必须是字符串。"@),
    }
}

/// What keeps values from being different triggers.
pub open spec fn trigger_list_fault(values: Seq<JsonModel>) -> Option<ErrorModel>
    decreases values.len(),
{
    if values.len() == 0 {
        None
    } else {
        either(
            trigger_list_fault(values.drop_last()),
            trigger_fault(values.drop_last(), values.last()),
        )
    }
}

/// What keeps a value from being a list of one or two different triggers.
pub open spec fn triggers_fault(value: JsonModel) -> Option<ErrorModel> {
    match value.items() {
        Some(values) => if 0 < values.len() <= 2 {
            trigger_list_fault(values)
        } else {
            broken("特效触发器数量无效。"@)
        },
        None => broken("特效触发器必须是数组。"@),
    }
}

/// Whether a text is among the first `n` values.
fn text_among(values: &Vec<Json>, n: usize, text: &str) -> (r: bool)
    requires
        n <= values@.len(),
    ensures
        r == models(values@).take(n as int).contains(JsonModel::Text(text@)),
{
    let mut i: usize = 0;
    let ghost earlier = models(values@).take(n as int);
    while i < n
        invariant
            i <= n <= values@.len(),
            earlier == models(values@).take(n as int),
            forall|j: int| 0 <= j < i ==> earlier[j] != JsonModel::Text(text@),
        decreases n - i,
    {
        assert(earlier[i as int] == values@[i as int]@);
        if let Some(other) = values[i].as_text() {
            if same(other, text) {
                assert(earlier[i as int] == JsonModel::Text(text@));
                return true;
            }
        }
        i += 1;
    }
    false
}

/// Checks the triggers of an effect: one or two different ones.
pub fn validate_effect_triggers(value: &Json) -> (r: Result<(), AppError>)
    ensures
        fault(r) == triggers_fault(value@),
{
    let values = match value.as_items() {
        Some(values) => values,
        None => {
            return Err(AppError::Message("特效触发器必须是数组。".to_owned()));
        },
    };
    if values.len() == 0 || values.len() > 2 {
        return Err(AppError::Message("特效触发器数量无效。".to_owned()));
    }
    let ghost whole = models(values@);
    let mut i: usize = 0;
    assert(whole.take(0) =~= Seq::empty());
    while i < values.len()
        invariant
            i <= values@.len(),
            0 < values@.len() <= 2,
            whole == models(values@),
            value@.items() == Some(whole),
            trigger_list_fault(whole.take(i as int)) is None,
        decreases values@.len() - i,
    {
        proof {
            assert(whole.take(i + 1).drop_last() =~= whole.take(i as int));
            assert(whole.take(i + 1).last() == values@[i as int]@);
            trigger_prefix(whole, i + 1);
        }
        let trigger = match values[i].as_text() {
            Some(trigger) => trigger,
            None => {
                return Err(AppError::Message("特效触发器必须是字符串。".to_owned()));
            },
        };
        if !one_of(trigger, &TRIGGERS) || text_among(values, i, trigger) {
            return Err(AppError::Message("特效触发器无效或重复。".to_owned()));
        }
        i += 1;
    }
    assert(whole.take(i as int) =~= whole);
    Ok(())
}

/// The fault of a list is that of its first part, where that has one.
proof fn trigger_prefix(values: Seq<JsonModel>, n: int)
    requires
        0 <= n <= values.len(),
    ensures
        trigger_list_fault(values.take(n)) is Some ==> trigger_list_fault(values)
            == trigger_list_fault(values.take(n)),
    decreases values.len(),
{
    if n < values.len() {
        trigger_prefix(values.drop_last(), n);
        assert(values.drop_last().take(n) =~= values.take(n));
    } else {
        assert(values.take(n) =~= values);
    }
}

} // verus!
