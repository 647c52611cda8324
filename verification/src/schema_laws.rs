//! What holds of documents and of the building blocks of their schemas, in the plainest terms.

use crate::error::{broken, either, fault, AppError, ErrorModel};
use crate::json::{array_model, lookup, models, object_model, Json, JsonModel};
use crate::schema::{
    axis_fault, choice_fault, closed_objects_pass, first_missing, first_unknown, focus_fault,
    in_range, integer_fault, object_fault, range_fault, text_fault, trigger_fault,
    trigger_list_fault, triggers_fault, FOCUS_FIELDS, TRIGGERS,
};
use crate::text::texts;
use vstd::arithmetic::power2::{
    lemma2_to64, lemma2_to64_rest, lemma_pow2_adds, lemma_pow2_pos, lemma_pow2_strictly_increases,
    pow2,
};
use vstd::prelude::*;

verus! {

/// An outcome is faultless where it is a success, and else its fault is the error; of two faults
/// in a row the first counts.
pub proof fn faults_are_errors(
    outcome: Result<(), AppError>,
    first: Option<ErrorModel>,
    second: Option<ErrorModel>,
    text: Seq<char>,
)
    ensures
        outcome is Ok <==> fault(outcome) is None,
        outcome is Err ==> fault(outcome) == Some(outcome->Err_0@),
        either(first, second) is None <==> first is None && second is None,
        first is Some ==> either(first, second) == first,
        first is None ==> either(first, second) == second,
        broken(text) == Some(ErrorModel::Message(text)),
{
}

proof fn first_of_that_name(members: Seq<(Seq<char>, JsonModel)>, key: Seq<char>, i: int)
    requires
        0 <= i < members.len(),
        members[i].0 == key,
        forall|j: int| 0 <= j < i ==> (#[trigger] members[j]).0 != key,
    ensures
        lookup(members, key) == Some(members[i].1),
    decreases members.len(),
{
    if i > 0 {
        assert(members[0].0 != key);
        let rest = members.skip(1);
        assert forall|j: int| 0 <= j < i - 1 implies (#[trigger] rest[j]).0 != key by {
            assert(rest[j] == members[j + 1]);
        }
        first_of_that_name(rest, key, i - 1);
    }
}

proof fn none_of_that_name(members: Seq<(Seq<char>, JsonModel)>, key: Seq<char>)
    requires
        forall|j: int| 0 <= j < members.len() ==> (#[trigger] members[j]).0 != key,
    ensures
        lookup(members, key) is None,
    decreases members.len(),
{
    if members.len() > 0 {
        assert(members[0].0 != key);
        let rest = members.skip(1);
        assert forall|j: int| 0 <= j < rest.len() implies (#[trigger] rest[j]).0 != key by {
            assert(rest[j] == members[j + 1]);
        }
        none_of_that_name(rest, key);
    }
}

/// A member of an object is found by its name, wherever it stands; of several with that name the
/// first. Nothing but an object has members.
pub proof fn members_are_found(value: JsonModel, key: Seq<char>, i: int)
    ensures
        !(value is Object) ==> value.member(key) is None,
        value matches JsonModel::Object(members) ==> {
            &&& 0 <= i < members.len() && members[i].0 == key && (forall|j: int|
                0 <= j < i ==> (#[trigger] members[j]).0 != key) ==> value.member(key) == Some(
                members[i].1,
            )
            &&& (forall|j: int| 0 <= j < members.len() ==> (#[trigger] members[j]).0 != key)
                ==> value.member(key) is None
        },
{
    if let JsonModel::Object(members) = value {
        if 0 <= i < members.len() && members[i].0 == key && forall|j: int|
            0 <= j < i ==> (#[trigger] members[j]).0 != key {
            first_of_that_name(members, key, i);
        }
        if forall|j: int| 0 <= j < members.len() ==> (#[trigger] members[j]).0 != key {
            none_of_that_name(members, key);
        }
    }
}

/// A value is taken for a text, a number, a truth value or a list exactly where it is one, and so
/// is a member.
pub proof fn values_are_what_they_are(value: JsonModel, key: Seq<char>, t: Seq<char>, n: u64)
    ensures
        value.text() == Some(t) <==> value == JsonModel::Text(t),
        value.text() is Some <==> value is Text,
        value.unsigned() == Some(n) <==> value == JsonModel::Unsigned(n),
        value.unsigned() is Some <==> value is Unsigned,
        value.truth() == Some(true) <==> value == JsonModel::Bool(true),
        value.truth() == Some(false) <==> value == JsonModel::Bool(false),
        value.items() is Some <==> value is Array,
        value is Array ==> value.items() == Some(value->Array_0),
        value.text_member(key) == Some(t) <==> value.member(key) == Some(JsonModel::Text(t)),
        value.text_member(key) is Some <==> value.member(key) is Some && value.member(
            key,
        )->0 is Text,
        value.unsigned_member(key) == Some(n) <==> value.member(key) == Some(
            JsonModel::Unsigned(n),
        ),
        value.unsigned_member(key) is Some <==> value.member(key) is Some && value.member(
            key,
        )->0 is Unsigned,
{
}

proof fn unknown_at(members: Seq<(Seq<char>, JsonModel)>, allowed: Seq<Seq<char>>, k: int)
    requires
        0 <= k < members.len(),
        !allowed.contains(members[k].0),
        forall|j: int| 0 <= j < k ==> allowed.contains((#[trigger] members[j]).0),
    ensures
        first_unknown(members, allowed) == Some(members[k].0),
    decreases members.len(),
{
    if k > 0 {
        assert(allowed.contains(members[0].0));
        let rest = members.skip(1);
        assert forall|j: int| 0 <= j < k - 1 implies allowed.contains((#[trigger] rest[j]).0) by {
            assert(rest[j] == members[j + 1]);
        }
        unknown_at(rest, allowed, k - 1);
    }
}

proof fn missing_at(value: JsonModel, required: Seq<Seq<char>>, k: int)
    requires
        0 <= k < required.len(),
        value.member(required[k]) is None,
        forall|j: int| 0 <= j < k ==> value.member(#[trigger] required[j]) is Some,
    ensures
        first_missing(value, required) == Some(required[k]),
    decreases required.len(),
{
    if k > 0 {
        assert(value.member(required[0]) is Some);
        let rest = required.skip(1);
        assert forall|j: int| 0 <= j < k - 1 implies value.member(#[trigger] rest[j]) is Some by {
            assert(rest[j] == required[j + 1]);
        }
        missing_at(value, rest, k - 1);
    }
}

/// A value passes for an object with given members exactly where it is an object, each of its
/// members is allowed and each required member is there. Else the error names the path, and the
/// first member that is not allowed or, failing that, the first that is missing.
pub proof fn objects_are_closed(
    value: JsonModel,
    allowed: Seq<Seq<char>>,
    required: Seq<Seq<char>>,
    path: Seq<char>,
    k: int,
)
    ensures
        !(value is Object) ==> object_fault(value, allowed, required, path) == Some(
            ErrorModel::Message(path + " 必须是对象。"@),
        ),
        value matches JsonModel::Object(members) ==> {
            let known = forall|j: int|
                0 <= j < members.len() ==> allowed.contains((#[trigger] members[j]).0);
            let complete = forall|j: int|
                0 <= j < required.len() ==> value.member(#[trigger] required[j]) is Some;
            &&& object_fault(value, allowed, required, path) is None <==> known && complete
            &&& 0 <= k < members.len() && !allowed.contains(members[k].0) && (forall|j: int|
                0 <= j < k ==> allowed.contains((#[trigger] members[j]).0)) ==> object_fault(
                value,
                allowed,
                required,
                path,
            ) == Some(ErrorModel::Message(path + " 包含未知字段："@ + members[k].0))
            &&& known && 0 <= k < required.len() && value.member(required[k]) is None && (forall|
                j: int,
            |
                0 <= j < k ==> value.member(#[trigger] required[j]) is Some) ==> object_fault(
                value,
                allowed,
                required,
                path,
            ) == Some(ErrorModel::Message(path + " 缺少字段："@ + required[k]))
        },
{
    closed_objects_pass(value, allowed, required, path);
    if let JsonModel::Object(members) = value {
        if 0 <= k < members.len() && !allowed.contains(members[k].0) && forall|j: int|
            0 <= j < k ==> allowed.contains((#[trigger] members[j]).0) {
            unknown_at(members, allowed, k);
        }
        if (forall|j: int| 0 <= j < members.len() ==> allowed.contains((#[trigger] members[j]).0))
            && 0 <= k < required.len() && value.member(required[k]) is None && forall|j: int|
            0 <= j < k ==> value.member(#[trigger] required[j]) is Some {
            missing_at(value, required, k);
            closed_objects_pass(value, allowed, Seq::empty(), path);
            assert(first_missing(value, Seq::<Seq<char>>::empty()) is None);
            assert(first_unknown(members, allowed) is None);
        }
    }
}

/// A required text passes with 1 to `max` characters; the error tells a wrong length from a
/// member that is no text.
pub proof fn texts_have_their_length(value: JsonModel, key: Seq<char>, max: nat, t: Seq<char>)
    ensures
        value.member(key) == Some(JsonModel::Text(t)) ==> {
            &&& 1 <= t.len() <= max ==> text_fault(value, key, max) is None
            &&& t.len() == 0 || t.len() > max ==> text_fault(value, key, max) == Some(
                ErrorModel::Message(key + " 长度无效。"@),
            )
        },
        !(value.member(key) is Some && value.member(key)->0 is Text) ==> text_fault(
            value,
            key,
            max,
        ) == Some(ErrorModel::Message(key + " 必须是字符串。"@)),
{
}

/// An optional choice passes where it is missing or one of the choices.
pub proof fn choices_are_made(
    value: JsonModel,
    key: Seq<char>,
    choices: Seq<Seq<char>>,
    no_text: Seq<char>,
    no_choice: Seq<char>,
    t: Seq<char>,
    i: int,
)
    ensures
        value.member(key) is None ==> choice_fault(value, key, choices, no_text, no_choice) is None,
        value.member(key) == Some(JsonModel::Text(t)) && 0 <= i < choices.len() && choices[i] == t
            ==> choice_fault(value, key, choices, no_text, no_choice) is None,
        value.member(key) == Some(JsonModel::Text(t)) && (forall|j: int|
            0 <= j < choices.len() ==> #[trigger] choices[j] != t) ==> choice_fault(
            value,
            key,
            choices,
            no_text,
            no_choice,
        ) == Some(ErrorModel::Message(no_choice)),
        value.member(key) is Some && !(value.member(key)->0 is Text) ==> choice_fault(
            value,
            key,
            choices,
            no_text,
            no_choice,
        ) == Some(ErrorModel::Message(no_text)),
{
}

/// The value of a double that is finite and not negative, in units of the smallest positive one:
/// 2 to the power of -1074.
pub open spec fn double_value(bits: u64) -> nat {
    let exponent = bits as nat / 0x10_0000_0000_0000;
    let fraction = bits as nat % 0x10_0000_0000_0000;
    if exponent == 0 {
        fraction
    } else {
        (0x10_0000_0000_0000 + fraction) * pow2((exponent - 1) as nat)
    }
}

/// Of doubles that are not negative the one with the greater bits is the greater one.
proof fn doubles_grow(a: u64, b: u64)
    requires
        a < b,
    ensures
        double_value(a) < double_value(b),
{
    let unit: nat = 0x10_0000_0000_0000;
    let e = a as nat / unit;
    let f = b as nat / unit;
    let m = a as nat % unit;
    let n = b as nat % unit;
    assert(a as nat == e * unit + m && b as nat == f * unit + n);
    assert(m < unit && n < unit);
    assert(e <= f);
    if e == f {
        assert(m < n);
        if e > 0 {
            let p = pow2((e - 1) as nat);
            lemma_pow2_pos((e - 1) as nat);
            assert((unit + m) * p < (unit + n) * p) by (nonlinear_arith)
                requires
                    m < n,
                    p > 0,
            ;
        }
    } else {
        let q = pow2((f - 1) as nat);
        lemma_pow2_pos((f - 1) as nat);
        assert(unit * q <= (unit + n) * q) by (nonlinear_arith);
        if e == 0 {
            assert(unit <= unit * q) by (nonlinear_arith)
                requires
                    q >= 1,
            ;
        } else {
            let p = pow2((e - 1) as nat);
            lemma_pow2_pos((e - 1) as nat);
            lemma_pow2_adds((e - 1) as nat, 1);
            lemma2_to64();
            assert(pow2(e) == p * 2);
            if e < f - 1 {
                lemma_pow2_strictly_increases(e, (f - 1) as nat);
            }
            assert((unit + m) * p < unit * q) by (nonlinear_arith)
                requires
                    m < unit,
                    p > 0,
                    p * 2 <= q,
            ;
        }
    }
}

/// The three limits as doubles: 100, 1 and 24.
proof fn limits_as_doubles()
    ensures
        double_value(0x4059_0000_0000_0000) == 100 * pow2(1074),
        double_value(0x3FF0_0000_0000_0000) == pow2(1074),
        double_value(0x4038_0000_0000_0000) == 24 * pow2(1074),
{
    lemma2_to64();
    lemma2_to64_rest();
    lemma_pow2_adds(1028, 46);
    lemma_pow2_adds(1022, 52);
    lemma_pow2_adds(1026, 48);
    let p = pow2(1028);
    let q = pow2(1022);
    let r = pow2(1026);
    assert(pow2(46) == 0x4000_0000_0000);
    assert(pow2(52) == 0x10_0000_0000_0000);
    assert(pow2(48) == 0x1_0000_0000_0000);
    assert((0x10_0000_0000_0000nat + 0x9_0000_0000_0000) * p == 100 * (p * 0x4000_0000_0000nat))
        by (nonlinear_arith);
    assert(0x10_0000_0000_0000nat * q == q * 0x10_0000_0000_0000nat) by (nonlinear_arith);
    assert((0x10_0000_0000_0000nat + 0x8_0000_0000_0000) * r == 24 * (r * 0x1_0000_0000_0000nat))
        by (nonlinear_arith);
}

/// Whether a number is from 0 to a limit: a whole number by itself, a double by its value. The
/// bits of a negative double are those of the positive one with the highest bit set.
pub open spec fn up_to(value: JsonModel, limit: nat) -> bool {
    match value {
        JsonModel::Unsigned(n) => 0 <= n <= limit,
        JsonModel::Negative(_) => false,
        JsonModel::Float(bits) => if bits < 0x8000_0000_0000_0000 {
            double_value(bits) <= limit * pow2(1074)
        } else {
            double_value((bits - 0x8000_0000_0000_0000) as u64) == 0
        },
        _ => true,
    }
}

/// A member that is a number passes exactly where its value lies from 0 to the limit, whether it
/// is written as a whole number or as a double: for each of the limits 100, 1 and 24. A member
/// that is no number passes, and so does one that is missing.
pub proof fn numbers_lie_in_range(value: JsonModel, key: Seq<char>, text: Seq<char>)
    ensures
        value.member(key) is None ==> range_fault(value, key, 100, 0x4059_0000_0000_0000, text) is None
            && range_fault(value, key, 1, 0x3FF0_0000_0000_0000, text) is None && range_fault(
            value,
            key,
            24,
            0x4038_0000_0000_0000,
            text,
        ) is None,
        value.member(key) matches Some(member) ==> {
            &&& range_fault(value, key, 100, 0x4059_0000_0000_0000, text) == (if up_to(member, 100) {
                None
            } else {
                Some(ErrorModel::Message(text))
            })
            &&& range_fault(value, key, 1, 0x3FF0_0000_0000_0000, text) == (if up_to(member, 1) {
                None
            } else {
                Some(ErrorModel::Message(text))
            })
            &&& range_fault(value, key, 24, 0x4038_0000_0000_0000, text) == (if up_to(member, 24) {
                None
            } else {
                Some(ErrorModel::Message(text))
            })
        },
{
    limits_as_doubles();
    if let Some(member) = value.member(key) {
        double_in_range(member, 100, 0x4059_0000_0000_0000);
        double_in_range(member, 1, 0x3FF0_0000_0000_0000);
        double_in_range(member, 24, 0x4038_0000_0000_0000);
    }
}

proof fn double_in_range(value: JsonModel, limit: u64, limit_bits: u64)
    requires
        double_value(limit_bits) == limit as nat * pow2(1074),
        limit_bits < 0x8000_0000_0000_0000,
    ensures
        in_range(value, limit, limit_bits) == up_to(value, limit as nat),
{
    if let JsonModel::Float(bits) = value {
        if bits < 0x8000_0000_0000_0000 {
            if bits < limit_bits {
                doubles_grow(bits, limit_bits);
            } else if limit_bits < bits {
                doubles_grow(limit_bits, bits);
            }
        } else {
            let rest = (bits - 0x8000_0000_0000_0000) as u64;
            assert(double_value(0) == 0);
            if rest > 0 {
                doubles_grow(0, rest);
            }
        }
    }
}

/// An optional whole number passes exactly from the least to the most, both included.
pub proof fn integers_lie_in_range(
    value: JsonModel,
    key: Seq<char>,
    least: u64,
    most: u64,
    no_integer: Seq<char>,
    out_of_range: Seq<char>,
    n: u64,
)
    ensures
        value.member(key) is None ==> integer_fault(
            value,
            key,
            least,
            most,
            no_integer,
            out_of_range,
        ) is None,
        value.member(key) == Some(JsonModel::Unsigned(n)) ==> integer_fault(
            value,
            key,
            least,
            most,
            no_integer,
            out_of_range,
        ) == (if n < least || most < n {
            Some(ErrorModel::Message(out_of_range))
        } else {
            None
        }),
        value.member(key) is Some && !(value.member(key)->0 is Unsigned) ==> integer_fault(
            value,
            key,
            least,
            most,
            no_integer,
            out_of_range,
        ) == Some(ErrorModel::Message(no_integer)),
{
}

/// A focus passes exactly where it has an `x` and a `y`, each a whole number from 0 to 100, and
/// no other member. A coordinate that is none is named in the error, `x` before `y`.
pub proof fn foci_have_two_coordinates(focus: JsonModel)
    ensures
        focus_fault(focus) is None <==> {
            &&& focus matches JsonModel::Object(members) && forall|i: int|
                0 <= i < members.len() ==> (#[trigger] members[i]).0 == "x"@ || members[i].0 == "y"@
            &&& focus.member("x"@) matches Some(JsonModel::Unsigned(x)) && 0 <= x <= 100
            &&& focus.member("y"@) matches Some(JsonModel::Unsigned(y)) && 0 <= y <= 100
        },
        object_fault(focus, seq!["x"@, "y"@], seq!["x"@, "y"@], "theme.backgroundFocus"@) is Some
            ==> focus_fault(focus) == object_fault(
            focus,
            seq!["x"@, "y"@],
            seq!["x"@, "y"@],
            "theme.backgroundFocus"@,
        ),
        object_fault(focus, seq!["x"@, "y"@], seq!["x"@, "y"@], "theme.backgroundFocus"@) is None
            && focus_fault(focus) is Some ==> focus_fault(focus) == Some(
            ErrorModel::Message(
                "背景焦点 "@ + (if focus.member("x"@) matches Some(JsonModel::Unsigned(x)) && x
                    <= 100 {
                    "y"@
                } else {
                    "x"@
                }) + " 必须是 0–100 的整数。"@,
            ),
        ),
{
    let names = seq!["x"@, "y"@];
    assert(texts(FOCUS_FIELDS@) =~= names);
    objects_are_closed(focus, names, names, "theme.backgroundFocus"@, 0);
    assert(names[0] == "x"@ && names[1] == "y"@);
    assert(forall|k: Seq<char>| #[trigger] names.contains(k) <==> k == "x"@ || k == "y"@);
    if focus is Object {
        let members = focus->Object_0;
        if focus_fault(focus) is None {
            assert forall|i: int| 0 <= i < members.len() implies (#[trigger] members[i]).0 == "x"@
                || members[i].0 == "y"@ by {
                assert(names.contains(members[i].0));
            }
        }
        if focus.member("x"@) is Some && focus.member("y"@) is Some {
            assert forall|j: int| 0 <= j < names.len() implies focus.member(
                #[trigger] names[j],
            ) is Some by {}
        }
    }
    assert(axis_fault(focus, "x"@) is None <==> (focus.member("x"@) matches Some(
        JsonModel::Unsigned(x),
    ) && x <= 100));
    assert(axis_fault(focus, "y"@) is None <==> (focus.member("y"@) matches Some(
        JsonModel::Unsigned(y),
    ) && y <= 100));
}

/// The triggers of an effect are one of the two known ones, or both of them in either order.
pub proof fn triggers_are_known(value: JsonModel)
    ensures
        triggers_fault(value) is None <==> {
            let start = JsonModel::Text("task-start"@);
            let send = JsonModel::Text("message-send"@);
            ||| value == JsonModel::Array(seq![start])
            ||| value == JsonModel::Array(seq![send])
            ||| value == JsonModel::Array(seq![start, send])
            ||| value == JsonModel::Array(seq![send, start])
        },
        !(value is Array) ==> triggers_fault(value) == Some(
            ErrorModel::Message("特效触发器必须是数组。"@),
        ),
        value matches JsonModel::Array(items) ==> {
            &&& items.len() == 0 || items.len() > 2 ==> triggers_fault(value) == Some(
                ErrorModel::Message("特效触发器数量无效。"@),
            )
            &&& 0 < items.len() <= 2 && !(items[0] is Text) ==> triggers_fault(value) == Some(
                ErrorModel::Message("特效触发器必须是字符串。"@),
            )
            &&& 0 < items.len() <= 2 && items[0] is Text && items[0] != JsonModel::Text(
                "task-start"@,
            ) && items[0] != JsonModel::Text("message-send"@) ==> triggers_fault(value) == Some(
                ErrorModel::Message("特效触发器无效或重复。"@),
            )
            &&& items.len() == 2 && items[0] is Text && items[1] == items[0] ==> triggers_fault(
                value,
            ) == Some(ErrorModel::Message("特效触发器无效或重复。"@))
        },
{
    reveal_strlit("task-start");
    reveal_strlit("message-send");
    assert("task-start"@ != "message-send"@) by {
        assert("task-start"@.len() != "message-send"@.len());
    }
    let start = JsonModel::Text("task-start"@);
    let send = JsonModel::Text("message-send"@);
    let known = texts(TRIGGERS@);
    assert(known[0] == "task-start"@ && known[1] == "message-send"@);
    assert(forall|k: Seq<char>| #[trigger]
        known.contains(k) <==> k == "task-start"@ || k == "message-send"@);
    if let JsonModel::Array(items) = value {
        if 0 < items.len() <= 2 {
            reveal_with_fuel(trigger_list_fault, 3);
            let none = Seq::<JsonModel>::empty();
            let first = seq![items[0]];
            assert(first.drop_last() =~= none);
            assert(first.last() == items[0]);
            assert(trigger_list_fault(first) == trigger_fault(none, items[0]));
            if items.len() == 1 {
                assert(items =~= first);
                assert(value == JsonModel::Array(seq![start]) <==> items[0] == start);
                assert(value == JsonModel::Array(seq![send]) <==> items[0] == send);
                assert(seq![start, send].len() != items.len());
                assert(seq![send, start].len() != items.len());
            } else {
                assert(items.drop_last() =~= first);
                assert(items.last() == items[1]);
                assert(trigger_list_fault(items) == either(
                    trigger_list_fault(first),
                    trigger_fault(first, items[1]),
                ));
                assert(first[0] == items[0]);
                assert(first.contains(items[1]) <==> items[0] == items[1]);
                assert(items =~= seq![items[0], items[1]]);
                assert(seq![start].len() != items.len());
                assert(seq![send].len() != items.len());
                assert(seq![start, send][0] == start && seq![start, send][1] == send);
                assert(seq![send, start][0] == send && seq![send, start][1] == start);
            }
        } else {
            assert(seq![start].len() == 1 && seq![start, send].len() == 2);
        }
    }
}

/// A document says what it holds, and a list or an object holds what it says place by place.
pub proof fn documents_are_what_they_hold(
    truth: bool,
    n: u64,
    negative: i64,
    bits: u64,
    text: String,
    items: Vec<Json>,
    members: Vec<(String, Json)>,
    i: int,
)
    ensures
        Json::Null@ == JsonModel::Null,
        Json::Bool(truth)@ == JsonModel::Bool(truth),
        Json::Unsigned(n)@ == JsonModel::Unsigned(n),
        Json::Negative(negative)@ == JsonModel::Negative(negative),
        Json::Float(bits)@ == JsonModel::Float(bits),
        Json::Text(text)@ == JsonModel::Text(text@),
        Json::Array(items)@ is Array,
        Json::Array(items)@->Array_0.len() == items@.len(),
        0 <= i < items@.len() ==> Json::Array(items)@->Array_0[i] == items@[i]@,
        models(items@).len() == items@.len(),
        0 <= i < items@.len() ==> models(items@)[i] == items@[i]@,
        Json::Object(members)@ is Object,
        Json::Object(members)@->Object_0.len() == members@.len(),
        0 <= i < members@.len() ==> Json::Object(members)@->Object_0[i] == (
            members@[i].0@,
            members@[i].1@,
        ),
{
    array_model(items);
    object_model(members);
}

} // verus!
