//! What holds of the text primitives, in the plainest terms.

use crate::text::{
    ascii_alphanumeric, ascii_hex_digit, before, begins, ends, lower, lower_char, occurs, replaced,
    split_nonempty, split_on, strings, texts, trimmed, white_space,
};
use vstd::prelude::*;

verus! {

/// A list of texts is the list of what each of them holds.
pub proof fn lists_hold_their_texts(list: Seq<String>, slices: Seq<&str>, i: int)
    ensures
        strings(list).len() == list.len(),
        0 <= i < list.len() ==> strings(list)[i] == list[i]@,
        texts(slices).len() == slices.len(),
        0 <= i < slices.len() ==> texts(slices)[i] == slices[i]@,
{
}

/// Lower case moves the 26 ASCII capitals 32 code points up, and no other character.
pub proof fn capitals_are_lowered(s: Seq<char>, i: int)
    requires
        0 <= i < s.len(),
    ensures
        lower(s).len() == s.len(),
        65 <= s[i] as int <= 90 ==> lower(s)[i] as int == s[i] as int + 32,
        !(65 <= s[i] as int <= 90) ==> lower(s)[i] == s[i],
        lower(lower(s)) == lower(s),
{
    assert(lower(lower(s)) =~= lower(s));
}

/// Lower case goes piece by piece.
pub proof fn lowering_adds(a: Seq<char>, b: Seq<char>)
    ensures
        lower(a + b) == lower(a) + lower(b),
{
    assert(lower(a + b) =~= lower(a) + lower(b));
}

/// A text that stands in another stands there between what is before and what is behind it.
pub proof fn occurrences_cut(s: Seq<char>, needle: Seq<char>)
    ensures
        occurs(s, needle) <==> exists|a: Seq<char>, b: Seq<char>| s == #[trigger] (a + needle + b),
{
    if occurs(s, needle) {
        let i = choose|i: int|
            #![trigger s.subrange(i, i + needle.len())]
            0 <= i && i + needle.len() <= s.len() && s.subrange(i, i + needle.len()) == needle;
        let a = s.take(i);
        let b = s.skip(i + needle.len());
        assert(s =~= a + s.subrange(i, i + needle.len()) + b);
        assert(s == a + needle + b);
    }
    if exists|a: Seq<char>, b: Seq<char>| s == #[trigger] (a + needle + b) {
        let (a, b) = choose|a: Seq<char>, b: Seq<char>| s == #[trigger] (a + needle + b);
        let i = a.len() as int;
        assert(s.subrange(i, i + needle.len()) =~= needle);
    }
}

/// A text begins with another that something may follow, and ends with another that something
/// may come before.
pub proof fn ends_of_texts(s: Seq<char>, part: Seq<char>)
    ensures
        begins(s, part) <==> exists|rest: Seq<char>| s == #[trigger] (part + rest),
        ends(s, part) <==> exists|rest: Seq<char>| s == #[trigger] (rest + part),
{
    if begins(s, part) {
        assert(s =~= part + s.skip(part.len() as int));
    }
    if exists|rest: Seq<char>| s == #[trigger] (part + rest) {
        let rest = choose|rest: Seq<char>| s == #[trigger] (part + rest);
        assert(s.take(part.len() as int) =~= part);
    }
    if ends(s, part) {
        assert(s =~= s.take(s.len() - part.len()) + part);
    }
    if exists|rest: Seq<char>| s == #[trigger] (rest + part) {
        let rest = choose|rest: Seq<char>| s == #[trigger] (rest + part);
        assert(s.skip(s.len() - part.len()) =~= part);
    }
}

/// The order of texts is decided at the first place where they differ, or by length where one
/// begins the other.
pub proof fn order_is_decided_first(s: Seq<char>, t: Seq<char>)
    ensures
        before(s, t) <==> exists|k: int|
            {
                &&& 0 <= k <= s.len()
                &&& k < t.len()
                &&& #[trigger] s.take(k) == t.take(k)
                &&& k == s.len() || (s[k] as int) < (t[k] as int)
            },
    decreases s.len(),
{
    if t.len() > 0 && s.len() == 0 {
        assert(s.take(0) =~= t.take(0));
    } else if t.len() > 0 && s[0] != t[0] {
        if s[0] < t[0] {
            assert(s.take(0) =~= t.take(0));
        }
        if exists|k: int|
            {
                &&& 0 <= k <= s.len()
                &&& k < t.len()
                &&& #[trigger] s.take(k) == t.take(k)
                &&& k == s.len() || (s[k] as int) < (t[k] as int)
            } {
            let k = choose|k: int|
                {
                    &&& 0 <= k <= s.len()
                    &&& k < t.len()
                    &&& #[trigger] s.take(k) == t.take(k)
                    &&& k == s.len() || (s[k] as int) < (t[k] as int)
                };
            if k > 0 {
                assert(s.take(k)[0] == t.take(k)[0]);
            }
        }
    } else if t.len() > 0 {
        let a = s.skip(1);
        let b = t.skip(1);
        order_is_decided_first(a, b);
        if before(a, b) {
            let k = choose|k: int|
                {
                    &&& 0 <= k <= a.len()
                    &&& k < b.len()
                    &&& #[trigger] a.take(k) == b.take(k)
                    &&& k == a.len() || (a[k] as int) < (b[k] as int)
                };
            assert(s.take(k + 1) =~= seq![s[0]] + a.take(k));
            assert(t.take(k + 1) =~= seq![t[0]] + b.take(k));
            assert(s.take(k + 1) == t.take(k + 1));
        }
        if exists|k: int|
            {
                &&& 0 <= k <= s.len()
                &&& k < t.len()
                &&& #[trigger] s.take(k) == t.take(k)
                &&& k == s.len() || (s[k] as int) < (t[k] as int)
            } {
            let k = choose|k: int|
                {
                    &&& 0 <= k <= s.len()
                    &&& k < t.len()
                    &&& #[trigger] s.take(k) == t.take(k)
                    &&& k == s.len() || (s[k] as int) < (t[k] as int)
                };
            assert(k > 0);
            assert(a.take(k - 1) =~= s.take(k).skip(1));
            assert(b.take(k - 1) =~= t.take(k).skip(1));
            assert(a.take(k - 1) == b.take(k - 1));
        }
    }
}

/// A text is cut at each separator: one without any is a single piece, and what stands before the
/// first separator is the first piece, followed by the pieces of the rest.
pub proof fn texts_are_cut(first: Seq<char>, rest: Seq<char>, separator: char)
    requires
        !first.contains(separator),
    ensures
        split_on(first, separator) == seq![first],
        split_on(first + seq![separator] + rest, separator) == seq![first] + split_on(
            rest,
            separator,
        ),
    decreases first.len() + rest.len(),
{
    if first.len() > 0 {
        assert(first.last() == first[first.len() - 1]);
        assert(!first.drop_last().contains(separator)) by {
            if first.drop_last().contains(separator) {
                let i = first.drop_last().index_of(separator);
                assert(first[i] == separator);
            }
        }
        texts_are_cut(first.drop_last(), Seq::empty(), separator);
        assert(first =~= first.drop_last().push(first.last()));
        assert(split_on(first, separator) =~= seq![first]);
    } else {
        assert(first =~= Seq::empty());
        assert(split_on(first, separator) =~= seq![first]);
    }
    let whole = first + seq![separator] + rest;
    if rest.len() == 0 {
        assert(whole.drop_last() =~= first);
        assert(whole.last() == separator);
        assert(rest =~= Seq::empty());
        assert(split_on(whole, separator) =~= seq![first] + split_on(rest, separator));
    } else {
        texts_are_cut(first, rest.drop_last(), separator);
        assert(whole.drop_last() =~= first + seq![separator] + rest.drop_last());
        assert(whole.last() == rest.last());
        split_nonempty(rest.drop_last(), separator);
        let pieces = split_on(rest.drop_last(), separator);
        assert((seq![first] + pieces).last() == pieces.last());
        assert((seq![first] + pieces).drop_last() =~= seq![first] + pieces.drop_last());
        assert(split_on(whole, separator) =~= seq![first] + split_on(rest, separator));
    }
}

/// Replacing a character changes every occurrence of it, and nothing else.
pub proof fn characters_are_replaced(s: Seq<char>, from: char, to: char, i: int)
    requires
        0 <= i < s.len(),
    ensures
        replaced(s, from, to).len() == s.len(),
        s[i] == from ==> replaced(s, from, to)[i] == to,
        s[i] != from ==> replaced(s, from, to)[i] == s[i],
{
}

/// Whether a text holds white space only.
pub open spec fn blank(s: Seq<char>) -> bool {
    forall|i: int| 0 <= i < s.len() ==> white_space(#[trigger] s[i])
}

/// A text is trimmed of white space, and of all of it: what is left is empty or starts and ends
/// with something else.
pub proof fn trimming_cuts_space(s: Seq<char>)
    ensures
        exists|a: Seq<char>, b: Seq<char>|
            s == #[trigger] (a + trimmed(s) + b) && blank(a) && blank(b),
        trimmed(s).len() > 0 ==> !white_space(trimmed(s)[0]) && !white_space(trimmed(s).last()),
    decreases s.len(),
{
    if s.len() == 0 {
        assert(s =~= Seq::<char>::empty() + trimmed(s) + Seq::<char>::empty());
    } else if white_space(s[0]) {
        trimming_cuts_space(s.skip(1));
        let (a, b) = choose|a: Seq<char>, b: Seq<char>|
            s.skip(1) == #[trigger] (a + trimmed(s.skip(1)) + b) && blank(a) && blank(b);
        let longer = seq![s[0]] + a;
        assert(s =~= seq![s[0]] + s.skip(1));
        assert(s =~= longer + trimmed(s) + b);
        assert(blank(longer));
    } else if white_space(s.last()) {
        trimming_cuts_space(s.drop_last());
        let (a, b) = choose|a: Seq<char>, b: Seq<char>|
            s.drop_last() == #[trigger] (a + trimmed(s.drop_last()) + b) && blank(a) && blank(b);
        let longer = b.push(s.last());
        assert(s =~= s.drop_last().push(s.last()));
        assert(s =~= a + trimmed(s) + longer);
        assert(blank(longer));
    } else {
        assert(s =~= Seq::<char>::empty() + trimmed(s) + Seq::<char>::empty());
    }
}

/// What stands between white space is what trimming leaves, where it starts and ends with
/// something else.
pub proof fn trimming_leaves_the_rest(a: Seq<char>, inner: Seq<char>, b: Seq<char>)
    requires
        blank(a),
        blank(b),
        inner.len() > 0 ==> !white_space(inner[0]) && !white_space(inner.last()),
    ensures
        trimmed(a + inner + b) == inner,
    decreases a.len() + b.len(),
{
    let s = a + inner + b;
    if a.len() > 0 {
        assert(white_space(a[0]));
        assert(s.skip(1) =~= a.skip(1) + inner + b);
        assert forall|i: int| 0 <= i < a.skip(1).len() implies white_space(
            #[trigger] a.skip(1)[i],
        ) by {
            assert(a.skip(1)[i] == a[i + 1]);
        }
        trimming_leaves_the_rest(a.skip(1), inner, b);
    } else if b.len() > 0 {
        assert(white_space(b.last()));
        assert(s.last() == b.last());
        assert(s.drop_last() =~= a + inner + b.drop_last());
        if inner.len() > 0 {
            assert(s[0] == inner[0]);
            trimming_leaves_the_rest(a, inner, b.drop_last());
        } else {
            assert(s[0] == b[0]);
            assert(white_space(b[0]));
            assert(s.skip(1) =~= a + inner + b.skip(1));
            assert forall|i: int| 0 <= i < b.skip(1).len() implies white_space(
                #[trigger] b.skip(1)[i],
            ) by {
                assert(b.skip(1)[i] == b[i + 1]);
            }
            trimming_leaves_the_rest(a, inner, b.skip(1));
        }
    } else {
        assert(s =~= inner);
    }
}

/// The letters and digits of ASCII by their code points: 0 to 9, A to Z and a to z; hexadecimal
/// are 0 to 9, A to F and a to f.
pub proof fn letters_and_digits(c: char)
    ensures
        ascii_alphanumeric(c) <==> 48 <= c as int <= 57 || 65 <= c as int <= 90 || 97 <= c as int
            <= 122,
        ascii_hex_digit(c) <==> 48 <= c as int <= 57 || 65 <= c as int <= 70 || 97 <= c as int
            <= 102,
        lower_char(c) as int == (if 65 <= c as int <= 90 {
            c as int + 32
        } else {
            c as int
        }),
{
}

/// Of the ASCII characters the tabulators, line breaks and the space are white space; beyond them
/// the next line, and the spaces and separators of Unicode.
pub proof fn spaces(c: char)
    ensures
        (c as int) < 128 ==> (white_space(c) <==> c as int == 32 || 9 <= c as int <= 13),
        (c as int) >= 128 ==> (white_space(c) <==> seq![
            0x85int, 0xA0, 0x1680, 0x2000, 0x2001, 0x2002, 0x2003, 0x2004, 0x2005, 0x2006, 0x2007,
            0x2008, 0x2009, 0x200A, 0x2028, 0x2029, 0x202F, 0x205F, 0x3000,
        ].contains(c as int)),
{
    let list = seq![
        0x85int, 0xA0, 0x1680, 0x2000, 0x2001, 0x2002, 0x2003, 0x2004, 0x2005, 0x2006, 0x2007,
        0x2008, 0x2009, 0x200A, 0x2028, 0x2029, 0x202F, 0x205F, 0x3000,
    ];
    let n = c as int;
    if 128 <= n && white_space(c) {
        let k: int = if n == 0x85 {
            0
        } else if n == 0xA0 {
            1
        } else if n == 0x1680 {
            2
        } else if n <= 0x200A {
            3 + (n - 0x2000)
        } else if n <= 0x2029 {
            14 + (n - 0x2028)
        } else if n == 0x202F {
            16
        } else if n == 0x205F {
            17
        } else {
            18
        };
        assert(list[k] == n);
    }
}

} // verus!
