//! Text primitives: what the rules of this library ask of a string, as functions
//! on its characters.

use vstd::prelude::*;
use vstd::utf8::encode_utf8;

verus! {

broadcast use vstd::string::group_string_axioms;

/// Appends a character (`String::push`): the text grows by that character.
pub assume_specification[ String::push ](text: &mut String, c: char)
    ensures
        final(text)@ == old(text)@.push(c),
;

/// The lower-case form of an ASCII capital letter; every other character itself.
pub open spec fn lower_char(c: char) -> char {
    if 'A' <= c && c <= 'Z' {
        ((c as u32 + 32) as u32) as char
    } else {
        c
    }
}

/// `s` with its ASCII capital letters in lower case.
pub open spec fn lower(s: Seq<char>) -> Seq<char> {
    Seq::new(s.len(), |i: int| lower_char(s[i]))
}

/// Whether `needle` stands somewhere in `s`.
pub open spec fn occurs(s: Seq<char>, needle: Seq<char>) -> bool {
    exists|i: int| #![trigger s.subrange(i, i + needle.len())]
        0 <= i && i + needle.len() <= s.len() && s.subrange(i, i + needle.len()) == needle
}

/// Whether `s` comes before `t` when both are read character by character.
pub open spec fn before(s: Seq<char>, t: Seq<char>) -> bool
    decreases s.len(),
{
    if t.len() == 0 {
        false
    } else if s.len() == 0 {
        true
    } else if s[0] != t[0] {
        s[0] < t[0]
    } else {
        before(s.skip(1), t.skip(1))
    }
}

/// The order of texts is strict.
pub proof fn before_irreflexive(a: Seq<char>)
    ensures
        !before(a, a),
    decreases a.len(),
{
    if a.len() > 0 {
        before_irreflexive(a.skip(1));
    }
}

/// The order of texts is transitive.
pub proof fn before_transitive(a: Seq<char>, b: Seq<char>, c: Seq<char>)
    requires
        before(a, b),
        before(b, c),
    ensures
        before(a, c),
    decreases a.len(),
{
    if a.len() > 0 && b.len() > 0 && c.len() > 0 && a[0] == b[0] && b[0] == c[0] {
        before_transitive(a.skip(1), b.skip(1), c.skip(1));
    }
}

/// Of two different texts one comes before the other.
pub proof fn before_total(a: Seq<char>, b: Seq<char>)
    ensures
        a == b || before(a, b) || before(b, a),
    decreases a.len(),
{
    if a.len() == 0 && b.len() == 0 {
        assert(a =~= b);
    } else if a.len() > 0 && b.len() > 0 && a[0] == b[0] {
        before_total(a.skip(1), b.skip(1));
        if a.skip(1) == b.skip(1) {
            assert(a =~= seq![a[0]] + a.skip(1));
            assert(b =~= seq![b[0]] + b.skip(1));
        }
    }
}

/// What a list of texts holds.
pub open spec fn strings(list: Seq<String>) -> Seq<Seq<char>> {
    Seq::new(list.len(), |i: int| list[i]@)
}

/// The characters of a text.
pub fn chars_of(text: &str) -> (chars: Vec<char>)
    ensures
        chars@ == text@,
{
    let mut chars: Vec<char> = Vec::new();
    for c in it: text.chars()
        invariant
            chars@ == it.seq().take(it.index() as int),
            it.seq() == text@,
    {
        chars.push(c);
    }
    chars
}

/// The text made of the characters from `from` to `to`.
pub fn text_of(chars: &Vec<char>, from: usize, to: usize) -> (text: String)
    requires
        from <= to <= chars@.len(),
    ensures
        text@ == chars@.subrange(from as int, to as int),
{
    let mut text = String::new();
    let mut i: usize = from;
    while i < to
        invariant
            from <= i <= to <= chars@.len(),
            text@ == chars@.subrange(from as int, i as int),
        decreases to - i,
    {
        text.push(chars[i]);
        i += 1;
    }
    text
}

/// How many bytes a text takes in UTF-8.
pub fn byte_len(text: &str) -> (n: usize)
    ensures
        n == encode_utf8(text@).len(),
{
    text.as_bytes().len()
}

/// Whether two texts hold the same characters.
pub fn same(a: &str, b: &str) -> (r: bool)
    ensures
        r == (a@ == b@),
{
    let x = a.as_bytes();
    let y = b.as_bytes();
    proof {
        vstd::utf8::encode_utf8_decode_utf8(a@);
        vstd::utf8::encode_utf8_decode_utf8(b@);
    }
    if x.len() != y.len() {
        return false;
    }
    let mut i: usize = 0;
    while i < x.len()
        invariant
            i <= x@.len(),
            x@.len() == y@.len(),
            x@ == encode_utf8(a@),
            y@ == encode_utf8(b@),
            forall|j: int| 0 <= j < i ==> x@[j] == y@[j],
        decreases x@.len() - i,
    {
        if x[i] != y[i] {
            return false;
        }
        i += 1;
    }
    assert(x@ =~= y@);
    true
}

fn lower_of(c: char) -> (r: char)
    ensures
        r == lower_char(c),
{
    if 'A' <= c && c <= 'Z' {
        ((c as u8) + 32) as char
    } else {
        c
    }
}

/// A text with its ASCII capital letters in lower case.
pub fn ascii_lowercase(text: &str) -> (r: String)
    ensures
        r@ == lower(text@),
{
    let mut r = String::new();
    for c in it: text.chars()
        invariant
            r@ == lower(it.seq().take(it.index() as int)),
            it.seq() == text@,
    {
        let ghost seen = it.seq().take(it.index() as int);
        r.push(lower_of(c));
        assert(r@ =~= lower(it.seq().take(it.index() + 1)));
    }
    r
}


/// Whether a text begins with another.
pub open spec fn begins(s: Seq<char>, prefix: Seq<char>) -> bool {
    prefix.len() <= s.len() && s.take(prefix.len() as int) == prefix
}

/// Whether a text ends with another.
pub open spec fn ends(s: Seq<char>, suffix: Seq<char>) -> bool {
    suffix.len() <= s.len() && s.skip(s.len() - suffix.len()) == suffix
}

/// The pieces of `s` between the occurrences of `separator`.
pub open spec fn split_on(s: Seq<char>, separator: char) -> Seq<Seq<char>>
    decreases s.len(),
{
    if s.len() == 0 {
        seq![Seq::<char>::empty()]
    } else {
        let pieces = split_on(s.drop_last(), separator);
        if s.last() == separator {
            pieces.push(Seq::<char>::empty())
        } else {
            pieces.drop_last().push(pieces.last().push(s.last()))
        }
    }
}

/// Every character of a text is the separator or stands in one of its pieces.
pub proof fn split_covers(s: Seq<char>, separator: char, i: int)
    requires
        0 <= i < s.len(),
    ensures
        s[i] == separator || exists|j: int|
            0 <= j < split_on(s, separator).len() && (#[trigger] split_on(s, separator)[j]).contains(
                s[i],
            ),
    decreases s.len(),
{
    let pieces = split_on(s.drop_last(), separator);
    split_nonempty(s.drop_last(), separator);
    let whole = split_on(s, separator);
    if i < s.len() - 1 {
        split_covers(s.drop_last(), separator, i);
        if s[i] != separator {
            let j = choose|j: int| 0 <= j < pieces.len() && (#[trigger] pieces[j]).contains(s[i]);
            let k = choose|k: int| 0 <= k < pieces[j].len() && pieces[j][k] == s[i];
            assert(whole[j][k] == s[i]);
            assert(whole[j].contains(s[i]));
        }
    } else if s.last() != separator {
        let last = whole.last();
        assert(last[last.len() - 1] == s.last());
        assert(whole[whole.len() - 1].contains(s[i]));
    }
}

/// There is always a piece.
pub proof fn split_nonempty(s: Seq<char>, separator: char)
    ensures
        split_on(s, separator).len() > 0,
    decreases s.len(),
{
    if s.len() > 0 {
        split_nonempty(s.drop_last(), separator);
    }
}

/// `s` with every `from` replaced by `to`.
pub open spec fn replaced(s: Seq<char>, from: char, to: char) -> Seq<char> {
    Seq::new(s.len(), |i: int| if s[i] == from { to } else { s[i] })
}

/// White space: the Unicode property `White_Space`.
pub open spec fn white_space(c: char) -> bool {
    let n = c as u32;
    ||| 0x09 <= n <= 0x0D
    ||| n == 0x20
    ||| n == 0x85
    ||| n == 0xA0
    ||| n == 0x1680
    ||| 0x2000 <= n <= 0x200A
    ||| 0x2028 <= n <= 0x2029
    ||| n == 0x202F
    ||| n == 0x205F
    ||| n == 0x3000
}

/// The characters that `char::is_alphanumeric` accepts (alphabetic or numeric in Unicode).
pub uninterp spec fn alphanumeric(c: char) -> bool;

/// An ASCII letter or digit.
pub open spec fn ascii_alphanumeric(c: char) -> bool {
    ('a' <= c && c <= 'z') || ('A' <= c && c <= 'Z') || ('0' <= c && c <= '9')
}

/// An ASCII hexadecimal digit.
pub open spec fn ascii_hex_digit(c: char) -> bool {
    ('a' <= c && c <= 'f') || ('A' <= c && c <= 'F') || ('0' <= c && c <= '9')
}

/// `char::is_whitespace`: whether the character has the Unicode property `White_Space`.
pub assume_specification[ char::is_whitespace ](c: char) -> (r: bool)
    ensures
        r == white_space(c),
;

/// `char::is_alphanumeric`: the result is a property of the character alone, and among
/// the ASCII characters it holds of the letters and the digits.
pub assume_specification[ char::is_alphanumeric ](c: char) -> (r: bool)
    ensures
        r == alphanumeric(c),
        (c as u32) < 128 ==> r == ascii_alphanumeric(c),
;

/// `s` without the white space at its two ends.
pub open spec fn trimmed(s: Seq<char>) -> Seq<char>
    decreases s.len(),
{
    if s.len() == 0 {
        s
    } else if white_space(s[0]) {
        trimmed(s.skip(1))
    } else if white_space(s.last()) {
        trimmed(s.drop_last())
    } else {
        s
    }
}

/// What trimming takes away is white space.
pub proof fn trimming_takes_space(s: Seq<char>, i: int)
    requires
        0 <= i < s.len(),
    ensures
        white_space(s[i]) || trimmed(s).contains(s[i]),
    decreases s.len(),
{
    if white_space(s[0]) {
        if i > 0 {
            assert(s.skip(1)[i - 1] == s[i]);
            trimming_takes_space(s.skip(1), i - 1);
        }
    } else if white_space(s.last()) {
        if i < s.len() - 1 {
            trimming_takes_space(s.drop_last(), i);
        }
    }
}

/// Whether `needle` stands in `chars` at the position `at`.
pub fn stands_at(chars: &Vec<char>, at: usize, needle: &Vec<char>) -> (r: bool)
    ensures
        r == (at + needle@.len() <= chars@.len() && chars@.subrange(at as int, at + needle@.len())
            == needle@),
{
    if needle.len() > chars.len() || at > chars.len() - needle.len() {
        return false;
    }
    let mut i: usize = 0;
    while i < needle.len()
        invariant
            i <= needle@.len(),
            at + needle@.len() <= chars@.len() <= usize::MAX,
            forall|j: int| 0 <= j < i ==> chars@[at + j] == needle@[j],
        decreases needle@.len() - i,
    {
        if chars[at + i] != needle[i] {
            assert(chars@.subrange(at as int, at + needle@.len())[i as int] != needle@[i as int]);
            return false;
        }
        i += 1;
    }
    assert(chars@.subrange(at as int, at + needle@.len()) =~= needle@);
    true
}

/// Whether `text` begins with `prefix`.
pub fn begins_with(text: &str, prefix: &str) -> (r: bool)
    ensures
        r == begins(text@, prefix@),
{
    let chars = chars_of(text);
    let needle = chars_of(prefix);
    assert(prefix@.len() <= text@.len() ==> text@.take(prefix@.len() as int) == text@.subrange(
        0,
        0int + prefix@.len(),
    ));
    stands_at(&chars, 0, &needle)
}

/// Whether `text` ends with `suffix`.
pub fn ends_with(text: &str, suffix: &str) -> (r: bool)
    ensures
        r == ends(text@, suffix@),
{
    let chars = chars_of(text);
    let needle = chars_of(suffix);
    if needle.len() > chars.len() {
        return false;
    }
    let at: usize = chars.len() - needle.len();
    assert(text@.skip(at as int) =~= text@.subrange(at as int, at + suffix@.len()));
    stands_at(&chars, at, &needle)
}

/// Whether `needle` stands somewhere in `text`.
pub fn contains_text(text: &str, needle: &str) -> (r: bool)
    ensures
        r == occurs(text@, needle@),
{
    let chars = chars_of(text);
    let wanted = chars_of(needle);
    if wanted.len() > chars.len() {
        return false;
    }
    let last: usize = chars.len() - wanted.len();
    let mut at: usize = 0;
    while at <= last
        invariant
            chars@ == text@,
            wanted@ == needle@,
            last + wanted@.len() == chars@.len(),
            at <= last + 1,
            forall|i: int| 0 <= i < at ==> #[trigger] text@.subrange(i, i + needle@.len())
                != needle@,
        decreases last + 1 - at,
    {
        if stands_at(&chars, at, &wanted) {
            return true;
        }
        if at == last {
            assert(!occurs(text@, needle@)) by {
                assert forall|i: int| 0 <= i && i + needle@.len() <= text@.len() implies
                    #[trigger] text@.subrange(i, i + needle@.len()) != needle@ by {
                    assert(i < at || i == at);
                }
            }
            return false;
        }
        at += 1;
    }
    false
}

/// Whether the character `c` stands in `text`.
pub fn contains_char(text: &str, c: char) -> (r: bool)
    ensures
        r == text@.contains(c),
{
    for d in it: text.chars()
        invariant
            it.seq() == text@,
            forall|i: int| 0 <= i < it.index() ==> text@[i] != c,
    {
        if d == c {
            assert(text@[it.index() as int] == c);
            return true;
        }
    }
    false
}

/// Whether two texts are the same but for the case of ASCII letters.
pub fn same_ignoring_case(a: &str, b: &str) -> (r: bool)
    ensures
        r == (lower(a@) == lower(b@)),
{
    let x = ascii_lowercase(a);
    let y = ascii_lowercase(b);
    same(&x, &y)
}

/// Whether `a` comes before `b` in the order of their characters.
pub fn comes_before(a: &str, b: &str) -> (r: bool)
    ensures
        r == before(a@, b@),
{
    let x = chars_of(a);
    let y = chars_of(b);
    let mut i: usize = 0;
    assert(x@.skip(0) =~= x@ && y@.skip(0) =~= y@);
    while i < x.len() && i < y.len()
        invariant
            x@ == a@,
            y@ == b@,
            i <= x@.len(),
            i <= y@.len(),
            before(a@, b@) == before(x@.skip(i as int), y@.skip(i as int)),
        decreases x@.len() - i,
    {
        assert(x@.skip(i as int).skip(1) =~= x@.skip(i + 1));
        assert(y@.skip(i as int).skip(1) =~= y@.skip(i + 1));
        if x[i] != y[i] {
            return x[i] < y[i];
        }
        i += 1;
    }
    i < y.len()
}

/// The pieces of `text` between the occurrences of `separator`.
pub fn split(text: &str, separator: char) -> (pieces: Vec<String>)
    ensures
        pieces@.len() == split_on(text@, separator).len(),
        pieces@.len() > 0,
        forall|i: int| 0 <= i < pieces@.len() ==> #[trigger] pieces@[i]@ == split_on(
            text@,
            separator,
        )[i],
{
    let chars = chars_of(text);
    let mut pieces: Vec<String> = Vec::new();
    let mut piece = String::new();
    let mut i: usize = 0;
    assert(chars@.take(0) =~= Seq::<char>::empty());
    while i < chars.len()
        invariant
            chars@ == text@,
            i <= chars@.len(),
            pieces@.len() + 1 == split_on(chars@.take(i as int), separator).len(),
            piece@ == split_on(chars@.take(i as int), separator).last(),
            forall|j: int| 0 <= j < pieces@.len() ==> #[trigger] pieces@[j]@ == split_on(
                chars@.take(i as int),
                separator,
            )[j],
        decreases chars@.len() - i,
    {
        let ghost longer = chars@.take(i + 1);
        assert(longer.drop_last() =~= chars@.take(i as int));
        assert(longer.last() == chars@[i as int]);
        if chars[i] == separator {
            pieces.push(piece);
            piece = String::new();
        } else {
            piece.push(chars[i]);
        }
        i += 1;
    }
    assert(chars@.take(chars@.len() as int) =~= text@);
    pieces.push(piece);
    pieces
}

/// A text with every `from` replaced by `to`.
pub fn replace_char(text: &str, from: char, to: char) -> (r: String)
    ensures
        r@ == replaced(text@, from, to),
{
    let mut r = String::new();
    for c in it: text.chars()
        invariant
            r@ == replaced(it.seq().take(it.index() as int), from, to),
            it.seq() == text@,
    {
        if c == from {
            r.push(to);
        } else {
            r.push(c);
        }
        assert(r@ =~= replaced(it.seq().take(it.index() + 1), from, to));
    }
    r
}

/// A text without the white space at its two ends.
pub fn trim(text: &str) -> (r: String)
    ensures
        r@ == trimmed(text@),
{
    let chars = chars_of(text);
    let mut from: usize = 0;
    let mut to: usize = chars.len();
    assert(chars@.subrange(0, chars@.len() as int) =~= text@);
    while from < to && chars[from].is_whitespace()
        invariant
            chars@ == text@,
            to == chars@.len(),
            from <= to,
            trimmed(text@) == trimmed(chars@.subrange(from as int, to as int)),
        decreases to - from,
    {
        assert(chars@.subrange(from as int, to as int).skip(1) =~= chars@.subrange(
            from + 1,
            to as int,
        ));
        from += 1;
    }
    while from < to && chars[to - 1].is_whitespace()
        invariant
            chars@ == text@,
            from <= to <= chars@.len(),
            from < to ==> !white_space(chars@[from as int]),
            trimmed(text@) == trimmed(chars@.subrange(from as int, to as int)),
        decreases to - from,
    {
        assert(chars@.subrange(from as int, to as int).drop_last() =~= chars@.subrange(
            from as int,
            to - 1,
        ));
        to -= 1;
    }
    text_of(&chars, from, to)
}

/// Two texts in a row.
pub fn join2(a: &str, b: &str) -> (r: String)
    ensures
        r@ == a@ + b@,
{
    let mut r = a.to_owned();
    r.append(b);
    r
}

/// Three texts in a row.
pub fn join3(a: &str, b: &str, c: &str) -> (r: String)
    ensures
        r@ == a@ + b@ + c@,
{
    let mut r = a.to_owned();
    r.append(b);
    r.append(c);
    r
}

/// Four texts in a row.
pub fn join4(a: &str, b: &str, c: &str, d: &str) -> (r: String)
    ensures
        r@ == a@ + b@ + c@ + d@,
{
    let mut r = a.to_owned();
    r.append(b);
    r.append(c);
    r.append(d);
    r
}

/// The texts of a list.
pub open spec fn texts(list: Seq<&str>) -> Seq<Seq<char>> {
    Seq::new(list.len(), |i: int| list[i]@)
}

/// Whether `text` is one of `list`.
pub fn one_of(text: &str, list: &[&str]) -> (r: bool)
    ensures
        r == texts(list@).contains(text@),
{
    let mut i: usize = 0;
    while i < list.len()
        invariant
            i <= list@.len(),
            forall|j: int| 0 <= j < i ==> list@[j]@ != text@,
        decreases list@.len() - i,
    {
        if same(text, list[i]) {
            assert(texts(list@)[i as int] == text@);
            return true;
        }
        i += 1;
    }
    false
}

} // verus!
