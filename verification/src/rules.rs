//! The rules on single texts: identifiers, colours, font stacks and resource paths.

use crate::error::{broken, fault, AppError, ErrorModel};
use crate::outside::{path_extension, plain_extension, plain_name};
use crate::text::{
    alphanumeric, ascii_alphanumeric, ascii_hex_digit, ascii_lowercase, begins, begins_with,
    chars_of, contains_char, contains_text, ends, join2, join3, lower, occurs, one_of, replace_char,
    replaced, same, split, split_covers, split_on, text_of, texts, trim, trimmed,
    trimming_takes_space, white_space,
};
use vstd::prelude::*;

verus! {

/// A lower-case ASCII letter or a digit.
pub open spec fn id_letter(c: char) -> bool {
    ('a' <= c && c <= 'z') || ('0' <= c && c <= '9')
}

/// An identifier of a theme in the remote catalog: 2 to 64 lower-case letters, digits and
/// hyphens, with no hyphen at either end.
pub open spec fn catalog_id(s: Seq<char>) -> bool {
    &&& 2 <= s.len() <= 64
    &&& forall|i: int| 0 <= i < s.len() ==> id_letter(#[trigger] s[i]) || s[i] == '-'
    &&& s[0] != '-'
    &&& s.last() != '-'
}

/// An identifier of a theme in the local library: 2 to 128 lower-case letters, digits, hyphens
/// and single dots, with a letter or digit at either end.
pub open spec fn library_id(s: Seq<char>) -> bool {
    &&& 2 <= s.len() <= 128
    &&& forall|i: int| 0 <= i < s.len() ==> id_letter(#[trigger] s[i]) || s[i] == '-' || s[i] == '.'
    &&& id_letter(s[0])
    &&& id_letter(s.last())
    &&& forall|i: int| 0 <= i < s.len() - 1 ==> !(#[trigger] s[i] == '.' && s[i + 1] == '.')
}

/// Whether a text is an identifier of a theme in the remote catalog.
pub fn valid_catalog_id(value: &str) -> (r: bool)
    ensures
        r == catalog_id(value@),
{
    let chars = chars_of(value);
    let n: usize = chars.len();
    if n < 2 || n > 64 || chars[0] == '-' || chars[n - 1] == '-' {
        return false;
    }
    let mut i: usize = 0;
    while i < n
        invariant
            chars@ == value@,
            n == chars@.len(),
            2 <= n <= 64,
            chars@[0] != '-',
            i <= n,
            forall|j: int| 0 <= j < i ==> id_letter(#[trigger] chars@[j]) || chars@[j] == '-',
        decreases n - i,
    {
        let c = chars[i];
        if !(('a' <= c && c <= 'z') || ('0' <= c && c <= '9') || c == '-') {
            return false;
        }
        i += 1;
    }
    true
}

/// Whether a text is an identifier of a theme in the local library.
pub fn valid_library_id(value: &str) -> (r: bool)
    ensures
        r == library_id(value@),
{
    let chars = chars_of(value);
    let n: usize = chars.len();
    if n < 2 || n > 128 {
        return false;
    }
    let mut i: usize = 0;
    while i < n
        invariant
            chars@ == value@,
            n == chars@.len(),
            2 <= n <= 128,
            i <= n,
            forall|j: int|
                0 <= j < i ==> id_letter(#[trigger] chars@[j]) || chars@[j] == '-' || chars@[j] == '.',
            forall|j: int| 0 <= j < i - 1 ==> !(#[trigger] chars@[j] == '.' && chars@[j + 1] == '.'),
            i > 0 ==> id_letter(chars@[0]),
            i == n ==> id_letter(chars@[n - 1]),
        decreases n - i,
    {
        let c = chars[i];
        let letter = ('a' <= c && c <= 'z') || ('0' <= c && c <= '9');
        if !letter {
            if c != '-' && c != '.' {
                return false;
            }
            if i == 0 || i == n - 1 {
                return false;
            }
            if c == '.' && chars[i - 1] == '.' {
                assert(chars@[i - 1] == '.' && chars@[(i - 1) + 1] == '.');
                return false;
            }
        }
        i += 1;
    }
    assert(chars@.last() == chars@[n - 1]);
    true
}

/// A colour: a number sign and six hexadecimal digits.
pub open spec fn color(s: Seq<char>) -> bool {
    &&& s.len() == 7
    &&& s[0] == '#'
    &&& forall|i: int| 1 <= i < 7 ==> ascii_hex_digit(#[trigger] s[i])
}

/// What is wrong with a colour, named by the field that holds it.
pub open spec fn color_fault(value: Seq<char>, key: Seq<char>) -> Option<ErrorModel> {
    if color(value) {
        None
    } else {
        broken(key + " 颜色无效。"@)
    }
}

fn is_hex_digit(c: char) -> (r: bool)
    ensures
        r == ascii_hex_digit(c),
{
    ('a' <= c && c <= 'f') || ('A' <= c && c <= 'F') || ('0' <= c && c <= '9')
}

fn is_color(value: &str) -> (r: bool)
    ensures
        r == color(value@),
{
    let chars = chars_of(value);
    if chars.len() != 7 || chars[0] != '#' {
        return false;
    }
    let mut i: usize = 1;
    while i < 7
        invariant
            chars@ == value@,
            chars@.len() == 7,
            1 <= i <= 7,
            forall|j: int| 1 <= j < i ==> ascii_hex_digit(#[trigger] chars@[j]),
        decreases 7 - i,
    {
        if !is_hex_digit(chars[i]) {
            return false;
        }
        i += 1;
    }
    true
}

/// Checks a colour, named by the field that holds it.
pub fn validate_color(value: &str, key: &str) -> (r: Result<(), AppError>)
    ensures
        fault(r) == color_fault(value@, key@),
{
    if is_color(value) {
        Ok(())
    } else {
        Err(AppError::Message(join2(key, " 颜色无效。")))
    }
}

/// A SHA-256 digest as text: 64 hexadecimal digits.
pub open spec fn digest_text(s: Seq<char>) -> bool {
    &&& s.len() == 64
    &&& forall|i: int| 0 <= i < s.len() ==> ascii_hex_digit(#[trigger] s[i])
}

/// Whether a text is a SHA-256 digest.
pub fn is_digest(value: &str) -> (r: bool)
    ensures
        r == digest_text(value@),
{
    let chars = chars_of(value);
    if chars.len() != 64 {
        return false;
    }
    let mut i: usize = 0;
    while i < 64
        invariant
            chars@ == value@,
            chars@.len() == 64,
            i <= 64,
            forall|j: int| 0 <= j < i ==> ascii_hex_digit(#[trigger] chars@[j]),
        decreases 64 - i,
    {
        if !is_hex_digit(chars[i]) {
            return false;
        }
        i += 1;
    }
    true
}

/// A character of a font's name outside its quotes: a letter or a digit, a space, a dot, an
/// underscore or a hyphen.
pub open spec fn font_char(c: char) -> bool {
    (if (c as u32) < 128 {
        ascii_alphanumeric(c)
    } else {
        alphanumeric(c)
    }) || c == ' ' || c == '.' || c == '_' || c == '-'
}

/// Whether a text stands between two of the same quotes.
pub open spec fn quoted_by(s: Seq<char>, quote: char) -> bool {
    s.len() >= 2 && s[0] == quote && s.last() == quote
}

/// A font's name without the quotes round it.
pub open spec fn unquoted(s: Seq<char>) -> Seq<char> {
    if quoted_by(s, '"') || quoted_by(s, '\'') {
        s.subrange(1, s.len() - 1)
    } else {
        s
    }
}

/// A font's name in a stack: white space round it aside, it is not empty, may stand between
/// quotes, and holds letters, digits, spaces, dots, underscores and hyphens only.
pub open spec fn font_family(s: Seq<char>) -> bool {
    let name = unquoted(trimmed(s));
    &&& name.len() > 0
    &&& forall|i: int| 0 <= i < name.len() ==> font_char(#[trigger] name[i])
}

/// A font stack: at most 300 characters, names divided by commas.
pub open spec fn font_stack(s: Seq<char>) -> bool {
    let families = split_on(s, ',');
    &&& 0 < s.len() <= 300
    &&& forall|i: int| 0 <= i < families.len() ==> font_family(#[trigger] families[i])
}

/// What is wrong with a font stack.
pub open spec fn font_stack_fault(value: Seq<char>) -> Option<ErrorModel> {
    if font_stack(value) {
        None
    } else {
        broken("主题字体配置无效。"@)
    }
}

/// A character that cannot end a CSS value: of the ASCII characters only letters, digits, white
/// space, quotes, commas, dots, underscores and hyphens.
pub open spec fn css_safe(c: char) -> bool {
    (c as u32) < 128 ==> ascii_alphanumeric(c) || white_space(c) || c == '"' || c == '\'' || c == ','
        || c == '.' || c == '_' || c == '-'
}

/// A quote in a font's name stands at an end of it, and its like at the other end.
pub proof fn quotes_enclose_names(s: Seq<char>, i: int)
    requires
        font_family(s),
        0 <= i < trimmed(s).len(),
        trimmed(s)[i] == '"' || trimmed(s)[i] == '\'',
    ensures
        i == 0 || i == trimmed(s).len() - 1,
        quoted_by(trimmed(s), trimmed(s)[i]),
{
    let outer = trimmed(s);
    let name = unquoted(outer);
    if quoted_by(outer, '"') || quoted_by(outer, '\'') {
        if 0 < i < outer.len() - 1 {
            assert(font_char(name[i - 1]));
        }
    } else {
        assert(font_char(name[i]));
    }
}

/// A font's name holds no character that could end a CSS value.
proof fn font_families_are_css_safe(s: Seq<char>, i: int)
    requires
        font_family(s),
        0 <= i < s.len(),
    ensures
        css_safe(s[i]),
{
    trimming_takes_space(s, i);
    if !white_space(s[i]) {
        let outer = trimmed(s);
        let name = unquoted(outer);
        let k = choose|k: int| 0 <= k < outer.len() && outer[k] == s[i];
        if name == outer {
            assert(font_char(name[k]));
        } else if 0 < k < outer.len() - 1 {
            assert(font_char(name[k - 1]));
        }
    }
}

/// A font stack holds no character that could end a CSS value.
pub proof fn font_stacks_are_css_safe(s: Seq<char>, i: int)
    requires
        font_stack(s),
        0 <= i < s.len(),
    ensures
        css_safe(s[i]),
{
    let families = split_on(s, ',');
    split_covers(s, ',', i);
    if s[i] != ',' {
        let j = choose|j: int|
            0 <= j < families.len() && (#[trigger] families[j]).contains(s[i]);
        let k = choose|k: int| 0 <= k < families[j].len() && families[j][k] == s[i];
        font_families_are_css_safe(families[j], k);
    }
}

fn is_font_char(c: char) -> (r: bool)
    ensures
        r == font_char(c),
{
    c.is_alphanumeric() || c == ' ' || c == '.' || c == '_' || c == '-'
}

fn is_font_family(family: &str) -> (r: bool)
    ensures
        r == font_family(family@),
{
    let name = trim(family);
    let chars = chars_of(&name);
    let n: usize = chars.len();
    let mut from: usize = 0;
    let mut to: usize = n;
    if n >= 2 && ((chars[0] == '"' && chars[n - 1] == '"') || (chars[0] == '\'' && chars[n - 1]
        == '\'')) {
        from = 1;
        to = n - 1;
    }
    let ghost inner = unquoted(trimmed(family@));
    assert(inner =~= chars@.subrange(from as int, to as int));
    if from == to {
        return false;
    }
    let mut i: usize = from;
    while i < to
        invariant
            from <= i <= to <= chars@.len(),
            inner == chars@.subrange(from as int, to as int),
            inner == unquoted(trimmed(family@)),
            forall|j: int| 0 <= j < i - from ==> font_char(#[trigger] inner[j]),
        decreases to - i,
    {
        assert(inner[i - from] == chars@[i as int]);
        if !is_font_char(chars[i]) {
            return false;
        }
        i += 1;
    }
    true
}

fn is_font_stack(value: &str) -> (r: bool)
    ensures
        r == font_stack(value@),
{
    let n: usize = chars_of(value).len();
    if n == 0 || n > 300 {
        return false;
    }
    let families = split(value, ',');
    let mut i: usize = 0;
    while i < families.len()
        invariant
            i <= families@.len(),
            families@.len() == split_on(value@, ',').len(),
            forall|j: int| 0 <= j < families@.len() ==> #[trigger] families@[j]@ == split_on(
                value@,
                ',',
            )[j],
            forall|j: int| 0 <= j < i ==> font_family(#[trigger] split_on(value@, ',')[j]),
        decreases families@.len() - i,
    {
        assert(families@[i as int]@ == split_on(value@, ',')[i as int]);
        if !is_font_family(&families[i]) {
            return false;
        }
        i += 1;
    }
    true
}

/// Checks a font stack. One that passes holds no character that could end a CSS value.
pub fn validate_font_stack(value: &str) -> (r: Result<(), AppError>)
    ensures
        fault(r) == font_stack_fault(value@),
        r is Ok ==> forall|i: int| 0 <= i < value@.len() ==> css_safe(#[trigger] value@[i]),
{
    if is_font_stack(value) {
        assert forall|i: int| 0 <= i < value@.len() implies css_safe(#[trigger] value@[i]) by {
            font_stacks_are_css_safe(value@, i);
        }
        Ok(())
    } else {
        Err(AppError::Message("主题字体配置无效。".to_owned()))
    }
}

/// Whether a single file name is more than the extension that it ends with, in any case.
pub open spec fn named(name: Seq<char>, extension: Seq<char>) -> bool {
    name.len() > extension.len() && ends(lower(name), extension)
}

/// The extensions of images.
pub const IMAGE_EXTENSIONS: [&'static str; 5] = ["jpg", "jpeg", "png", "webp", "avif"];

/// Which extensions, in any case, the files in the directories of the catalog may have.
pub open spec fn allowed_file(directory: Seq<char>, extension: Seq<char>) -> bool {
    if directory == "themes"@ || directory == "schemas"@ {
        lower(extension) == "json"@
    } else if directory == "backgrounds"@ || directory == "logos"@ || directory == "previews"@
        || directory == "pets"@ {
        texts(IMAGE_EXTENSIONS@).contains(lower(extension))
    } else {
        false
    }
}

/// A path of the catalog: its index, or a file right in one of its directories, of a kind that
/// the directory may hold. `extension` is that of the file, as the system reads it.
pub open spec fn allowed_path(relative: Seq<char>, extension: Seq<char>) -> bool {
    relative == "theme-repository.json"@ || exists|directory: Seq<char>, name: Seq<char>|
        relative == #[trigger] (directory + seq!['/'] + name) && !directory.contains('/')
            && !name.contains('/') && allowed_file(directory, extension)
}

fn is_allowed_file(directory: &str, extension: &str) -> (r: bool)
    ensures
        r == allowed_file(directory@, extension@),
{
    let low = ascii_lowercase(extension);
    if same(directory, "themes") || same(directory, "schemas") {
        same(&low, "json")
    } else if same(directory, "backgrounds") || same(directory, "logos") || same(
        directory,
        "previews",
    ) || same(directory, "pets") {
        one_of(&low, &IMAGE_EXTENSIONS)
    } else {
        false
    }
}

/// Two ways to cut a text at its only slash are one.
proof fn only_slash(a: Seq<char>, b: Seq<char>, c: Seq<char>, d: Seq<char>)
    requires
        a + seq!['/'] + b == c + seq!['/'] + d,
        !a.contains('/'),
        !c.contains('/'),
    ensures
        a == c,
        b == d,
{
    let whole = a + seq!['/'] + b;
    let other = c + seq!['/'] + d;
    if a.len() < c.len() {
        assert(whole[a.len() as int] == '/');
        assert(other[a.len() as int] == c[a.len() as int]);
        assert(c.contains('/'));
    }
    if c.len() < a.len() {
        assert(other[c.len() as int] == '/');
        assert(whole[c.len() as int] == a[c.len() as int]);
        assert(a.contains('/'));
    }
    assert(a =~= whole.take(a.len() as int));
    assert(c =~= other.take(c.len() as int));
    assert(b =~= whole.skip(a.len() as int + 1));
    assert(d =~= other.skip(c.len() as int + 1));
}

/// What follows the first slash of a path, or nothing.
pub open spec fn file_part(relative: Seq<char>) -> Seq<char>
    decreases relative.len(),
{
    if relative.len() == 0 {
        relative
    } else if relative[0] == '/' {
        relative.skip(1)
    } else {
        file_part(relative.skip(1))
    }
}

proof fn file_part_at(relative: Seq<char>, at: int)
    requires
        0 <= at <= relative.len(),
        forall|i: int| 0 <= i < at ==> relative[i] != '/',
        at < relative.len() ==> relative[at] == '/',
    ensures
        file_part(relative) == (if at < relative.len() {
            relative.skip(at + 1)
        } else {
            Seq::empty()
        }),
    decreases at,
{
    if at > 0 {
        let rest = relative.skip(1);
        assert(forall|i: int| 0 <= i < at - 1 ==> rest[i] == relative[i + 1]);
        file_part_at(rest, at - 1);
        if at < relative.len() {
            assert(rest.skip(at) =~= relative.skip(at + 1));
        }
    } else if relative.len() == 0 {
        assert(relative =~= Seq::empty());
    }
}

fn first_slash(chars: &Vec<char>) -> (at: usize)
    ensures
        at <= chars@.len(),
        forall|i: int| 0 <= i < at ==> chars@[i] != '/',
        at < chars@.len() ==> chars@[at as int] == '/',
{
    let mut at: usize = 0;
    while at < chars.len() && chars[at] != '/'
        invariant
            at <= chars@.len(),
            forall|i: int| 0 <= i < at ==> chars@[i] != '/',
        decreases chars@.len() - at,
    {
        at += 1;
    }
    at
}

/// Whether a path names a file that the catalog may hold, given the extension of the file.
pub fn allowed_by(relative: &str, extension: &str) -> (r: bool)
    ensures
        r == allowed_path(relative@, extension@),
{
    if same(relative, "theme-repository.json") {
        return true;
    }
    let chars = chars_of(relative);
    let at = first_slash(&chars);
    if at == chars.len() {
        assert(!allowed_path(relative@, extension@)) by {
            assert forall|directory: Seq<char>, name: Seq<char>|
                relative@ == #[trigger] (directory + seq!['/'] + name) && !directory.contains('/')
                    && !name.contains('/') implies !allowed_file(directory, extension@) by {
                assert(relative@[directory.len() as int] == '/');
            }
        }
        return false;
    }
    let directory = text_of(&chars, 0, at);
    let name = text_of(&chars, at + 1, chars.len());
    assert(relative@ =~= directory@ + seq!['/'] + name@);
    assert(!directory@.contains('/'));
    assert(allowed_path(relative@, extension@) == (!name@.contains('/') && allowed_file(
        directory@,
        extension@,
    ))) by {
        assert forall|d: Seq<char>, m: Seq<char>|
            relative@ == #[trigger] (d + seq!['/'] + m) && !d.contains('/') && !m.contains('/')
                && allowed_file(d, extension@) implies d == directory@ && m == name@ by {
            only_slash(d, m, directory@, name@);
        }
    }
    if contains_char(&name, '/') {
        return false;
    }
    is_allowed_file(&directory, extension)
}

/// The extension of a file name, empty where it has none.
pub open spec fn extension_text(name: Seq<char>) -> Seq<char> {
    match plain_extension(name) {
        Some(extension) => extension,
        None => Seq::empty(),
    }
}

/// Whether a text may be the extension of the file that a path of the catalog names: on a plain
/// name only what follows its last dot; on any other, where systems differ in what they take for
/// the file name, what follows some dot in it, up to the next.
pub open spec fn may_extend(relative: Seq<char>, extension: Seq<char>) -> bool {
    let name = file_part(relative);
    &&& plain_name(name) ==> extension == extension_text(name)
    &&& !extension.contains('.')
    &&& extension.len() > 0 ==> occurs(name, seq!['.'] + extension)
}

/// The extension of the file that a path of the catalog names, as this system reads it.
pub fn extension_in(relative: &str) -> (r: String)
    ensures
        may_extend(relative@, r@),
{
    let chars = chars_of(relative);
    let at = first_slash(&chars);
    proof {
        file_part_at(relative@, at as int);
    }
    let name = if at < chars.len() {
        text_of(&chars, at + 1, chars.len())
    } else {
        String::new()
    };
    assert(name@ =~= file_part(relative@));
    match path_extension(&name) {
        Some(extension) => extension,
        None => String::new(),
    }
}

/// Whether a path names a file that the catalog may hold. On a path whose file has a plain name
/// that is the same on every system; on any other it goes by what this system takes for the
/// file's extension.
pub fn allowed(relative: &str) -> (r: bool)
    ensures
        exists|extension: Seq<char>| #[trigger]
            may_extend(relative@, extension) && r == allowed_path(relative@, extension),
        plain_name(file_part(relative@)) ==> r == allowed_path(
            relative@,
            extension_text(file_part(relative@)),
        ),
{
    let extension = extension_in(relative);
    assert(may_extend(relative@, extension@));
    allowed_by(relative, &extension)
}

/// Whether a manifest may name an asset of a directory by that path: a file right in that
/// directory, beside the manifest's own. Backslashes count as slashes.
pub open spec fn asset_path(relative: Seq<char>, directory: Seq<char>) -> bool {
    let path = replaced(relative, '\\', '/');
    let start = "../"@ + directory + "/"@;
    &&& begins(path, start)
    &&& !path.skip(start.len() as int).contains('/')
    &&& !occurs(path, "/../"@)
}

/// Whether a manifest may name an asset of a directory by that path.
pub fn is_asset_path(relative: &str, directory: &str) -> (r: bool)
    ensures
        r == asset_path(relative@, directory@),
{
    let path = replace_char(relative, '\\', '/');
    let start = join3("../", directory, "/");
    if !begins_with(&path, &start) {
        return false;
    }
    let chars = chars_of(&path);
    let from: usize = chars_of(&start).len();
    let rest = text_of(&chars, from, chars.len());
    assert(rest@ =~= path@.skip(from as int));
    !contains_char(&rest, '/') && !contains_text(&path, "/../")
}

/// An asset's path leads one directory up, into its directory, and to a name there: what
/// follows the directory holds no separator of either kind.
pub proof fn asset_paths_name_files(relative: Seq<char>, directory: Seq<char>, i: int)
    requires
        asset_path(relative, directory),
        ("../"@ + directory + "/"@).len() <= i < relative.len(),
    ensures
        relative[i] != '/',
        relative[i] != '\\',
{
    let path = replaced(relative, '\\', '/');
    let start = "../"@ + directory + "/"@;
    let name = path.skip(start.len() as int);
    assert(name[i - start.len()] == path[i]);
    if path[i] == '/' {
        assert(name.contains('/'));
    }
}

} // verus!
