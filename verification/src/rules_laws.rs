//! What the rules on single texts accept, in the plainest terms.

use crate::error::ErrorModel;
use crate::outside::{last_dot, plain_extension, plain_name};
use crate::rules::{
    allowed_file, allowed_path, asset_path, catalog_id, color, color_fault, digest_text,
    extension_text, file_part, font_char, font_family, font_stack, font_stack_fault, id_letter,
    library_id, may_extend, named, quoted_by, unquoted, IMAGE_EXTENSIONS,
};
use crate::text::{
    alphanumeric, ends, lower, occurs, replaced, split_on, texts, trimmed, white_space,
};
use crate::text_laws::{
    blank, occurrences_cut, texts_are_cut, trimming_cuts_space, trimming_leaves_the_rest,
};
use vstd::prelude::*;

verus! {

/// Whether a character is a small ASCII letter or a digit, by its code point.
pub open spec fn small(c: char) -> bool {
    97 <= c as int <= 122 || 48 <= c as int <= 57
}

/// The identifiers of the remote catalog are the texts of 2 to 64 characters, each a small ASCII
/// letter or a digit, or between two others a hyphen.
pub proof fn catalog_ids_are(s: Seq<char>)
    ensures
        catalog_id(s) <==> 2 <= s.len() <= 64 && forall|i: int|
            0 <= i < s.len() ==> small(#[trigger] s[i]) || (s[i] == '-' && 0 < i < s.len() - 1),
{
    if catalog_id(s) {
        assert forall|i: int| 0 <= i < s.len() implies small(#[trigger] s[i]) || (s[i] == '-' && 0
            < i < s.len() - 1) by {
            assert(id_letter(s[i]) || s[i] == '-');
        }
    }
    if 2 <= s.len() <= 64 && forall|i: int|
        0 <= i < s.len() ==> small(#[trigger] s[i]) || (s[i] == '-' && 0 < i < s.len() - 1) {
        assert(small(s[0]));
        assert(small(s[s.len() - 1]));
    }
}

/// The identifiers of the local library are the texts of 2 to 128 characters, each a small ASCII
/// letter or a digit, or between two others a hyphen or a dot, but never two dots in a row.
pub proof fn library_ids_are(s: Seq<char>)
    ensures
        library_id(s) <==> {
            &&& 2 <= s.len() <= 128
            &&& forall|i: int|
                0 <= i < s.len() ==> small(#[trigger] s[i]) || ((s[i] == '-' || s[i] == '.') && 0
                    < i < s.len() - 1)
            &&& !occurs(s, seq!['.', '.'])
        },
{
    let dots = seq!['.', '.'];
    if library_id(s) {
        assert forall|i: int| 0 <= i < s.len() implies small(#[trigger] s[i]) || ((s[i] == '-'
            || s[i] == '.') && 0 < i < s.len() - 1) by {
            assert(id_letter(s[i]) || s[i] == '-' || s[i] == '.');
            assert(id_letter(s[0]) && id_letter(s[s.len() - 1]));
        }
        if occurs(s, dots) {
            let i = choose|i: int|
                #![trigger s.subrange(i, i + dots.len())]
                0 <= i && i + dots.len() <= s.len() && s.subrange(i, i + dots.len()) == dots;
            assert(s.subrange(i, i + 2)[0] == s[i] && s.subrange(i, i + 2)[1] == s[i + 1]);
        }
    }
    if 2 <= s.len() <= 128 && (forall|i: int|
        0 <= i < s.len() ==> small(#[trigger] s[i]) || ((s[i] == '-' || s[i] == '.') && 0 < i
            < s.len() - 1)) && !occurs(s, dots) {
        assert(small(s[0]));
        assert(small(s[s.len() - 1]));
        assert forall|i: int| 0 <= i < s.len() - 1 implies !(#[trigger] s[i] == '.' && s[i + 1]
            == '.') by {
            if s[i] == '.' && s[i + 1] == '.' {
                assert(s.subrange(i, i + dots.len()) =~= dots);
            }
        }
    }
}

/// Whether a character is a hexadecimal digit, by its code point.
pub open spec fn hexadecimal(c: char) -> bool {
    48 <= c as int <= 57 || 65 <= c as int <= 70 || 97 <= c as int <= 102
}

/// The colours are the texts of a number sign and six hexadecimal digits in either case; any
/// other text is refused by the name of its field.
pub proof fn colors_are(value: Seq<char>, key: Seq<char>)
    ensures
        color_fault(value, key) == (if value.len() == 7 && value[0] == '#' && forall|i: int|
            1 <= i < 7 ==> hexadecimal(#[trigger] value[i]) {
            None
        } else {
            Some(ErrorModel::Message(key + " 颜色无效。"@))
        }),
        color(value) <==> color_fault(value, key) is None,
{
    if color(value) {
        assert forall|i: int| 1 <= i < 7 implies hexadecimal(#[trigger] value[i]) by {}
    }
    if value.len() == 7 && value[0] == '#' && forall|i: int|
        1 <= i < 7 ==> hexadecimal(#[trigger] value[i]) {
        assert(color(value));
    }
}

/// The digests are the texts of 64 hexadecimal digits in either case.
pub proof fn digests_are(s: Seq<char>)
    ensures
        digest_text(s) <==> s.len() == 64 && forall|i: int|
            0 <= i < 64 ==> hexadecimal(#[trigger] s[i]),
{
}

/// Whether a character may stand in a font's name: an ASCII letter or digit, a space, a dot, an
/// underscore or a hyphen, or beyond ASCII a letter or a digit.
pub open spec fn in_font_name(c: char) -> bool {
    ||| 48 <= c as int <= 57
    ||| 65 <= c as int <= 90
    ||| 97 <= c as int <= 122
    ||| c == ' '
    ||| c == '.'
    ||| c == '_'
    ||| c == '-'
    ||| c as int >= 128 && alphanumeric(c)
}

proof fn font_chars_are(c: char)
    ensures
        font_char(c) == in_font_name(c),
{
    assert((c as u32) as int == c as int);
}

/// Whether a text is a font's name between white space: bare, where it neither starts nor ends
/// with white space, or in double or single quotes.
pub open spec fn font_between(
    s: Seq<char>,
    a: Seq<char>,
    quote: Seq<char>,
    name: Seq<char>,
    b: Seq<char>,
) -> bool {
    &&& s == a + (quote + name + quote) + b
    &&& blank(a)
    &&& blank(b)
    &&& quote == seq!['"'] || quote == seq!['\''] || (quote.len() == 0 && !white_space(name[0])
        && !white_space(name.last()))
    &&& name.len() > 0
    &&& forall|i: int| 0 <= i < name.len() ==> in_font_name(#[trigger] name[i])
}

/// The fonts of a stack are just the names between white space, bare or in quotes.
pub proof fn fonts_are(s: Seq<char>)
    ensures
        font_family(s) <==> exists|a: Seq<char>, quote: Seq<char>, name: Seq<char>, b: Seq<char>|
            font_between(s, a, quote, name, b),
{
    let outer = trimmed(s);
    let name = unquoted(outer);
    trimming_cuts_space(s);
    if font_family(s) {
        let (a, b) = choose|a: Seq<char>, b: Seq<char>|
            s == #[trigger] (a + trimmed(s) + b) && blank(a) && blank(b);
        assert forall|i: int| 0 <= i < name.len() implies in_font_name(#[trigger] name[i]) by {
            assert(font_char(name[i]));
            font_chars_are(name[i]);
        }
        if quoted_by(outer, '"') {
            let quote = seq!['"'];
            assert(outer =~= quote + name + quote);
            assert(font_between(s, a, quote, name, b));
        } else if quoted_by(outer, '\'') {
            let quote = seq!['\''];
            assert(outer =~= quote + name + quote);
            assert(font_between(s, a, quote, name, b));
        } else {
            let quote = Seq::<char>::empty();
            assert(outer =~= quote + name + quote);
            assert(font_between(s, a, quote, name, b));
        }
    }
    if exists|a: Seq<char>, quote: Seq<char>, n: Seq<char>, b: Seq<char>|
        font_between(s, a, quote, n, b) {
        let (a, quote, n, b) = choose|a: Seq<char>, quote: Seq<char>, n: Seq<char>, b: Seq<char>|
            font_between(s, a, quote, n, b);
        let inner = quote + n + quote;
        if quote.len() > 0 {
            assert(inner[0] == quote[0] && inner.last() == quote[0]);
        } else {
            assert(inner =~= n);
        }
        trimming_leaves_the_rest(a, inner, b);
        assert(outer == inner);
        if quote.len() > 0 {
            assert(quoted_by(outer, quote[0]));
            assert(name =~= n);
        } else {
            assert(in_font_name(n[0]));
            assert(!quoted_by(outer, '"') && !quoted_by(outer, '\''));
            assert(name =~= n);
        }
        assert forall|i: int| 0 <= i < name.len() implies font_char(#[trigger] name[i]) by {
            assert(in_font_name(n[i]));
            font_chars_are(n[i]);
        }
    }
}

/// A font stack holds 1 to 300 characters: a single font, or a font, a comma and the rest of the
/// stack. Any other text is refused.
pub proof fn font_stacks_are(first: Seq<char>, rest: Seq<char>)
    requires
        !first.contains(','),
    ensures
        font_stack(first) <==> font_family(first) && first.len() <= 300,
        font_stack(first + seq![','] + rest) <==> font_family(first) && (forall|j: int|
            0 <= j < split_on(rest, ',').len() ==> font_family(#[trigger] split_on(rest, ',')[j]))
            && first.len() + 1 + rest.len() <= 300,
        0 < rest.len() <= 300 && font_family(first) && first.len() + 1 + rest.len() <= 300 ==> (
        font_stack(first + seq![','] + rest) <==> font_stack(rest)),
        font_stack_fault(first + seq![','] + rest) == (if font_stack(first + seq![','] + rest) {
            None
        } else {
            Some(ErrorModel::Message("主题字体配置无效。"@))
        }),
{
    texts_are_cut(first, rest, ',');
    let whole = first + seq![','] + rest;
    let pieces = split_on(whole, ',');
    let others = split_on(rest, ',');
    assert(split_on(first, ',')[0] == first);
    assert(pieces[0] == first);
    assert(forall|j: int| 0 <= j < others.len() ==> pieces[j + 1] == #[trigger] others[j]);
    if first.len() == 0 {
        assert(trimmed(first) == first);
        assert(unquoted(first) == first);
    }
    if font_stack(whole) {
        assert(font_family(pieces[0]));
        assert forall|j: int| 0 <= j < others.len() implies font_family(#[trigger] others[j]) by {
            assert(font_family(pieces[j + 1]));
        }
    }
    if font_family(first) && (forall|j: int|
        0 <= j < others.len() ==> font_family(#[trigger] others[j])) && whole.len() <= 300 {
        assert forall|j: int| 0 <= j < pieces.len() implies font_family(#[trigger] pieces[j]) by {
            if j > 0 {
                assert(pieces[j] == others[j - 1]);
            }
        }
    }
    if font_stack(first) {
        assert(font_family(split_on(first, ',')[0]));
    }
}

/// A name counts as a manifest where something stands before `.json` in any case at its end.
pub proof fn manifests_are_named(name: Seq<char>)
    ensures
        named(name, ".json"@) <==> exists|stem: Seq<char>, extension: Seq<char>|
            name == #[trigger] (stem + extension) && stem.len() > 0 && lower(extension)
                == ".json"@,
{
    reveal_strlit(".json");
    if named(name, ".json"@) {
        let at = name.len() - 5;
        let stem = name.take(at);
        let extension = name.skip(at);
        assert(name =~= stem + extension);
        assert(lower(extension) =~= lower(name).skip(at));
    }
    if exists|stem: Seq<char>, extension: Seq<char>|
        name == #[trigger] (stem + extension) && stem.len() > 0 && lower(extension) == ".json"@ {
        let (stem, extension) = choose|stem: Seq<char>, extension: Seq<char>|
            name == #[trigger] (stem + extension) && stem.len() > 0 && lower(extension) == ".json"@;
        assert(extension.len() == 5);
        assert(lower(name).skip(name.len() - 5) =~= lower(extension));
    }
}

/// Whether a directory of the catalog may hold files with that extension.
pub open spec fn holds_kind(directory: Seq<char>, extension: Seq<char>) -> bool {
    let low = lower(extension);
    ||| low == "json"@ && (directory == "themes"@ || directory == "schemas"@)
    ||| {
        &&& directory == "backgrounds"@ || directory == "logos"@ || directory == "previews"@
            || directory == "pets"@
        &&& low == "jpg"@ || low == "jpeg"@ || low == "png"@ || low == "webp"@ || low == "avif"@
    }
}

proof fn directories_differ()
    ensures
        "themes"@ != "backgrounds"@,
        "themes"@ != "logos"@,
        "themes"@ != "previews"@,
        "themes"@ != "pets"@,
        "schemas"@ != "backgrounds"@,
        "schemas"@ != "logos"@,
        "schemas"@ != "previews"@,
        "schemas"@ != "pets"@,
{
    reveal_strlit("themes");
    reveal_strlit("schemas");
    reveal_strlit("backgrounds");
    reveal_strlit("logos");
    reveal_strlit("previews");
    reveal_strlit("pets");
    assert("themes"@.len() == 6 && "schemas"@.len() == 7 && "backgrounds"@.len() == 11
        && "logos"@.len() == 5 && "previews"@.len() == 8 && "pets"@.len() == 4);
}

/// The catalog holds its index, and files right in its six directories: documents among the
/// themes and schemas, images of the five known kinds in the four others.
pub proof fn catalog_paths_are(directory: Seq<char>, name: Seq<char>, extension: Seq<char>)
    requires
        !directory.contains('/'),
    ensures
        allowed_path("theme-repository.json"@, extension),
        !name.contains('/') ==> (allowed_path(directory + seq!['/'] + name, extension)
            <==> holds_kind(directory, extension)),
        name.contains('/') ==> !allowed_path(directory + seq!['/'] + name, extension),
        directory != "theme-repository.json"@ ==> !allowed_path(directory, extension),
{
    directories_differ();
    reveal_strlit("theme-repository.json");
    let index = "theme-repository.json"@;
    let whole = directory + seq!['/'] + name;
    assert(whole[directory.len() as int] == '/');
    assert(!index.contains('/'));
    if whole == index {
        assert(index[directory.len() as int] == '/');
    }
    let images = texts(IMAGE_EXTENSIONS@);
    assert(images[0] == "jpg"@ && images[1] == "jpeg"@ && images[2] == "png"@ && images[3]
        == "webp"@ && images[4] == "avif"@);
    assert(forall|k: Seq<char>| #[trigger]
        images.contains(k) <==> k == "jpg"@ || k == "jpeg"@ || k == "png"@ || k == "webp"@ || k
            == "avif"@);
    assert(allowed_file(directory, extension) <==> holds_kind(directory, extension));
    assert forall|d: Seq<char>, m: Seq<char>|
        whole == #[trigger] (d + seq!['/'] + m) && !d.contains('/') implies d == directory && m
        == name by {
        cut_once(d, m, directory, name);
    }
    assert forall|d: Seq<char>, m: Seq<char>| directory != #[trigger] (d + seq!['/'] + m) by {
        if directory == d + seq!['/'] + m {
            assert(directory[d.len() as int] == '/');
        }
    }
}

/// Two ways to cut a text at its first slash are one.
proof fn cut_once(a: Seq<char>, b: Seq<char>, c: Seq<char>, d: Seq<char>)
    requires
        a + seq!['/'] + b == c + seq!['/'] + d,
        !a.contains('/'),
        !c.contains('/'),
    ensures
        a == c,
        b == d,
{
    texts_are_cut(a, Seq::empty(), '/');
    let whole = a + seq!['/'] + b;
    let other = c + seq!['/'] + d;
    if a.len() < c.len() {
        assert(other[a.len() as int] == c[a.len() as int]);
        assert(whole[a.len() as int] == '/');
    }
    if c.len() < a.len() {
        assert(whole[c.len() as int] == a[c.len() as int]);
        assert(other[c.len() as int] == '/');
    }
    assert(a =~= whole.take(a.len() as int));
    assert(c =~= other.take(c.len() as int));
    assert(b =~= whole.skip(a.len() as int + 1));
    assert(d =~= other.skip(c.len() as int + 1));
}

/// The file of a path is what follows its first slash; a path without one has none.
pub proof fn files_follow_the_slash(directory: Seq<char>, name: Seq<char>)
    requires
        !directory.contains('/'),
    ensures
        file_part(directory + seq!['/'] + name) == name,
        file_part(directory).len() == 0,
    decreases directory.len(),
{
    let whole = directory + seq!['/'] + name;
    if directory.len() == 0 {
        assert(whole.skip(1) =~= name);
    } else {
        assert(directory.contains(directory[0]));
        let rest = directory.skip(1);
        assert(!rest.contains('/')) by {
            if rest.contains('/') {
                let i = rest.index_of('/');
                assert(directory[i + 1] == '/');
            }
        }
        assert(whole.skip(1) =~= rest + seq!['/'] + name);
        files_follow_the_slash(rest, name);
    }
}

/// On a name without a slash, a backslash or a colon the extension is what follows its last dot. On
/// any other, an extension is a part of the name that holds no dot and stands behind one.
pub proof fn extensions_are_read(path: Seq<char>, extension: Seq<char>)
    ensures
        ({
            let name = file_part(path);
            let plain = !name.contains('/') && !name.contains('\\') && !name.contains(':');
            &&& may_extend(path, extension) && plain ==> extension == extension_text(name)
            &&& may_extend(path, extension) ==> !extension.contains('.')
            &&& may_extend(path, extension) && extension.len() > 0 ==> exists|
                a: Seq<char>,
                b: Seq<char>,
            |
                name == #[trigger] (a + (seq!['.'] + extension) + b)
        }),
{
    occurrences_cut(file_part(path), seq!['.'] + extension);
}

proof fn dot_found(stem: Seq<char>, extension: Seq<char>)
    requires
        !extension.contains('.'),
    ensures
        last_dot(stem + seq!['.'] + extension) == stem.len(),
        last_dot(extension) == -1,
    decreases extension.len(),
{
    let whole = stem + seq!['.'] + extension;
    if extension.len() > 0 {
        assert(extension.contains(extension.last()));
        let rest = extension.drop_last();
        assert(!rest.contains('.')) by {
            if rest.contains('.') {
                let i = rest.index_of('.');
                assert(extension[i] == '.');
            }
        }
        assert(whole.drop_last() =~= stem + seq!['.'] + rest);
        assert(whole.last() == extension.last());
        dot_found(stem, rest);
    }
}

/// The extension of a file with a plain name is what follows the last dot in it, if something
/// stands before that dot; and a path of the catalog with such a file has no other extension.
pub proof fn extensions_follow_the_dot(
    directory: Seq<char>,
    stem: Seq<char>,
    extension: Seq<char>,
    other: Seq<char>,
)
    requires
        !directory.contains('/'),
        !extension.contains('.'),
        stem.len() > 0,
        plain_name(stem + seq!['.'] + extension),
        stem + seq!['.'] + extension != ".."@,
    ensures
        plain_extension(stem + seq!['.'] + extension) == Some(extension),
        extension_text(stem + seq!['.'] + extension) == extension,
        may_extend(directory + seq!['/'] + (stem + seq!['.'] + extension), other) <==> other
            == extension,
        plain_extension(extension) is None,
        plain_extension(seq!['.'] + extension) is None,
{
    let name = stem + seq!['.'] + extension;
    dot_found(stem, extension);
    dot_found(Seq::empty(), extension);
    assert(Seq::<char>::empty() + seq!['.'] + extension =~= seq!['.'] + extension);
    assert(name.skip(stem.len() as int + 1) =~= extension);
    files_follow_the_slash(directory, name);
    if extension.len() > 0 {
        assert(name =~= stem + (seq!['.'] + extension) + Seq::<char>::empty());
        occurrences_cut(name, seq!['.'] + extension);
    }
}

/// Whether a text is another but for backslashes in the place of slashes.
pub open spec fn slashed(relative: Seq<char>, path: Seq<char>) -> bool {
    &&& relative.len() == path.len()
    &&& forall|i: int|
        0 <= i < path.len() ==> (#[trigger] relative[i] == path[i] && relative[i] != '\\') || (
        relative[i] == '\\' && path[i] == '/')
}

/// An asset of a directory is named by `../`, the directory, a slash and a name without slashes,
/// where any of the slashes may be a backslash; and by no other path.
pub proof fn asset_paths_are(relative: Seq<char>, directory: Seq<char>)
    requires
        !directory.contains('/'),
        !directory.contains('\\'),
        directory != ".."@,
    ensures
        asset_path(relative, directory) <==> exists|name: Seq<char>|
            !name.contains('/') && slashed(
                relative,
                #[trigger] ("../"@ + directory + "/"@ + name),
            ),
{
    reveal_strlit("../");
    reveal_strlit("/");
    reveal_strlit("/../");
    reveal_strlit("..");
    let path = replaced(relative, '\\', '/');
    let start = "../"@ + directory + "/"@;
    if asset_path(relative, directory) {
        let name = path.skip(start.len() as int);
        assert(path =~= start + name);
        assert(slashed(relative, start + name));
    }
    if exists|name: Seq<char>|
        !name.contains('/') && slashed(relative, #[trigger] ("../"@ + directory + "/"@ + name)) {
        let name = choose|name: Seq<char>|
            !name.contains('/') && slashed(
                relative,
                #[trigger] ("../"@ + directory + "/"@ + name),
            );
        let whole = start + name;
        assert(path =~= whole);
        assert(path.take(start.len() as int) =~= start);
        assert(path.skip(start.len() as int) =~= name);
        if occurs(path, "/../"@) {
            let i = choose|i: int|
                #![trigger path.subrange(i, i + "/../"@.len())]
                0 <= i && i + "/../"@.len() <= path.len() && path.subrange(i, i + "/../"@.len())
                    == "/../"@;
            let part = path.subrange(i, i + 4);
            assert(part[0] == path[i] && part[1] == path[i + 1] && part[2] == path[i + 2]
                && part[3] == path[i + 3]);
            assert(path[i] == '/' && path[i + 1] == '.' && path[i + 2] == '.' && path[i + 3]
                == '/');
            let n = directory.len() as int;
            assert forall|k: int| 0 <= k < path.len() && path[k] == '/' implies k == 2 || k == 3 + n by {
                if 3 <= k < 3 + n {
                    assert(directory[k - 3] == path[k]);
                } else if k > 3 + n {
                    assert(name[k - 4 - n] == path[k]);
                }
            }
            assert(i == 2 && i + 3 == 3 + n);
            assert(directory[0] == '.' && directory[1] == '.');
            assert(directory =~= ".."@);
        }
    }
}

} // verus!
