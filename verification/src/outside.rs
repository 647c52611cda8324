//! The outside crates that the rules of the library call, one wrapper per call.

use crate::text::occurs;
use vstd::prelude::*;

verus! {

/// The parts of a URL that the rules of the library read.
#[derive(Debug)]
pub struct UrlParts {
    pub scheme: String,
    pub username: String,
    pub has_password: bool,
    pub host: Option<String>,
    /// The port, or the one that goes with the scheme.
    pub port: Option<u16>,
    pub path: String,
    pub has_query: bool,
    pub has_fragment: bool,
}

/// What [`UrlParts`] holds.
pub struct UrlModel {
    pub scheme: Seq<char>,
    pub username: Seq<char>,
    pub has_password: bool,
    pub host: Option<Seq<char>>,
    pub port: Option<u16>,
    pub path: Seq<char>,
    pub has_query: bool,
    pub has_fragment: bool,
}

/// The characters of a text that may be missing.
pub open spec fn maybe(text: Option<String>) -> Option<Seq<char>> {
    match text {
        Some(text) => Some(text@),
        None => None,
    }
}

impl View for UrlParts {
    type V = UrlModel;

    open spec fn view(&self) -> UrlModel {
        UrlModel {
            scheme: self.scheme@,
            username: self.username@,
            has_password: self.has_password,
            host: maybe(self.host),
            port: self.port,
            path: self.path@,
            has_query: self.has_query,
            has_fragment: self.has_fragment,
        }
    }
}

/// What `url::Url::parse` reads from a text: the parts of the URL, or nothing where the text
/// is none.
pub uninterp spec fn url_read(text: Seq<char>) -> Option<UrlModel>;

/// `url::Url::parse`, and of the URL its scheme, user name, password, host, port (or the known
/// default of the scheme), path, query and fragment, as its accessors give them. What comes
/// back is a function of the text, [`url_read`].
#[verifier::external_body]
pub(crate) fn read_url(text: &str) -> (r: Option<UrlParts>)
    ensures
        match r {
            Some(parts) => url_read(text@) == Some(parts@),
            None => url_read(text@) is None,
        },
{
    url::Url::parse(text).ok().map(|url| UrlParts {
        scheme: url.scheme().to_string(),
        username: url.username().to_string(),
        has_password: url.password().is_some(),
        host: url.host_str().map(str::to_string),
        port: url.port_or_known_default(),
        path: url.path().to_string(),
        has_query: url.query().is_some(),
        has_fragment: url.fragment().is_some(),
    })
}

/// What the first group of a pattern captures at its first match in a text, by the rules of
/// the `regex` crate; nothing where the pattern is no regular expression, does not match, or
/// matches without that group.
pub uninterp spec fn regex_group(pattern: Seq<char>, text: Seq<char>) -> Option<Seq<char>>;

/// `regex::Regex::new`, then `captures`, then the first group: a function of the pattern and
/// the text, [`regex_group`].
#[verifier::external_body]
pub(crate) fn first_group(pattern: &str, text: &str) -> (r: Option<String>)
    ensures
        maybe(r) == regex_group(pattern@, text@),
{
    regex::Regex::new(pattern).ok()?.captures(text)?.get(1).map(|group| group.as_str().to_string())
}

/// The SHA-256 digest of some bytes.
pub uninterp spec fn sha256(bytes: Seq<u8>) -> Seq<u8>;

/// `sha2::Sha256::digest`: 32 bytes, a function of the input, [`sha256`].
#[verifier::external_body]
pub(crate) fn sha256_digest(bytes: &[u8]) -> (digest: Vec<u8>)
    ensures
        digest@ == sha256(bytes@),
        digest@.len() == 32,
{
    <sha2::Sha256 as sha2::Digest>::digest(bytes).to_vec()
}

/// A digit of a number in base 16, in lower case.
pub open spec fn hex_digit(n: int) -> char {
    if n < 10 {
        ('0' as int + n) as char
    } else {
        ('a' as int + n - 10) as char
    }
}

/// The bytes as hexadecimal digits, two for each, the higher one first.
pub open spec fn hex_text(bytes: Seq<u8>) -> Seq<char> {
    Seq::new(
        2 * bytes.len(),
        |i: int|
            if i % 2 == 0 {
                hex_digit(bytes[i / 2] as int / 16)
            } else {
                hex_digit(bytes[i / 2] as int % 16)
            },
    )
}

/// `hex::encode`: two lower-case hexadecimal digits for each byte, the higher one first.
#[verifier::external_body]
pub(crate) fn hex_encode(bytes: &[u8]) -> (text: String)
    ensures
        text@ == hex_text(bytes@),
{
    hex::encode(bytes)
}

/// What `image::load_from_memory` makes of some bytes: the width and the height of the image,
/// or the text of the error.
pub uninterp spec fn image_read(bytes: Seq<u8>) -> Result<(u32, u32), Seq<char>>;

/// `image::load_from_memory`: the size of the decoded image, or the text of the error; a
/// function of the bytes, [`image_read`]. The call consults the decoding and detection hooks of
/// the `image` crate, which belong to the whole process: the claim rests on none being
/// registered, and this library registers none.
#[verifier::external_body]
pub(crate) fn decode_image(bytes: &[u8]) -> (r: Result<(u32, u32), String>)
    ensures
        match r {
            Ok(size) => image_read(bytes@) == Ok::<(u32, u32), Seq<char>>(size),
            Err(text) => image_read(bytes@) == Err::<(u32, u32), Seq<char>>(text@),
        },
{
    match image::load_from_memory(bytes) {
        Ok(image) => Ok((image.width(), image.height())),
        Err(error) => Err(error.to_string()),
    }
}

/// Whether a text is a date and time of RFC 3339, as `chrono` reads it.
pub uninterp spec fn rfc3339(text: Seq<char>) -> bool;

/// `chrono::DateTime::parse_from_rfc3339`: whether it succeeds is a function of the text,
/// [`rfc3339`].
#[verifier::external_body]
pub(crate) fn is_rfc3339(text: &str) -> (r: bool)
    ensures
        r == rfc3339(text@),
{
    chrono::DateTime::parse_from_rfc3339(text).is_ok()
}

/// Whether a text is a version number, as `semver` reads it.
pub uninterp spec fn semantic_version(text: Seq<char>) -> bool;

/// `semver::Version::parse`: whether it succeeds is a function of the text,
/// [`semantic_version`].
#[verifier::external_body]
pub(crate) fn is_semantic_version(text: &str) -> (r: bool)
    ensures
        r == semantic_version(text@),
{
    semver::Version::parse(text).is_ok()
}

/// A digit of the standard Base64 alphabet.
pub open spec fn base64_digit(n: int) -> char {
    if n < 26 {
        ('A' as int + n) as char
    } else if n < 52 {
        ('a' as int + n - 26) as char
    } else if n < 62 {
        ('0' as int + n - 52) as char
    } else if n == 62 {
        '+'
    } else {
        '/'
    }
}

/// The bytes in standard Base64 with padding: each three bytes are four digits, and one or two
/// bytes at the end are two or three digits, filled up with `=`.
pub open spec fn base64_text(bytes: Seq<u8>) -> Seq<char>
    decreases bytes.len(),
{
    if bytes.len() == 0 {
        Seq::empty()
    } else {
        let a = bytes[0] as int;
        let b = if bytes.len() > 1 { bytes[1] as int } else { 0 };
        let c = if bytes.len() > 2 { bytes[2] as int } else { 0 };
        let group = seq![
            base64_digit(a / 4),
            base64_digit((a % 4) * 16 + b / 16),
            if bytes.len() > 1 { base64_digit((b % 16) * 4 + c / 64) } else { '=' },
            if bytes.len() > 2 { base64_digit(c % 64) } else { '=' },
        ];
        if bytes.len() <= 3 {
            group
        } else {
            group + base64_text(bytes.skip(3))
        }
    }
}

/// `base64::engine::general_purpose::STANDARD.encode`: standard Base64 with padding.
#[verifier::external_body]
pub(crate) fn base64_encode(bytes: &[u8]) -> (text: String)
    requires
        bytes@.len() <= 0x4000_0000,
    ensures
        text@ == base64_text(bytes@),
{
    base64::Engine::encode(&base64::engine::general_purpose::STANDARD, bytes)
}

/// The digits of a number in base 16, in lower case.
pub open spec fn lower_hex(c: char) -> bool {
    ('0' <= c && c <= '9') || ('a' <= c && c <= 'f')
}

/// What every random UUID looks like without hyphens: 32 lower-case hexadecimal digits, with
/// the version 4 and the variant of RFC 9562 in their places.
pub open spec fn random_uuid(text: Seq<char>) -> bool {
    &&& text.len() == 32
    &&& forall|i: int| 0 <= i < 32 ==> lower_hex(#[trigger] text[i])
    &&& text[12] == '4'
    &&& text[16] == '8' || text[16] == '9' || text[16] == 'a' || text[16] == 'b'
}

/// `uuid::Uuid::new_v4`, in its simple form: random, so only what holds of each is stated. It
/// panics where the system yields no random bytes, which no argument can rule out.
#[verifier::external_body]
pub(crate) fn new_uuid() -> (text: String)
    ensures
        random_uuid(text@),
{
    uuid::Uuid::new_v4().simple().to_string()
}

/// The place of the last dot in a name, or -1.
pub open spec fn last_dot(name: Seq<char>) -> int
    decreases name.len(),
{
    if name.len() == 0 {
        -1
    } else if name.last() == '.' {
        name.len() - 1
    } else {
        last_dot(name.drop_last())
    }
}

/// Whether a name is a single file name on every system: it holds nothing that any of them
/// takes for a separator or for the end of a drive's name.
pub open spec fn plain_name(name: Seq<char>) -> bool {
    !name.contains('/') && !name.contains('\\') && !name.contains(':')
}

/// The extension of a single file name: what follows its last dot, unless nothing stands before
/// that dot.
pub open spec fn plain_extension(name: Seq<char>) -> Option<Seq<char>> {
    if name == ".."@ || last_dot(name) <= 0 {
        None
    } else {
        Some(name.skip(last_dot(name) + 1))
    }
}

/// `std::path::Path::extension`: what follows the last dot of the file name, the last part of
/// the path. Where a file name begins and ends depends on the system that the program runs on:
/// Windows knows backslashes and drives. So the result is stated outright of plain names only;
/// of any other, that it holds no dot and stands behind one. Which of the parts of such a path
/// is its file name is not stated.
#[verifier::external_body]
pub(crate) fn path_extension(path: &str) -> (r: Option<String>)
    ensures
        plain_name(path@) ==> maybe(r) == plain_extension(path@),
        r is Some ==> !r->0@.contains('.') && occurs(path@, seq!['.'] + r->0@),
{
    std::path::Path::new(path).extension().and_then(|value| value.to_str()).map(str::to_owned)
}

} // verus!
