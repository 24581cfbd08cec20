//! The media-type strings that accompany a photo, such as
//! `image/png;base64`: a content type followed by the name of the encoding.
//!
//! Composing appends the encoding's name; parsing takes it off again and
//! hands the content type back unchanged, whatever it is. The file extension
//! of an exported photo is what remains once the leading `image/` is taken
//! off as well.

use vstd::prelude::*;

verus! {

/// The characters of `image`, the type of every image's content type.
pub open spec fn image_type() -> Seq<char> {
    seq!['i', 'm', 'a', 'g', 'e']
}

/// The characters of `image/`, which open the content type of every image.
pub open spec fn image_prefix() -> Seq<char> {
    image_type().push('/')
}

/// The characters of `;base64`, which close every media type.
pub open spec fn encoding_suffix() -> Seq<char> {
    seq![';', 'b', 'a', 's', 'e', '6', '4']
}

/// `text` without `prefix` at its start; `text` itself where it does not
/// start with `prefix`.
pub open spec fn without_prefix(text: Seq<char>, prefix: Seq<char>) -> Seq<char> {
    if prefix.is_prefix_of(text) {
        text.skip(prefix.len() as int)
    } else {
        text
    }
}

/// `text` without `suffix` at its end; `text` itself where it does not end
/// with `suffix`.
pub open spec fn without_suffix(text: Seq<char>, suffix: Seq<char>) -> Seq<char> {
    if suffix.is_suffix_of(text) {
        text.take(text.len() - suffix.len())
    } else {
        text
    }
}

/// The media type stored for a photo of the given content type.
pub open spec fn media_type_of(content_type: Seq<char>) -> Seq<char> {
    content_type + encoding_suffix()
}

/// The media type stored for an image file with the given extension.
pub open spec fn image_media_type_of(extension: Seq<char>) -> Seq<char> {
    media_type_of(image_prefix() + extension)
}

/// The content type that a media type names.
pub open spec fn content_type_of(media_type: Seq<char>) -> Seq<char> {
    without_suffix(media_type, encoding_suffix())
}

/// The file extension that a media type gives to an exported photo.
pub open spec fn extension_of(media_type: Seq<char>) -> Seq<char> {
    without_suffix(without_prefix(media_type, image_prefix()), encoding_suffix())
}

/// Whether a media type names the encoding of the photo it accompanies:
/// whether it ends with `;base64`.
pub open spec fn names_encoding(media_type: Seq<char>) -> bool {
    encoding_suffix().is_suffix_of(media_type)
}

/// Whether `c` may stand in the type of a content type: a lower-case letter.
pub open spec fn is_type_char(c: char) -> bool {
    'a' <= c <= 'z'
}

/// Whether `c` may stand in the subtype of a content type: a lower-case
/// letter, a digit, or one of `.`, `+` and `-`.
pub open spec fn is_subtype_char(c: char) -> bool {
    is_type_char(c) || '0' <= c <= '9' || c == '.' || c == '+' || c == '-'
}

/// The place of the slash in a content type.
pub open spec fn slash_of(content_type: Seq<char>) -> int {
    choose|i: int| 0 <= i < content_type.len() && content_type[i] == '/'
}

/// The type of a content type: what stands before its slash.
pub open spec fn type_of(content_type: Seq<char>) -> Seq<char> {
    content_type.take(slash_of(content_type))
}

/// The subtype of a content type: what stands after its slash.
pub open spec fn subtype_of(content_type: Seq<char>) -> Seq<char> {
    content_type.skip(slash_of(content_type) + 1)
}

/// Whether `text` is a content type in its plain form: a type of one or more
/// lower-case letters, a slash, and a subtype of one or more lower-case
/// letters, digits, `.`, `+` or `-`.
pub open spec fn is_content_type(text: Seq<char>) -> bool {
    &&& text.contains('/')
    &&& 0 < slash_of(text) < text.len() - 1
    &&& forall|i: int| 0 <= i < slash_of(text) ==> is_type_char(#[trigger] text[i])
    &&& forall|i: int| slash_of(text) < i < text.len() ==> is_subtype_char(#[trigger] text[i])
}

/// Every composed media type names the encoding.
pub proof fn lemma_composed_names_encoding(content_type: Seq<char>)
    ensures
        names_encoding(media_type_of(content_type)),
{
    let whole = media_type_of(content_type);
    assert(encoding_suffix() =~= whole.subrange(whole.len() - 7, whole.len() as int));
}

/// Parsing a composed media type hands back the content type it was
/// composed from, whatever that is.
pub proof fn lemma_parse_recovers_content_type(content_type: Seq<char>)
    ensures
        content_type_of(media_type_of(content_type)) == content_type,
{
    let whole = media_type_of(content_type);
    assert(encoding_suffix() =~= whole.subrange(whole.len() - 7, whole.len() as int));
    assert(whole.take(whole.len() - 7) =~= content_type);
}

/// The media type composed for an image file gives back the file's
/// extension, whatever that is.
pub proof fn lemma_extension_of_image_media_type(extension: Seq<char>)
    ensures
        extension_of(image_media_type_of(extension)) == extension,
{
    let whole = image_media_type_of(extension);
    let rest = extension + encoding_suffix();
    assert(image_prefix() =~= whole.subrange(0, 6));
    assert(whole.skip(6) =~= rest);
    assert(encoding_suffix() =~= rest.subrange(rest.len() - 7, rest.len() as int));
    assert(rest.take(rest.len() - 7) =~= extension);
}

/// Parsing a plain content type a second time changes nothing: what was
/// parsed from its media type holds no encoding's name to take off.
pub proof fn lemma_parse_is_idempotent(content_type: Seq<char>)
    requires
        is_content_type(content_type),
    ensures
        content_type_of(content_type_of(media_type_of(content_type))) == content_type_of(
            media_type_of(content_type),
        ),
{
    lemma_parse_recovers_content_type(content_type);
    let n = content_type.len() as int;
    if encoding_suffix().is_suffix_of(content_type) {
        assert(content_type.subrange(n - 7, n)[0] == ';');
        assert(content_type[n - 7] == ';');
        if n - 7 < slash_of(content_type) {
            assert(is_type_char(content_type[n - 7]));
        } else if n - 7 > slash_of(content_type) {
            assert(is_subtype_char(content_type[n - 7]));
        }
    }
}

/// For every plain content type whose type is `image`, the extension parsed
/// from its media type is its subtype, and parsing that a second time changes
/// nothing.
pub proof fn lemma_image_subtype_is_extension(content_type: Seq<char>)
    requires
        is_content_type(content_type),
        type_of(content_type) == image_type(),
    ensures
        extension_of(media_type_of(content_type)) == subtype_of(content_type),
        extension_of(subtype_of(content_type)) == subtype_of(content_type),
{
    let slash = slash_of(content_type);
    let subtype = subtype_of(content_type);
    assert(type_of(content_type).len() == 5);
    assert(slash == 5);
    assert forall|i: int| 0 <= i < 6 implies content_type[i] == image_prefix()[i] by {
        if i < 5 {
            assert(type_of(content_type)[i] == image_type()[i]);
        }
    }
    assert(content_type =~= image_prefix() + subtype);
    lemma_extension_of_image_media_type(subtype);
    assert forall|i: int| 0 <= i < subtype.len() implies is_subtype_char(
        #[trigger] subtype[i],
    ) by {
        assert(subtype[i] == content_type[i + 6]);
    }
    if image_prefix().is_prefix_of(subtype) {
        assert(subtype.subrange(0, 6)[5] == '/');
        assert(is_subtype_char(subtype[5]));
    }
    if encoding_suffix().is_suffix_of(subtype) {
        let m = subtype.len() as int;
        assert(subtype.subrange(m - 7, m)[0] == ';');
        assert(is_subtype_char(subtype[m - 7]));
    }
}

/// The literal `image/` holds the characters of [`image_prefix`].
proof fn lemma_image_literal()
    ensures
        "image/"@ == image_prefix(),
{
    reveal_strlit("image/");
    assert("image/"@ =~= image_prefix());
}

/// The literal `;base64` holds the characters of [`encoding_suffix`].
proof fn lemma_encoding_literal()
    ensures
        ";base64"@ == encoding_suffix(),
{
    reveal_strlit(";base64");
    assert(";base64"@ =~= encoding_suffix());
}

/// Whether `text` starts with `pattern`.
fn starts_with(text: &str, pattern: &str) -> (found: bool)
    ensures
        found == pattern@.is_prefix_of(text@),
{
    let n: usize = text.unicode_len();
    let m: usize = pattern.unicode_len();
    if m > n {
        return false;
    }
    let mut i: usize = 0;
    while i < m
        invariant
            i <= m <= n,
            n == text@.len(),
            m == pattern@.len(),
            forall|k: int| 0 <= k < i ==> text@[k] == pattern@[k],
        decreases m - i,
    {
        if text.get_char(i) != pattern.get_char(i) {
            return false;
        }
        i += 1;
    }
    true
}

/// Whether `text` ends with `pattern`.
fn ends_with(text: &str, pattern: &str) -> (found: bool)
    ensures
        found == pattern@.is_suffix_of(text@),
{
    let n: usize = text.unicode_len();
    let m: usize = pattern.unicode_len();
    if m > n {
        return false;
    }
    let shift: usize = n - m;
    let mut i: usize = 0;
    while i < m
        invariant
            i <= m <= n,
            shift == n - m,
            n == text@.len(),
            m == pattern@.len(),
            forall|k: int| 0 <= k < i ==> text@[shift + k] == pattern@[k],
        decreases m - i,
    {
        if text.get_char(shift + i) != pattern.get_char(i) {
            return false;
        }
        i += 1;
    }
    true
}

/// Whether `media_type` names the encoding of the photo it accompanies.
pub fn has_encoding_name(media_type: &str) -> (found: bool)
    ensures
        found == names_encoding(media_type@),
{
    proof {
        lemma_encoding_literal();
    }
    ends_with(media_type, ";base64")
}

/// Composes the media type to store with a photo: the content type, echoed
/// as it is, and the encoding's name.
pub fn compose_media_type(content_type: &str) -> (media_type: String)
    ensures
        media_type@ == media_type_of(content_type@),
        names_encoding(media_type@),
{
    proof {
        lemma_encoding_literal();
        lemma_composed_names_encoding(content_type@);
    }
    let mut media_type = String::from_str(content_type);
    media_type.append(";base64");
    media_type
}

/// Composes the media type of an image file from its extension.
pub fn image_media_type(extension: &str) -> (media_type: String)
    ensures
        media_type@ == image_media_type_of(extension@),
        names_encoding(media_type@),
{
    proof {
        lemma_image_literal();
    }
    let mut content_type = String::from_str("image/");
    content_type.append(extension);
    compose_media_type(content_type.as_str())
}

/// Parses a media type: hands back its content type, without the encoding's
/// name at the end. No content type is refused.
pub fn parse_media_type(media_type: &str) -> (content_type: String)
    ensures
        content_type@ == content_type_of(media_type@),
{
    proof {
        lemma_encoding_literal();
    }
    let n: usize = media_type.unicode_len();
    let end: usize = if ends_with(media_type, ";base64") {
        n - 7
    } else {
        n
    };
    String::from_str(media_type.substring_char(0, end))
}

/// The file extension under which a photo of this media type is exported.
pub fn file_extension(media_type: &str) -> (extension: String)
    ensures
        extension@ == extension_of(media_type@),
{
    proof {
        lemma_image_literal();
        lemma_encoding_literal();
    }
    let n: usize = media_type.unicode_len();
    let start: usize = if starts_with(media_type, "image/") {
        6
    } else {
        0
    };
    let rest = media_type.substring_char(start, n);
    let end: usize = if ends_with(rest, ";base64") {
        n - start - 7
    } else {
        n - start
    };
    String::from_str(rest.substring_char(0, end))
}

} // verus!
