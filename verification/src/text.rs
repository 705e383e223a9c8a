//! Bytes as text: what UTF-8 validation and trimming give.
use vstd::prelude::*;
use vstd::string::StringSliceAdditionalSpecFns;
use vstd::utf8::{decode_utf8, valid_utf8};

verus! {

/// The error of `core::str::from_utf8`; nothing is read from it.
#[verifier::external_type_specification]
#[verifier::external_body]
pub struct ExUtf8Error(core::str::Utf8Error);

/// `core::str::from_utf8` succeeds exactly on valid UTF-8, and the string
/// slice it then gives has the bytes it was given.
pub assume_specification<'a>[ core::str::from_utf8 ](bytes: &'a [u8]) -> (text: Result<
    &'a str,
    core::str::Utf8Error,
>)
    ensures
        text is Ok <==> valid_utf8(bytes@),
        text matches Ok(s) ==> s.spec_bytes() == bytes@,
;

/// The characters that bytes stand for: their decoding where they are
/// valid UTF-8, nothing where they are not.
pub open spec fn text_of(bytes: Seq<u8>) -> Seq<char> {
    if valid_utf8(bytes) {
        decode_utf8(bytes)
    } else {
        Seq::empty()
    }
}

/// Whether a character is white space: the characters with the Unicode
/// property `White_Space`.
pub open spec fn is_white_space(c: char) -> bool {
    let code = c as u32;
    ||| 0x09 <= code <= 0x0d
    ||| code == 0x20
    ||| code == 0x85
    ||| code == 0xa0
    ||| code == 0x1680
    ||| 0x2000 <= code <= 0x200a
    ||| code == 0x2028
    ||| code == 0x2029
    ||| code == 0x202f
    ||| code == 0x205f
    ||| code == 0x3000
}

/// The characters without the white space at their start.
pub open spec fn trimmed_start(chars: Seq<char>) -> Seq<char>
    decreases chars.len(),
{
    if chars.len() > 0 && is_white_space(chars.first()) {
        trimmed_start(chars.drop_first())
    } else {
        chars
    }
}

/// The characters without the white space at their end.
pub open spec fn trimmed_end(chars: Seq<char>) -> Seq<char>
    decreases chars.len(),
{
    if chars.len() > 0 && is_white_space(chars.last()) {
        trimmed_end(chars.drop_last())
    } else {
        chars
    }
}

/// The characters without the white space at either end.
pub open spec fn trimmed(chars: Seq<char>) -> Seq<char> {
    trimmed_end(trimmed_start(chars))
}

/// `str::trim` gives the slice without its leading and trailing white
/// space, where white space is what Unicode's `White_Space` property
/// says.
pub assume_specification<'a>[ str::trim ](text: &'a str) -> (inner: &'a str)
    ensures
        inner@ == trimmed(text@),
;

/// Whether two byte slices hold the same bytes.
pub fn same_bytes(left: &[u8], right: &[u8]) -> (same: bool)
    ensures
        same == (left@ == right@),
{
    if left.len() != right.len() {
        return false;
    }
    for i in 0..left.len()
        invariant
            left@.len() == right@.len(),
            left@.take(i as int) == right@.take(i as int),
    {
        if left[i] != right[i] {
            return false;
        }
        assert(left@.take(i + 1) =~= left@.take(i as int).push(left@[i as int]));
        assert(right@.take(i + 1) =~= right@.take(i as int).push(right@[i as int]));
    }
    assert(left@.take(left@.len() as int) =~= left@);
    assert(right@.take(right@.len() as int) =~= right@);
    true
}

/// Whether the bytes begin with the prefix.
pub fn starts_with(bytes: &[u8], prefix: &[u8]) -> (starts: bool)
    ensures
        starts == prefix@.is_prefix_of(bytes@),
{
    if bytes.len() < prefix.len() {
        return false;
    }
    same_bytes(vstd::slice::slice_subrange(bytes, 0, prefix.len()), prefix)
}

} // verus!
