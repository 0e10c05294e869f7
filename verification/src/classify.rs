//! Deciding whether a file holds text.
//!
//! With an allowlist of extensions the extension alone decides. Without one
//! the first bytes of the file decide: a known signature of a text type, or
//! else whether the bytes are valid UTF-8. Signatures are recognised by the
//! `infer` crate: what it finds is named here, not proved. Validity as UTF-8
//! is decided here.

use vstd::prelude::*;
use vstd::utf8::{
    is_continuation_byte,
    length_of_first_scalar,
    pop_first_scalar,
    valid_first_scalar,
    valid_utf8,
};
use crate::paths::{extension, extension_of};
use crate::strings::{
    chars_eq_ignore_ascii_case,
    chars_have_prefix,
    chars_of,
    eq_ignore_ascii_case,
    has_prefix,
    views,
};

verus! {

/// How many bytes at the start of a file are looked at.
pub const SNIFF_LEN: usize = 8192;

/// The MIME type of the first signature that `infer` recognises in `bytes`,
/// if it recognises one.
pub uninterp spec fn sniffed_mime(bytes: Seq<u8>) -> Option<Seq<char>>;

/// The eight bytes with which a compound file of documents begins.
pub open spec fn compound_signature() -> Seq<u8> {
    seq![0xD0u8, 0xCFu8, 0x11u8, 0xE0u8, 0xA1u8, 0xB1u8, 0x1Au8, 0xE1u8]
}

/// Whether `bytes` begin as a compound file of documents does.
pub open spec fn is_compound_file(bytes: Seq<u8>) -> bool {
    bytes.len() >= 8 && bytes.take(8) == compound_signature()
}

/// `infer::get` finds the first known signature that the bytes match, and
/// `mime_type` gives the MIME type recorded for it. Bytes that begin as a
/// compound file does are kept from it: those alone it hands to a parser of
/// that format, of which it is not known here that it returns on every
/// input.
#[verifier::external_body]
fn sniff_mime(bytes: &[u8]) -> (r: Option<&'static str>)
    requires
        !is_compound_file(bytes@),
    ensures
        match r {
            Some(mime) => sniffed_mime(bytes@) == Some(mime@),
            None => sniffed_mime(bytes@) is None,
        },
{
    infer::get(bytes).map(|kind| kind.mime_type())
}

/// Whether `b` is a continuation byte of a UTF-8 sequence.
fn is_continuation(b: u8) -> (r: bool)
    ensures
        r == is_continuation_byte(b),
{
    0x80 <= b && b <= 0xbf
}

/// The number of bytes of the well-formed scalar with which `bytes` begins
/// at `at`, or `None` if what begins there is not one.
fn scalar_width(bytes: &[u8], at: usize) -> (r: Option<usize>)
    requires
        at < bytes.len(),
    ensures
        match r {
            Some(width) => {
                &&& valid_first_scalar(bytes@.subrange(at as int, bytes@.len() as int))
                &&& width == length_of_first_scalar(bytes@.subrange(at as int, bytes@.len() as int))
                &&& 1 <= width <= bytes.len() - at
            },
            None => !valid_first_scalar(bytes@.subrange(at as int, bytes@.len() as int)),
        },
{
    let ghost rest = bytes@.subrange(at as int, bytes@.len() as int);
    let left: usize = bytes.len() - at;
    let b0: u8 = bytes[at];
    assert(rest[0] == b0);
    if b0 <= 0x7f {
        Some(1)
    } else if 0xc0 <= b0 && b0 <= 0xdf {
        if left < 2 {
            return None;
        }
        let b1: u8 = bytes[at + 1];
        assert(rest[1] == b1);
        if !is_continuation(b1) {
            return None;
        }
        let code: u32 = (((b0 & 0x1F) as u32) << 6) | ((b1 & 0x3f) as u32);
        if 0x80 <= code && !(0xD800 <= code && code <= 0xDFFF) {
            Some(2)
        } else {
            None
        }
    } else if 0xe0 <= b0 && b0 <= 0xef {
        if left < 3 {
            return None;
        }
        let b1: u8 = bytes[at + 1];
        let b2: u8 = bytes[at + 2];
        assert(rest[1] == b1);
        assert(rest[2] == b2);
        if !is_continuation(b1) || !is_continuation(b2) {
            return None;
        }
        let code: u32 = (((b0 & 0x0F) as u32) << 12) | (((b1 & 0x3f) as u32) << 6) | ((b2
            & 0x3f) as u32);
        if 0x800 <= code && !(0xD800 <= code && code <= 0xDFFF) {
            Some(3)
        } else {
            None
        }
    } else if 0xf0 <= b0 && b0 <= 0xf7 {
        if left < 4 {
            return None;
        }
        let b1: u8 = bytes[at + 1];
        let b2: u8 = bytes[at + 2];
        let b3: u8 = bytes[at + 3];
        assert(rest[1] == b1);
        assert(rest[2] == b2);
        assert(rest[3] == b3);
        if !is_continuation(b1) || !is_continuation(b2) || !is_continuation(b3) {
            return None;
        }
        let code: u32 = (((b0 & 0x07) as u32) << 18) | (((b1 & 0x3f) as u32) << 12) | (((b2
            & 0x3f) as u32) << 6) | ((b3 & 0x3f) as u32);
        if 0x10000 <= code && code <= 0x10ffff && !(0xD800 <= code && code <= 0xDFFF) {
            Some(4)
        } else {
            None
        }
    } else {
        None
    }
}

/// Whether `bytes` are valid UTF-8.
pub fn is_utf8(bytes: &[u8]) -> (r: bool)
    ensures
        r == valid_utf8(bytes@),
{
    let mut at: usize = 0;
    assert(bytes@.subrange(0, bytes@.len() as int) =~= bytes@);
    while at < bytes.len()
        invariant
            at <= bytes.len(),
            valid_utf8(bytes@) == valid_utf8(bytes@.subrange(at as int, bytes@.len() as int)),
        decreases bytes.len() - at,
    {
        let ghost rest = bytes@.subrange(at as int, bytes@.len() as int);
        match scalar_width(bytes, at) {
            Some(width) => {
                assert(pop_first_scalar(rest) =~= bytes@.subrange(
                    at + width,
                    bytes@.len() as int,
                ));
                at += width;
            },
            None => {
                return false;
            },
        }
    }
    true
}

/// The prefix of the MIME types of text.
pub open spec fn text_category() -> Seq<char> {
    seq!['t', 'e', 'x', 't', '/']
}

/// Whether a sniffed MIME type is one of text.
pub open spec fn is_text_mime(mime: Option<Seq<char>>) -> bool {
    mime matches Some(m) && has_prefix(m, text_category())
}

/// Whether content counts as text, given the number of bytes looked at, the
/// MIME type sniffed from them and whether they are valid UTF-8. Empty content
/// is never text.
pub open spec fn content_is_text(len: nat, mime: Option<Seq<char>>, utf8: bool) -> bool {
    len > 0 && (is_text_mime(mime) || utf8)
}

/// Whether the bytes at the start of a file mark it as text. A compound
/// file of documents is no text: its first bytes are not valid UTF-8, and
/// they are the signature of a format that is not one of text.
pub open spec fn sniffs_as_text(prefix: Seq<u8>) -> bool {
    !is_compound_file(prefix) && content_is_text(
        prefix.len(),
        sniffed_mime(prefix),
        valid_utf8(prefix),
    )
}

/// Whether the extension of `path` equals an entry of `allowed`, up to the
/// case of ASCII letters. A path without an extension has none that is allowed.
pub open spec fn extension_allowed(path: Seq<char>, allowed: Seq<Seq<char>>) -> bool {
    extension(path) matches Some(e) && exists|i: int|
        0 <= i < allowed.len() && eq_ignore_ascii_case(#[trigger] allowed[i], e)
}

/// Whether a file is text. A non-empty allowlist decides alone, by the
/// extension; otherwise the bytes at the start of the file decide.
pub open spec fn is_text(path: Seq<char>, allowed: Seq<Seq<char>>, prefix: Seq<u8>) -> bool {
    if allowed.len() > 0 {
        extension_allowed(path, allowed)
    } else {
        sniffs_as_text(prefix)
    }
}

/// Whether a sniffed MIME type is one of text.
pub fn mime_is_text(mime: Option<&str>) -> (r: bool)
    ensures
        r == is_text_mime(
            match mime {
                Some(m) => Some(m@),
                None => None,
            },
        ),
{
    match mime {
        Some(m) => {
            let chars: Vec<char> = chars_of(m);
            let mut category: Vec<char> = Vec::new();
            category.push('t');
            category.push('e');
            category.push('x');
            category.push('t');
            category.push('/');
            assert(category@ =~= text_category());
            chars_have_prefix(chars.as_slice(), category.as_slice())
        },
        None => false,
    }
}

/// Classifies content from what was found in its first bytes.
pub fn classify_content(len: usize, mime: Option<&str>, utf8: bool) -> (r: bool)
    ensures
        r == content_is_text(
            len as nat,
            match mime {
                Some(m) => Some(m@),
                None => None,
            },
            utf8,
        ),
{
    len > 0 && (mime_is_text(mime) || utf8)
}

/// Whether the bytes at the start of a file mark it as text.
pub fn is_text_content(prefix: &[u8]) -> (r: bool)
    ensures
        r == sniffs_as_text(prefix@),
{
    if prefix.len() == 0 || begins_compound_file(prefix) {
        return false;
    }
    classify_content(prefix.len(), sniff_mime(prefix), is_utf8(prefix))
}

/// Whether `bytes` begin as a compound file of documents does.
pub fn begins_compound_file(bytes: &[u8]) -> (r: bool)
    ensures
        r == is_compound_file(bytes@),
{
    if bytes.len() < 8 {
        return false;
    }
    let r: bool = bytes[0] == 0xD0u8 && bytes[1] == 0xCFu8 && bytes[2] == 0x11u8 && bytes[3]
        == 0xE0u8 && bytes[4] == 0xA1u8 && bytes[5] == 0xB1u8 && bytes[6] == 0x1Au8 && bytes[7]
        == 0xE1u8;
    proof {
        let head = bytes@.take(8);
        if r {
            assert(head =~= compound_signature());
        } else {
            assert(head[0] == bytes@[0] && head[1] == bytes@[1] && head[2] == bytes@[2]
                && head[3] == bytes@[3] && head[4] == bytes@[4] && head[5] == bytes@[5]
                && head[6] == bytes@[6] && head[7] == bytes@[7]);
        }
    }
    r
}

/// The first bytes of a compound file of documents are not valid UTF-8, so
/// that only a signature could have marked such a file as text.
pub proof fn lemma_compound_file_is_not_utf8(bytes: Seq<u8>)
    requires
        is_compound_file(bytes),
    ensures
        !valid_utf8(bytes),
{
    let head = bytes.take(8);
    assert(bytes[0] == head[0]);
    assert(bytes[1] == head[1]);
    assert(!is_continuation_byte(bytes[1]));
    assert(!valid_first_scalar(bytes));
}

/// Whether the extension of `path` is on the allowlist.
pub fn has_allowed_extension(path: &str, allowed: &Vec<String>) -> (r: bool)
    ensures
        r == extension_allowed(path@, views(allowed@)),
{
    let chars: Vec<char> = chars_of(path);
    match extension_of(chars.as_slice()) {
        Some(e) => {
            let ghost list = views(allowed@);
            let mut i: usize = 0;
            while i < allowed.len()
                invariant
                    i <= allowed.len(),
                    list == views(allowed@),
                    extension(path@) == Some(e@),
                    forall|j: int| 0 <= j < i ==> !eq_ignore_ascii_case(#[trigger] list[j], e@),
                decreases allowed.len() - i,
            {
                let entry: Vec<char> = chars_of(allowed[i].as_str());
                if chars_eq_ignore_ascii_case(entry.as_slice(), e.as_slice()) {
                    assert(eq_ignore_ascii_case(list[i as int], e@));
                    return true;
                }
                i += 1;
            }
            false
        },
        None => false,
    }
}

/// Decides whether a file is treated as text.
///
/// With a non-empty allowlist the extension decides and `prefix` is not looked
/// at, so a caller need not read the file. Without one, `prefix` holds the
/// first bytes of the file, at most `SNIFF_LEN` of them.
pub fn is_text_file(path: &str, allowed_exts: &Vec<String>, prefix: &[u8]) -> (r: bool)
    ensures
        r == is_text(path@, views(allowed_exts@), prefix@),
        allowed_exts@.len() > 0 ==> r == extension_allowed(path@, views(allowed_exts@)),
{
    if allowed_exts.len() > 0 {
        has_allowed_extension(path, allowed_exts)
    } else {
        is_text_content(prefix)
    }
}

/// A non-empty allowlist is authoritative: the content of the file has no
/// effect on the decision.
pub proof fn lemma_allowlist_is_authoritative(
    path: Seq<char>,
    allowed: Seq<Seq<char>>,
    prefix: Seq<u8>,
    other: Seq<u8>,
)
    requires
        allowed.len() > 0,
    ensures
        is_text(path, allowed, prefix) == is_text(path, allowed, other),
        is_text(path, allowed, prefix) == extension_allowed(path, allowed),
{
}

} // verus!
