//! Text helpers shared by the other modules.

use vstd::prelude::*;
use vstd::string::*;

verus! {

/// `String::push` appends the given character to the end of the string.
pub assume_specification[ String::push ](s: &mut String, c: char)
    ensures
        final(s)@ == old(s)@.push(c),
;

/// `String::pop` removes the last character and returns it, or returns `None` on an empty string.
pub assume_specification[ String::pop ](s: &mut String) -> (last: Option<char>)
    ensures
        old(s)@.len() == 0 ==> last is None && final(s)@ == old(s)@,
        old(s)@.len() > 0 ==> last == Some(old(s)@.last()) && final(s)@ == old(s)@.drop_last(),
;

/// `String::with_capacity` returns an empty string. It panics if the capacity exceeds `isize::MAX`
/// bytes.
pub assume_specification[ String::with_capacity ](capacity: usize) -> (s: String)
    requires
        capacity <= isize::MAX,
    ensures
        s@ == Seq::<char>::empty(),
;

/// The views of a sequence of strings.
pub open spec fn texts(strings: Seq<String>) -> Seq<Seq<char>> {
    Seq::new(strings.len(), |i: int| strings[i]@)
}

/// A text in double quotes, with what cannot be printed escaped.
pub uninterp spec fn debug_text(text: Seq<char>) -> Seq<char>;

/// The `Debug` format of `str`. Its escapes are left to `debug_text`, a function of the text
/// alone.
#[verifier::external_body]
pub(crate) fn quoted(text: &str) -> (result: String)
    ensures
        result@ == debug_text(text@),
{
    format!("{:?}", text)
}

/// Whether a byte range of a text begins and ends between characters.
pub open spec fn can_slice(text: Seq<char>, from: int, to: int) -> bool {
    let bytes = vstd::utf8::encode_utf8(text);
    0 <= from <= to <= bytes.len() && vstd::utf8::is_char_boundary(bytes, from)
        && vstd::utf8::is_char_boundary(bytes, to)
}

/// The characters in a byte range of a text.
pub open spec fn slice_of(text: Seq<char>, from: int, to: int) -> Seq<char> {
    vstd::utf8::decode_utf8(vstd::utf8::encode_utf8(text).subrange(from, to))
}

/// The part of a text in a byte range.
pub(crate) fn slice<'a>(text: &'a str, from: usize, to: usize) -> (part: &'a str)
    requires
        can_slice(text@, from as int, to as int),
    ensures
        part@ == slice_of(text@, from as int, to as int),
{
    let ghost bytes = text.spec_bytes();
    let (left, _) = text.split_at(to);
    proof {
        broadcast use vstd::utf8::group_utf8_lib;
        assert(left.spec_bytes() == bytes.subrange(0, to as int));
        if from < to {
            assert(left.spec_bytes()[from as int] == bytes[from as int]);
            vstd::utf8::is_char_boundary_iff_not_is_continuation_byte(bytes, from as int);
            vstd::utf8::is_char_boundary_iff_not_is_continuation_byte(
                left.spec_bytes(),
                from as int,
            );
        }
    }
    let (_, part) = left.split_at(from);
    proof {
        broadcast use vstd::utf8::group_utf8_lib;
        assert(part.spec_bytes() =~= bytes.subrange(from as int, to as int));
    }
    part
}

/// Whether a text begins with another.
pub(crate) fn starts_with(text: &str, prefix: &str) -> (found: bool)
    ensures
        found == prefix@.is_prefix_of(text@),
{
    let text_len: usize = text.unicode_len();
    let prefix_len: usize = prefix.unicode_len();
    if text_len < prefix_len {
        return false;
    }
    for i in 0..prefix_len
        invariant
            prefix_len == prefix@.len(),
            prefix_len <= text@.len(),
            prefix@.take(i as int) =~= text@.take(i as int),
    {
        if prefix.get_char(i) != text.get_char(i) {
            assert(prefix@[i as int] != text@.subrange(0, prefix@.len() as int)[i as int]);
            return false;
        }
        assert(prefix@.take(i + 1) =~= prefix@.take(i as int).push(prefix@[i as int]));
        assert(text@.take(i + 1) =~= text@.take(i as int).push(text@[i as int]));
    }
    assert(prefix@.take(prefix_len as int) =~= prefix@);
    true
}

/// Whether two texts are the same.
pub(crate) fn same_text(a: &str, b: &str) -> (same: bool)
    ensures
        same == (a@ == b@),
{
    if a.unicode_len() != b.unicode_len() {
        return false;
    }
    assert(b@.is_prefix_of(a@) <==> a@ =~= b@);
    starts_with(a, b)
}

/// In a text of ASCII characters, bytes are characters.
pub proof fn lemma_ascii_slice(text: Seq<char>, from: int, to: int)
    requires
        vstd::utf8::is_ascii_chars(text),
        0 <= from <= to <= text.len(),
    ensures
        can_slice(text, from, to),
        slice_of(text, from, to) == text.subrange(from, to),
        vstd::utf8::encode_utf8(text).len() == text.len(),
{
    broadcast use vstd::utf8::group_utf8_lib;

    let bytes = vstd::utf8::encode_utf8(text);
    let part = text.subrange(from, to);
    vstd::utf8::is_ascii_chars_encode_utf8(text);
    assert(vstd::utf8::is_ascii_chars(part));
    vstd::utf8::is_ascii_chars_encode_utf8(part);
    assert(vstd::utf8::encode_utf8(part) =~= bytes.subrange(from, to)) by {
        assert forall|i: int| 0 <= i < part.len() implies vstd::utf8::encode_utf8(part)[i]
            == bytes.subrange(from, to)[i] by {
            assert(part[i] == text[from + i]);
            assert(vstd::utf8::encode_utf8(part)[i] == part[i] as u8);
            assert(bytes[from + i] == text[from + i] as u8);
        }
    }
    assert forall|i: int| 0 <= i <= text.len() implies #[trigger] vstd::utf8::is_char_boundary(
        bytes,
        i,
    ) by {
        if i < text.len() {
            assert(bytes[i] == text[i] as u8);
            assert(!vstd::utf8::is_continuation_byte(bytes[i]));
        }
    }
}

} // verus!
