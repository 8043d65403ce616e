//! The fixed-capacity text buffer that holds one display frame.
//!
//! The storage is `arrayvec::ArrayString`. The verifier cannot look inside
//! it, so this file states what its methods do and the rest of the crate is
//! proved against those statements. The items marked `external_body` are the
//! ones that are believed rather than proved.

use arrayvec::ArrayString;
use vstd::prelude::*;
use vstd::utf8::encode_utf8;

verus! {

/// Number of bytes a buffer can hold.
pub const CAPACITY: usize = 64;

/// A string of at most [`CAPACITY`] bytes, stored in place.
///
/// Wraps `arrayvec::ArrayString<[u8; 64]>`; the verifier is told nothing
/// about the field and knows the contents only as [`text`].
#[verifier::external_body]
#[derive(Debug, PartialEq, Eq)]
pub struct TextBuffer {
    inner: ArrayString<[u8; 64]>,
}

/// The characters a buffer holds, in order: the string that
/// `ArrayString::as_str` yields.
pub uninterp spec fn text(buf: TextBuffer) -> Seq<char>;

/// Number of bytes a text occupies once encoded as UTF-8.
pub open spec fn byte_len(chars: Seq<char>) -> nat {
    encode_utf8(chars).len()
}

/// `ArrayString::new`: a buffer that holds no characters.
#[verifier::external_body]
fn arraystring_new() -> (buf: TextBuffer)
    ensures
        text(buf) == Seq::<char>::empty(),
{
    TextBuffer { inner: ArrayString::new() }
}

/// `ArrayString::try_push`: appends `c` when its UTF-8 encoding fits in the
/// bytes that are left, and otherwise leaves the buffer as it was. The result
/// tells whether `c` was appended.
#[verifier::external_body]
pub(crate) fn arraystring_try_push(buf: &mut TextBuffer, c: char) -> (pushed: bool)
    ensures
        pushed == (byte_len(text(*old(buf))) + byte_len(seq![c]) <= CAPACITY),
        pushed ==> text(*final(buf)) == text(*old(buf)).push(c),
        !pushed ==> text(*final(buf)) == text(*old(buf)),
{
    buf.inner.try_push(c).is_ok()
}

/// `ArrayString::try_push_str`: appends `s` when its bytes fit in the bytes
/// that are left, and otherwise leaves the buffer as it was. The result tells
/// whether `s` was appended.
#[verifier::external_body]
pub(crate) fn arraystring_try_push_str(buf: &mut TextBuffer, s: &str) -> (pushed: bool)
    ensures
        pushed == (byte_len(text(*old(buf))) + byte_len(s@) <= CAPACITY),
        pushed ==> text(*final(buf)) == text(*old(buf)) + s@,
        !pushed ==> text(*final(buf)) == text(*old(buf)),
{
    buf.inner.try_push_str(s).is_ok()
}

/// `ArrayString::as_str`: the contents as a string slice.
#[verifier::external_body]
fn arraystring_as_str(buf: &TextBuffer) -> (s: &str)
    ensures
        s@ == text(*buf),
{
    buf.inner.as_str()
}

impl View for TextBuffer {
    type V = Seq<char>;

    open spec fn view(&self) -> Seq<char> {
        text(*self)
    }
}

impl TextBuffer {
    /// An empty buffer.
    pub fn new() -> (buf: TextBuffer)
        ensures
            buf@ == Seq::<char>::empty(),
    {
        arraystring_new()
    }

    /// The contents as a string slice.
    pub fn as_str(&self) -> (s: &str)
        ensures
            s@ == self@,
    {
        arraystring_as_str(self)
    }
}

} // verus!
