//! An iterator over UTF-8 characters decoded from a byte stream.
//!
//! Ill-formed input does not stop the stream: a byte that cannot begin a
//! character, a truncated or ill-formed continuation, or a combined value
//! that is no Unicode scalar each yield the replacement character, and
//! decoding continues behind them.  A stream that ends in the middle of a
//! character ends the iteration.

use vstd::prelude::*;
use vstd::slice::slice_to_vec;
use vstd::utf8::{
    is_leading_byte_width_1, is_leading_byte_width_2, is_leading_byte_width_3,
    is_leading_byte_width_4, is_continuation_byte, codepoint_width_2, codepoint_width_3,
    codepoint_width_4, is_scalar, char_u32_cast,
};

verus! {

/// Relies on char::from_u32: it returns Some exactly for Unicode scalar
/// values, and the returned character has the given value.
#[verifier::external_body]
fn char_from_u32(v: u32) -> (r: Option<char>)
    ensures
        r is Some <==> is_scalar(v),
        r matches Some(c) ==> c as u32 == v,
{
    char::from_u32(v)
}

/// The character that stands in for ill-formed input.
pub open spec fn replacement_char() -> char {
    '\u{FFFD}'
}

/// True when the `need` bytes after the leading byte are all well-formed
/// continuation bytes.
pub open spec fn continuations_ok(r: Seq<u8>, need: int) -> bool {
    forall|j: int| 1 <= j <= need ==> is_continuation_byte(#[trigger] r[j])
}

/// The codepoint combined from the leading byte and `need` continuation
/// bytes at the front of `r`.
pub open spec fn combined_codepoint(r: Seq<u8>, need: int) -> u32 {
    if need == 1 {
        codepoint_width_2(r[0], r[1])
    } else if need == 2 {
        codepoint_width_3(r[0], r[1], r[2])
    } else {
        codepoint_width_4(r[0], r[1], r[2], r[3])
    }
}

/// One decoding step after a multi-byte leading byte that asks for `need`
/// continuation bytes: the item handed out and the bytes consumed from `r`.
pub open spec fn utf8_step_tail(r: Seq<u8>, need: int) -> (Option<char>, int) {
    if r.len() == 1 {
        // the stream ends right after the leading byte: iteration ends
        (None::<char>, 1)
    } else if r.len() - 1 < need {
        // truncated character at the end of the stream
        (Some(replacement_char()), r.len() as int)
    } else if !continuations_ok(r, need) {
        (Some(replacement_char()), 1 + need)
    } else {
        let v = combined_codepoint(r, need);
        if is_scalar(v) {
            (Some(v as char), 1 + need)
        } else {
            (Some(replacement_char()), 1 + need)
        }
    }
}

/// One decoding step on the remaining bytes `r`: the item the iterator hands
/// out (`None` at the end of the stream) and the bytes consumed.
pub open spec fn utf8_step(r: Seq<u8>) -> (Option<char>, int) {
    if r.len() == 0 {
        (None::<char>, 0)
    } else {
        let b0 = r[0];
        if is_leading_byte_width_1(b0) {
            (Some(b0 as char), 1)
        } else if is_leading_byte_width_2(b0) {
            utf8_step_tail(r, 1)
        } else if is_leading_byte_width_3(b0) {
            utf8_step_tail(r, 2)
        } else if is_leading_byte_width_4(b0) {
            utf8_step_tail(r, 3)
        } else {
            // a stray continuation byte, or a byte no encoding begins with
            (Some(replacement_char()), 1)
        }
    }
}

proof fn lemma_width1_value(b: u8)
    by (bit_vector)
    requires
        b <= 0x7f,
    ensures
        vstd::utf8::codepoint_width_1(b) == b as u32,
{
}

proof fn lemma_width2_range(b1: u8, b2: u8)
    by (bit_vector)
    ensures
        codepoint_width_2(b1, b2) <= 0x7ff,
{
}

proof fn lemma_width3_range(b1: u8, b2: u8, b3: u8)
    by (bit_vector)
    ensures
        codepoint_width_3(b1, b2, b3) <= 0xffff,
{
}

proof fn lemma_width4_range(b1: u8, b2: u8, b3: u8, b4: u8)
    by (bit_vector)
    ensures
        codepoint_width_4(b1, b2, b3, b4) <= 0x1fffff,
{
}

/// A decoding step always makes progress: on a nonempty stream it consumes
/// at least one byte, and never more than remain, so a loop around
/// [`Utf8::next`] reaches the end of the stream.
pub proof fn lemma_step_progress(r: Seq<u8>)
    ensures
        r.len() > 0 ==> 1 <= utf8_step(r).1 <= r.len(),
        r.len() == 0 ==> utf8_step(r).1 == 0,
{
}

/// On input that begins with a well-formed UTF-8 encoding of one scalar, a
/// decoding step hands out exactly that scalar's character and consumes
/// exactly its encoding.
pub proof fn lemma_step_well_formed(r: Seq<u8>)
    requires
        vstd::utf8::valid_first_scalar(r),
    ensures
        utf8_step(r).0 == Some(vstd::utf8::decode_first_scalar(r) as char),
        utf8_step(r).1 == vstd::utf8::length_of_first_scalar(r),
{
    let b0 = r[0];
    if is_leading_byte_width_1(b0) {
        lemma_width1_value(b0);
    } else if is_leading_byte_width_2(b0) {
        assert(continuations_ok(r, 1));
        let v = codepoint_width_2(r[0], r[1]);
        lemma_width2_range(r[0], r[1]);
        assert(vstd::utf8::has_width_2_encoding(v));
    } else if is_leading_byte_width_3(b0) {
        assert(continuations_ok(r, 2));
        let v = codepoint_width_3(r[0], r[1], r[2]);
        lemma_width3_range(r[0], r[1], r[2]);
        assert(vstd::utf8::has_width_3_encoding(v));
    } else {
        assert(continuations_ok(r, 3));
        let v = codepoint_width_4(r[0], r[1], r[2], r[3]);
        lemma_width4_range(r[0], r[1], r[2], r[3]);
        assert(vstd::utf8::has_width_4_encoding(v));
    }
}

/// On a valid UTF-8 stream, each decoding step hands out the next character
/// of the stream's decoding and leaves a valid stream behind: iterating
/// yields exactly `decode_utf8` of the bytes.
pub proof fn lemma_step_decodes_stream(r: Seq<u8>)
    requires
        vstd::utf8::valid_utf8(r),
        r.len() > 0,
    ensures
        utf8_step(r).0 == Some(vstd::utf8::decode_utf8(r)[0]),
        r.subrange(utf8_step(r).1, r.len() as int) == vstd::utf8::pop_first_scalar(r),
        vstd::utf8::valid_utf8(r.subrange(utf8_step(r).1, r.len() as int)),
{
    lemma_step_well_formed(r);
    assert(r.subrange(utf8_step(r).1, r.len() as int) =~= vstd::utf8::pop_first_scalar(r));
}

/// An iterator over UTF-8 characters decoded from a buffered byte stream.
pub struct Utf8 {
    data: Vec<u8>,
    pos: usize,
}

impl Utf8 {
    /// The whole byte stream.
    pub closed spec fn spec_data(&self) -> Seq<u8> {
        self.data@
    }

    /// How many bytes have been consumed.
    pub closed spec fn spec_pos(&self) -> nat {
        self.pos as nat
    }

    /// Invariant: the position never passes the end of the stream.
    pub open spec fn wf(&self) -> bool {
        self.spec_pos() <= self.spec_data().len()
    }

    /// The bytes not yet decoded.
    pub open spec fn remaining(&self) -> Seq<u8> {
        self.spec_data().subrange(self.spec_pos() as int, self.spec_data().len() as int)
    }

    /// Wrap a byte stream for decoding.
    pub fn new(read: Vec<u8>) -> (r: Self)
        ensures
            r.wf(),
            r.spec_data() == read@,
            r.remaining() == read@,
    {
        let r = Utf8 { data: read, pos: 0 };
        proof {
            assert(r.remaining() =~= read@);
        }
        r
    }

    /// Take the byte stream back out.
    pub fn into_inner(self) -> (r: Vec<u8>)
        ensures
            r@ == self.spec_data(),
    {
        self.data
    }

    /// A reference to the underlying byte stream.
    pub fn inner(&self) -> (r: &Vec<u8>)
        ensures
            r@ == self.spec_data(),
    {
        &self.data
    }

    /// A mutable reference to the underlying byte stream.  The position is
    /// untouched, so shortening the stream below it leaves the iterator
    /// unusable until the stream grows back.
    pub fn inner_mut(&mut self) -> (r: &mut Vec<u8>)
        ensures
            r@ == old(self).spec_data(),
            final(self).spec_data() == final(r)@,
            final(self).spec_pos() == old(self).spec_pos(),
    {
        &mut self.data
    }

    /// Decode the next character, or report the end of the stream.
    pub fn next(&mut self) -> (r: Option<char>)
        requires
            old(self).wf(),
        ensures
            final(self).wf(),
            final(self).spec_data() == old(self).spec_data(),
            r == utf8_step(old(self).remaining()).0,
            final(self).spec_pos() == old(self).spec_pos() + utf8_step(old(self).remaining()).1,
    {
        let ghost rem = old(self).remaining();
        let n = self.data.len();
        if self.pos == n {
            return None;
        }
        let b0 = self.data[self.pos];
        assert(b0 == rem[0]);
        if b0 < 0x80 {
            self.pos = self.pos + 1;
            return Some(b0 as char);
        }
        let need: usize = if b0 < 0xC0 {
            0
        } else if b0 < 0xE0 {
            1
        } else if b0 < 0xF0 {
            2
        } else if b0 < 0xF8 {
            3
        } else {
            0
        };
        if need == 0 {
            self.pos = self.pos + 1;
            return Some('\u{FFFD}');
        }
        let avail = n - self.pos - 1;
        if avail == 0 {
            self.pos = self.pos + 1;
            return None;
        }
        if avail < need {
            self.pos = n;
            return Some('\u{FFFD}');
        }
        let b1 = self.data[self.pos + 1];
        assert(b1 == rem[1]);
        if !(0x80 <= b1 && b1 <= 0xBF) {
            self.pos = self.pos + 1 + need;
            return Some('\u{FFFD}');
        }
        let v: u32;
        if need == 1 {
            v = (((b0 & 0x1F) as u32) << 6) | ((b1 & 0x3F) as u32);
        } else {
            let b2 = self.data[self.pos + 2];
            assert(b2 == rem[2]);
            if !(0x80 <= b2 && b2 <= 0xBF) {
                self.pos = self.pos + 1 + need;
                return Some('\u{FFFD}');
            }
            if need == 2 {
                v = (((b0 & 0x0F) as u32) << 12) | (((b1 & 0x3F) as u32) << 6) | ((b2
                    & 0x3F) as u32);
            } else {
                let b3 = self.data[self.pos + 3];
                assert(b3 == rem[3]);
                if !(0x80 <= b3 && b3 <= 0xBF) {
                    self.pos = self.pos + 1 + need;
                    return Some('\u{FFFD}');
                }
                v = (((b0 & 0x07) as u32) << 18) | (((b1 & 0x3F) as u32) << 12) | (((b2
                    & 0x3F) as u32) << 6) | ((b3 & 0x3F) as u32);
            }
        }
        self.pos = self.pos + 1 + need;
        match char_from_u32(v) {
            Some(c) => {
                proof {
                    char_u32_cast(c, v);
                }
                Some(c)
            },
            None => Some('\u{FFFD}'),
        }
    }
}

/// Decoding a whole byte slice as UTF-8 characters.
pub trait AsUtf8 {
    /// The bytes the implementor exposes for decoding.
    spec fn bytes_view(&self) -> Seq<u8>;

    /// Decode these bytes as a stream of UTF-8 characters.
    fn as_utf8(&self) -> (r: Utf8)
        ensures
            r.wf(),
            r.remaining() == self.bytes_view(),
    ;
}

impl AsUtf8 for [u8] {
    open spec fn bytes_view(&self) -> Seq<u8> {
        self@
    }

    fn as_utf8(&self) -> (r: Utf8) {
        Utf8::new(slice_to_vec(self))
    }
}

} // verus!
