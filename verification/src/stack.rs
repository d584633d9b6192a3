//! A stack-bounded, non-heap string buffer.  The owned FFI buffer uses it to
//! format a single character without a heap round-trip.

use vstd::prelude::*;
use vstd::slice::slice_subrange;
use vstd::string::StringSliceAdditionalSpecFns;
use vstd::utf8::{encode_utf8, decode_utf8, valid_utf8, encode_scalar};
use vstd::utf8::{
    encode_utf8_valid_utf8, encode_utf8_decode_utf8, valid_utf8_concat, char_is_scalar,
    has_width_1_encoding, has_width_2_encoding, has_width_3_encoding, is_scalar,
};

verus! {

/// Failed to push data into a stack string: the new data would overflow the
/// fixed-size buffer.  The string is left as it was before the call.
#[derive(Debug)]
pub struct PushError;

/// The UTF-8 encoding of one character is the encoding of the one-character
/// sequence, and is itself valid UTF-8.
pub proof fn lemma_encode_scalar_single(c: char)
    ensures
        encode_scalar(c as u32) == encode_utf8(seq![c]),
        valid_utf8(encode_scalar(c as u32)),
{
    let s = seq![c];
    assert(s.len() == 1 && s[0] == c);
    assert(s.drop_first() =~= Seq::<char>::empty());
    assert(encode_utf8(s.drop_first()) =~= Seq::<u8>::empty());
    assert(encode_utf8(s) == encode_scalar(c as u32) + encode_utf8(s.drop_first()));
    assert(encode_scalar(c as u32) + Seq::<u8>::empty() =~= encode_scalar(c as u32));
    encode_utf8_valid_utf8(s);
}

/// A character's UTF-8 encoding takes between 1 and 4 bytes.
pub proof fn lemma_encode_scalar_len(c: char)
    ensures
        1 <= encode_scalar(c as u32).len() <= 4,
{
    char_is_scalar(c);
}

/// Stack-allocated string: a fixed array of `CAPACITY` bytes of which a
/// prefix is in use, always holding valid UTF-8.
#[derive(Clone, Copy)]
pub struct StackString<const CAPACITY: usize> {
    buf: [u8; CAPACITY],
    len: usize,
}

impl<const CAPACITY: usize> View for StackString<CAPACITY> {
    type V = Seq<u8>;

    closed spec fn view(&self) -> Seq<u8> {
        self.buf@.subrange(0, self.len as int)
    }
}

impl<const CAPACITY: usize> StackString<CAPACITY> {
    /// Bytes of the buffer currently in use.
    pub closed spec fn spec_len(&self) -> nat {
        self.len as nat
    }

    /// Invariants: the used prefix fits in the buffer and holds valid UTF-8.
    pub open spec fn wf(&self) -> bool {
        &&& self.spec_len() <= CAPACITY
        &&& valid_utf8(self@)
    }

    /// Create an empty string.
    pub fn new() -> (r: Self)
        ensures
            r.wf(),
            r@ == Seq::<u8>::empty(),
    {
        let buf = vstd::array::array_fill_for_copy_types::<u8, CAPACITY>(0u8);
        let r = StackString { buf, len: 0 };
        proof {
            assert(r@ =~= Seq::<u8>::empty());
        }
        r
    }

    /// The length of this string in bytes.
    pub fn len(&self) -> (r: usize)
        requires
            self.wf(),
        ensures
            r == self@.len(),
    {
        self.len
    }

    /// Whether this string is empty.
    pub fn is_empty(&self) -> (r: bool)
        requires
            self.wf(),
        ensures
            r == (self@.len() == 0),
    {
        self.len == 0
    }

    /// The string's capacity: always the value provided as a generic
    /// argument.
    pub fn capacity(&self) -> (r: usize)
        ensures
            r == CAPACITY,
    {
        CAPACITY
    }

    /// Append a character's UTF-8 encoding.  If there is not enough empty
    /// space in the buffer, [`PushError`] is returned and the string is left
    /// exactly as it was.
    pub fn push(&mut self, c: char) -> (r: Result<(), PushError>)
        requires
            old(self).wf(),
        ensures
            final(self).wf(),
            old(self)@.len() + encode_scalar(c as u32).len() <= CAPACITY ==> {
                &&& r is Ok
                &&& final(self)@ == old(self)@ + encode_scalar(c as u32)
            },
            old(self)@.len() + encode_scalar(c as u32).len() > CAPACITY ==> {
                &&& r is Err
                &&& *final(self) == *old(self)
            },
    {
        let u = c as u32;
        proof {
            char_is_scalar(c);
            lemma_encode_scalar_single(c);
        }
        let clen: usize = if u < 0x80 {
            1
        } else if u < 0x800 {
            2
        } else if u < 0x10000 {
            3
        } else {
            4
        };
        assert(clen as int == encode_scalar(u).len());
        if clen > CAPACITY - self.len {
            return Err(PushError);
        }
        let ghost orig = *self;
        let base = self.len;
        if u < 0x80 {
            self.buf[base] = (u & 0x7F) as u8;
        } else if u < 0x800 {
            self.buf[base] = 0xC0u8 | (((u >> 6) & 0x1F) as u8);
            self.buf[base + 1] = 0x80u8 | ((u & 0x3F) as u8);
        } else if u < 0x10000 {
            self.buf[base] = 0xE0u8 | (((u >> 12) & 0x0F) as u8);
            self.buf[base + 1] = 0x80u8 | (((u >> 6) & 0x3F) as u8);
            self.buf[base + 2] = 0x80u8 | ((u & 0x3F) as u8);
        } else {
            self.buf[base] = 0xF0u8 | (((u >> 18) & 0x7) as u8);
            self.buf[base + 1] = 0x80u8 | (((u >> 12) & 0x3F) as u8);
            self.buf[base + 2] = 0x80u8 | (((u >> 6) & 0x3F) as u8);
            self.buf[base + 3] = 0x80u8 | ((u & 0x3F) as u8);
        }
        self.len = base + clen;
        proof {
            assert(self@ =~= orig@ + encode_scalar(u));
            valid_utf8_concat(orig@, encode_scalar(u));
        }
        Ok(())
    }

    /// Append a string slice's bytes.  If there is not enough empty space in
    /// the buffer, [`PushError`] is returned and the string is left exactly
    /// as it was.
    pub fn push_str(&mut self, s: &str) -> (r: Result<(), PushError>)
        requires
            old(self).wf(),
        ensures
            final(self).wf(),
            old(self)@.len() + s.spec_bytes().len() <= CAPACITY ==> {
                &&& r is Ok
                &&& final(self)@ == old(self)@ + s.spec_bytes()
            },
            old(self)@.len() + s.spec_bytes().len() > CAPACITY ==> {
                &&& r is Err
                &&& *final(self) == *old(self)
            },
    {
        let sb = s.as_bytes();
        let olen = sb.len();
        if olen > CAPACITY - self.len {
            return Err(PushError);
        }
        let ghost orig = *self;
        let base = self.len;
        let mut i: usize = 0;
        while i < olen
            invariant
                i <= olen,
                olen == sb@.len(),
                sb@ == s.spec_bytes(),
                base == orig.len,
                self.len == orig.len,
                base + olen <= CAPACITY,
                self.buf@.len() == CAPACITY,
                forall|j: int| 0 <= j < base ==> self.buf@[j] == orig.buf@[j],
                forall|j: int| 0 <= j < i ==> self.buf@[base + j] == sb@[j],
            decreases olen - i,
        {
            self.buf[base + i] = sb[i];
            i += 1;
        }
        self.len = base + olen;
        proof {
            assert(self@ =~= orig@ + sb@);
            encode_utf8_valid_utf8(s@);
            valid_utf8_concat(orig@, sb@);
        }
        Ok(())
    }

    /// The bytes of this string, up to its length.
    pub fn as_bytes(&self) -> (r: &[u8])
        requires
            self.wf(),
        ensures
            r@ == self@,
    {
        slice_subrange(self.buf.as_slice(), 0, self.len)
    }

    /// The contents as a native string slice; sound because the buffer's
    /// invariant keeps the contents valid UTF-8.
    pub fn as_str(&self) -> (r: &str)
        requires
            self.wf(),
        ensures
            r@ == decode_utf8(self@),
            r.spec_bytes() == self@,
    {
        let r = crate::ffi::bytes_as_str(self.as_bytes());
        proof {
            encode_utf8_decode_utf8(r@);
        }
        r
    }
}

impl<const CAPACITY: usize> Default for StackString<CAPACITY> {
    /// The same as [`StackString::new`].
    fn default() -> (r: Self)
        ensures
            r.wf(),
            r@ == Seq::<u8>::empty(),
    {
        Self::new()
    }
}

} // verus!
