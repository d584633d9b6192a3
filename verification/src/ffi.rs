//! An FFI-compatible string representation: a borrowed UTF-8 view, a plain
//! wide pointer used only to cross the foreign boundary, and an owned
//! growable buffer that carries a destructor reference so the correct
//! allocator always frees it, regardless of which side allocated.

use vstd::prelude::*;
use vstd::slice::slice_subrange;
use vstd::string::StringSliceAdditionalSpecFns;
use vstd::utf8::{encode_utf8, decode_utf8, valid_utf8, encode_scalar};
use vstd::utf8::{encode_utf8_valid_utf8, encode_utf8_decode_utf8, valid_utf8_concat};

use crate::growth::{grow_target, next_pow2_exec, lemma_grow_target_doubles};
use crate::stack::StackString;

verus! {

/// Relies on core::str::from_utf8: a byte slice holding valid UTF-8 is
/// returned as a string slice over exactly those bytes (and the call cannot
/// fail on such a slice).
#[verifier::external_body]
pub(crate) fn bytes_as_str(bytes: &[u8]) -> (r: &str)
    requires
        valid_utf8(bytes@),
    ensures
        r.spec_bytes() == bytes@,
{
    core::str::from_utf8(bytes).unwrap()
}

/// An FFI-compatible string slice: a borrowed view asserting that a byte
/// range is valid UTF-8 and usable as a native string.  It owns nothing and
/// lives exactly as long as the buffer it references.
///
/// It cannot be passed over the boundary on its own; [`FfiStr::as_ptr`]
/// yields the wide pointer that can.
#[derive(Clone, Copy)]
pub struct FfiStr<'a> {
    inner: &'a str,
}

impl<'a> View for FfiStr<'a> {
    type V = Seq<char>;

    closed spec fn view(&self) -> Seq<char> {
        self.inner@
    }
}

impl<'a> FfiStr<'a> {
    /// The UTF-8 bytes this view stands for.
    pub open spec fn spec_bytes(&self) -> Seq<u8> {
        encode_utf8(self@)
    }

    /// Convert a native string slice to an [`FfiStr`]; zero cost, cannot fail.
    pub fn from_str(s: &'a str) -> (r: Self)
        ensures
            r@ == s@,
    {
        FfiStr { inner: s }
    }

    /// Create an [`FfiStr`] from bytes.  What an unchecked constructor asks
    /// of its caller as a promise — that the buffer holds well-formed
    /// UTF-8 — is asked here as a proof obligation.
    pub fn from_utf8_unchecked(slice: &'a [u8]) -> (r: Self)
        requires
            valid_utf8(slice@),
        ensures
            r.spec_bytes() == slice@,
            r@ == decode_utf8(slice@),
    {
        let r = FfiStr { inner: bytes_as_str(slice) };
        proof {
            encode_utf8_decode_utf8(r@);
        }
        r
    }

    /// Get the native string slice back; always succeeds.
    pub fn as_str(&self) -> (r: &'a str)
        ensures
            r@ == self@,
    {
        self.inner
    }

    /// Get this string's underlying bytes.
    pub fn as_bytes(&self) -> (r: &'a [u8])
        ensures
            r@ == self.spec_bytes(),
    {
        self.inner.as_bytes()
    }

    /// Make this view passable over the boundary: an (address, length) pair
    /// referencing the same bytes, without copying.
    pub fn as_ptr(&self) -> (r: FfiStrPtr<'a>)
        ensures
            r@ == self@,
    {
        FfiStrPtr { buf: self.inner }
    }

    /// Copy this view into an owned [`FfiString`]; always allocates a fresh
    /// buffer of exactly the view's byte length (none when the view is empty).
    pub fn to_ffi_string(&self) -> (r: FfiString)
        ensures
            r.wf(),
            r@ == self.spec_bytes(),
            r.spec_capacity() == self.spec_bytes().len(),
    {
        let bytes = self.inner.as_bytes();
        let mut out = FfiString::with_capacity(bytes.len());
        proof {
            encode_utf8_valid_utf8(self@);
        }
        out.push_str(self.inner);
        out
    }
}

/// A wide pointer to an FFI-compatible string slice: an address bundled with
/// a byte length, the fixed two-field shape that foreign code receives.  It
/// has no ownership semantics at all; it is purely a lending token, so it is
/// always safe and cheap to copy.
///
/// The lending side must keep the referenced memory valid, unmoved and
/// unmutated for as long as the pointer is observed on the far side.
#[derive(Clone, Copy)]
pub struct FfiStrPtr<'a> {
    buf: &'a str,
}

impl<'a> View for FfiStrPtr<'a> {
    type V = Seq<char>;

    closed spec fn view(&self) -> Seq<char> {
        self.buf@
    }
}

impl<'a> FfiStrPtr<'a> {
    /// The UTF-8 bytes this pointer lends out.
    pub open spec fn spec_bytes(&self) -> Seq<u8> {
        encode_utf8(self@)
    }

    /// Length in bytes of the referenced string.
    pub fn len(&self) -> (r: usize)
        ensures
            r == self.spec_bytes().len(),
    {
        self.buf.as_bytes().len()
    }

    /// Whether the referenced string is empty.  An empty pointer's memory is
    /// never dereferenced.
    pub fn is_empty(&self) -> (r: bool)
        ensures
            r == (self@.len() == 0),
            r == (self.spec_bytes().len() == 0),
    {
        proof {
            lemma_encode_utf8_empty(self@);
        }
        self.buf.is_empty()
    }

    /// Convert this wide pointer back into a string slice over the same
    /// bytes.
    pub fn as_str(&self) -> (r: &'a str)
        ensures
            r@ == self@,
    {
        self.buf
    }

    /// Copy the referenced bytes into an owned [`FfiString`].
    pub fn to_ffi_string(&self) -> (r: FfiString)
        ensures
            r.wf(),
            r@ == self.spec_bytes(),
            r.spec_capacity() == self.spec_bytes().len(),
    {
        FfiStr { inner: self.buf }.to_ffi_string()
    }
}

/// The UTF-8 encoding of a character sequence is empty exactly when the
/// sequence is.
pub proof fn lemma_encode_utf8_empty(chars: Seq<char>)
    ensures
        encode_utf8(chars).len() == 0 <==> chars.len() == 0,
{
    if chars.len() > 0 {
        vstd::utf8::char_is_scalar(chars[0]);
        assert(encode_scalar(chars[0] as u32).len() >= 1);
    }
}

/// An FFI-compatible owned string: a heap buffer (address, length, capacity)
/// together with a destructor reference, so that whichever side of the
/// boundary allocated the buffer is the side whose allocator eventually
/// frees it, exactly once.
///
/// The allocation is carried by the backing vector, whose full length is the
/// buffer's capacity; the used prefix of `len` bytes is the contents.
/// `dtor` records whether a destructor is attached: replacing or dropping
/// the backing vector is the single point where the old allocation's
/// destructor runs.
pub struct FfiString {
    buf: Vec<u8>,
    len: usize,
    dtor: bool,
}

impl View for FfiString {
    type V = Seq<u8>;

    closed spec fn view(&self) -> Seq<u8> {
        self.buf@.subrange(0, self.len as int)
    }
}

impl FfiString {
    /// Bytes the buffer has room for before it must reallocate.
    pub closed spec fn spec_capacity(&self) -> nat {
        self.buf@.len()
    }

    /// Bytes of the buffer currently in use.
    pub closed spec fn spec_len(&self) -> nat {
        self.len as nat
    }

    /// Whether a destructor reference is attached.  Destroying a buffer
    /// without one performs no deallocation.
    pub closed spec fn has_destructor(&self) -> bool {
        self.dtor
    }

    /// Invariants: the length never exceeds the capacity, the contents are
    /// valid UTF-8, and a destructor is attached exactly when an allocation
    /// exists.
    pub open spec fn wf(&self) -> bool {
        &&& self.spec_len() <= self.spec_capacity()
        &&& valid_utf8(self@)
        &&& (self.has_destructor() <==> self.spec_capacity() > 0)
    }

    /// Create a new, empty buffer.  Does not allocate and attaches no
    /// destructor, so destroying it performs no deallocation.
    pub fn new() -> (r: Self)
        ensures
            r.wf(),
            r@ == Seq::<u8>::empty(),
            r.spec_capacity() == 0,
            !r.has_destructor(),
    {
        let r = FfiString { buf: Vec::new(), len: 0, dtor: false };
        proof {
            assert(r@ =~= Seq::<u8>::empty());
        }
        r
    }

    /// Create an empty buffer with room for `len` bytes.  When `len` is 0
    /// this is the same as [`FfiString::new`]: no allocation, no destructor.
    /// Otherwise one allocation of exactly `len` bytes is made and the
    /// destructor for it is attached.
    pub fn with_capacity(len: usize) -> (r: Self)
        ensures
            r.wf(),
            r@ == Seq::<u8>::empty(),
            r.spec_capacity() == len,
            r.has_destructor() <==> len > 0,
    {
        if len == 0 {
            return Self::new();
        }
        let buf = vec![0u8; len];
        let r = FfiString { buf, len: 0, dtor: true };
        proof {
            assert(r@ =~= Seq::<u8>::empty());
        }
        r
    }

    /// The buffer's contents.
    pub fn as_bytes(&self) -> (r: &[u8])
        requires
            self.wf(),
        ensures
            r@ == self@,
    {
        slice_subrange(self.buf.as_slice(), 0, self.len)
    }

    /// The contents as a native string slice; sound because the buffer's
    /// invariant keeps the contents valid UTF-8.
    pub fn as_str(&self) -> (r: &str)
        requires
            self.wf(),
        ensures
            r@ == decode_utf8(self@),
            r.spec_bytes() == self@,
    {
        let r = bytes_as_str(self.as_bytes());
        proof {
            encode_utf8_decode_utf8(r@);
        }
        r
    }

    /// The contents as a borrowed [`FfiStr`] view; zero cost, valid for the
    /// buffer's lifetime.
    pub fn as_ffi_str(&self) -> (r: FfiStr<'_>)
        requires
            self.wf(),
        ensures
            r@ == decode_utf8(self@),
            r.spec_bytes() == self@,
    {
        FfiStr::from_str(self.as_str())
    }

    /// The length of the contents in bytes.
    pub fn len(&self) -> (r: usize)
        requires
            self.wf(),
        ensures
            r == self@.len(),
    {
        self.len
    }

    /// Whether the buffer holds no bytes.
    pub fn is_empty(&self) -> (r: bool)
        requires
            self.wf(),
        ensures
            r == (self@.len() == 0),
    {
        self.len == 0
    }

    /// The buffer's capacity in bytes.
    pub fn capacity(&self) -> (r: usize)
        ensures
            r == self.spec_capacity(),
    {
        self.buf.len()
    }

    /// Append a string slice.
    ///
    /// When the bytes fit into the spare room they are written in place:
    /// no reallocation, no destructor call, the capacity does not move.
    /// Otherwise a buffer of `grow_target` size is allocated, both the old
    /// contents and the new bytes are copied into it, and only then is the
    /// old allocation released — exactly once, by replacing the backing
    /// vector.  A growth size past the addressable range is ruled out by the
    /// caller's obligation, so the size arithmetic can never wrap.
    pub fn push_str(&mut self, s: &str)
        requires
            old(self).wf(),
            old(self)@.len() + s.spec_bytes().len() > old(self).spec_capacity()
                ==> grow_target(
                old(self).spec_capacity() + s.spec_bytes().len() as int,
            ) <= usize::MAX,
        ensures
            final(self).wf(),
            final(self)@ == old(self)@ + s.spec_bytes(),
            old(self)@.len() + s.spec_bytes().len() <= old(self).spec_capacity() ==> {
                &&& final(self).spec_capacity() == old(self).spec_capacity()
                &&& final(self).has_destructor() == old(self).has_destructor()
            },
            old(self)@.len() + s.spec_bytes().len() > old(self).spec_capacity() ==> {
                &&& final(self).spec_capacity() == grow_target(
                    old(self).spec_capacity() + s.spec_bytes().len() as int,
                )
                &&& final(self).has_destructor()
            },
    {
        proof {
            encode_utf8_valid_utf8(s@);
        }
        let sb = s.as_bytes();
        let olen = sb.len();
        if olen == 0 {
            proof {
                assert(self@ =~= old(self)@ + s.spec_bytes());
            }
            return;
        }
        if olen <= self.buf.len() - self.len {
            let ghost orig = *self;
            let base = self.len;
            let mut i: usize = 0;
            while i < olen
                invariant
                    i <= olen,
                    olen == sb@.len(),
                    sb@ == s.spec_bytes(),
                    base == orig.len,
                    self.len == orig.len,
                    self.dtor == orig.dtor,
                    self.buf@.len() == orig.buf@.len(),
                    self.buf@.len() <= usize::MAX,
                    base + olen <= self.buf@.len(),
                    forall|j: int| 0 <= j < base ==> self.buf@[j] == orig.buf@[j],
                    forall|j: int| 0 <= j < i ==> self.buf@[base + j] == sb@[j],
                decreases olen - i,
            {
                self.buf[base + i] = sb[i];
                i += 1;
            }
            self.len = base + olen;
            proof {
                assert(self@ =~= orig@ + sb@);
                valid_utf8_concat(orig@, sb@);
            }
        } else {
            proof {
                lemma_grow_target_doubles(
                    old(self).spec_capacity() + s.spec_bytes().len() as int,
                );
            }
            let target = self.buf.len() + olen;
            assert(grow_target(target as int) == 2 * crate::growth::next_pow2(target as int));
            let newsize = next_pow2_exec(target) * 2;
            assert(newsize as int == grow_target(
                old(self).spec_capacity() + s.spec_bytes().len() as int,
            ));
            assert(newsize >= self.len + olen);
            let mut newbuf: Vec<u8> = vec![0u8; newsize];
            let base = self.len;
            let mut i: usize = 0;
            while i < base
                invariant
                    i <= base,
                    base == self.len,
                    *self == *old(self),
                    base <= self.buf@.len(),
                    newbuf@.len() == newsize,
                    newsize >= base,
                    forall|j: int| 0 <= j < i ==> newbuf@[j] == self.buf@[j],
                decreases base - i,
            {
                newbuf[i] = self.buf[i];
                i += 1;
            }
            let mut k: usize = 0;
            while k < olen
                invariant
                    k <= olen,
                    olen == sb@.len(),
                    sb@ == s.spec_bytes(),
                    base == self.len,
                    *self == *old(self),
                    newbuf@.len() == newsize,
                    newsize >= base + olen,
                    forall|j: int| 0 <= j < base ==> newbuf@[j] == self.buf@[j],
                    forall|j: int| 0 <= j < k ==> newbuf@[base + j] == sb@[j],
                decreases olen - k,
            {
                newbuf[base + k] = sb[k];
                k += 1;
            }
            // replacing the backing vector is the single point where the old
            // allocation's destructor runs
            self.buf = newbuf;
            self.len = base + olen;
            self.dtor = true;
            proof {
                assert(self@ =~= old(self)@ + sb@);
                valid_utf8_concat(old(self)@, sb@);
            }
        }
    }

    /// Append a single character: it is formatted into a small stack-bounded
    /// buffer first, avoiding a heap round-trip, and then appended as bytes.
    pub fn push(&mut self, c: char)
        requires
            old(self).wf(),
            old(self)@.len() + encode_scalar(c as u32).len() > old(self).spec_capacity()
                ==> grow_target(
                old(self).spec_capacity() + encode_scalar(c as u32).len() as int,
            ) <= usize::MAX,
        ensures
            final(self).wf(),
            final(self)@ == old(self)@ + encode_scalar(c as u32),
            old(self)@.len() + encode_scalar(c as u32).len() <= old(self).spec_capacity() ==> {
                &&& final(self).spec_capacity() == old(self).spec_capacity()
                &&& final(self).has_destructor() == old(self).has_destructor()
            },
            old(self)@.len() + encode_scalar(c as u32).len() > old(self).spec_capacity() ==> {
                &&& final(self).spec_capacity() == grow_target(
                    old(self).spec_capacity() + encode_scalar(c as u32).len() as int,
                )
                &&& final(self).has_destructor()
            },
    {
        let mut stackstr = StackString::<4>::new();
        proof {
            crate::stack::lemma_encode_scalar_len(c);
        }
        let pushed = stackstr.push(c);
        assert(pushed is Ok);
        let s = stackstr.as_str();
        self.push_str(s);
    }
}

/// The concatenation of a sequence of byte slices, in order.
pub open spec fn concat_all(parts: Seq<Seq<u8>>) -> Seq<u8>
    decreases parts.len(),
{
    if parts.len() == 0 {
        Seq::<u8>::empty()
    } else {
        concat_all(parts.drop_last()) + parts.last()
    }
}

/// The contents an owned buffer reaches after appending each of `parts` in
/// order, starting from contents `init` — each single append puts its slice
/// at the end, which is what [`FfiString::push_str`] ensures.
pub open spec fn contents_after_appends(init: Seq<u8>, parts: Seq<Seq<u8>>) -> Seq<u8>
    decreases parts.len(),
{
    if parts.len() == 0 {
        init
    } else {
        contents_after_appends(init, parts.drop_last()) + parts.last()
    }
}

/// For every sequence of appended byte slices, the final contents equal the
/// initial contents followed by the concatenation of all appended slices in
/// order.
pub proof fn lemma_appends_concatenate(init: Seq<u8>, parts: Seq<Seq<u8>>)
    ensures
        contents_after_appends(init, parts) == init + concat_all(parts),
    decreases parts.len(),
{
    if parts.len() == 0 {
        assert(init + concat_all(parts) =~= init);
    } else {
        lemma_appends_concatenate(init, parts.drop_last());
        assert((init + concat_all(parts.drop_last())) + parts.last() =~= init + (concat_all(
            parts.drop_last(),
        ) + parts.last()));
    }
}

/// Round trip: converting a borrowed view to an owned buffer and back to a
/// borrowed view yields byte-identical contents.  [`FfiStr::to_ffi_string`]
/// makes the buffer's contents the view's bytes, and
/// [`FfiString::as_ffi_str`] makes the new view's bytes the buffer's
/// contents; this law closes the circle: the bytes, and with them the
/// characters, are unchanged.
pub proof fn lemma_round_trip(view_chars: Seq<char>, owned_bytes: Seq<u8>, back_chars: Seq<char>)
    requires
        owned_bytes == encode_utf8(view_chars),
        encode_utf8(back_chars) == owned_bytes,
    ensures
        encode_utf8(back_chars) == encode_utf8(view_chars),
        back_chars == view_chars,
{
    encode_utf8_decode_utf8(view_chars);
    encode_utf8_decode_utf8(back_chars);
}

impl Default for FfiString {
    /// The same as [`FfiString::new`].
    fn default() -> (r: Self)
        ensures
            r.wf(),
            r@ == Seq::<u8>::empty(),
            r.spec_capacity() == 0,
            !r.has_destructor(),
    {
        Self::new()
    }
}

} // verus!
