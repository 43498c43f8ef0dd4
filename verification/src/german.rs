//! The compact string value itself: construction, accessors, and
//! prefix-accelerated matching.

use vstd::prelude::*;
use vstd::slice::{slice_subrange, slice_to_vec};
use vstd::string::StringSliceAdditionalSpecFns;
use vstd::utf8::encode_utf8;

use crate::bytes::{slice_starts_with, spec_starts_with};

verus! {

/// Number of leading content bytes cached directly in the value, so that a
/// prefix check can be answered without reading the heap buffer.
pub const PREFIX_LEN: usize = 4;

/// Largest content length (in bytes) held without a separate heap buffer.
pub const SHORT_LEN: usize = 12;

/// Length of the cached prefix of content of `n` bytes: all of it when the
/// content is shorter than the cache, else `PREFIX_LEN`.
pub open spec fn spec_prefix_len(n: nat) -> nat {
    if n <= PREFIX_LEN {
        n
    } else {
        PREFIX_LEN as nat
    }
}

/// The cached prefix of the byte content `b`: its first
/// `min(PREFIX_LEN, b.len())` bytes.
pub open spec fn spec_prefix(b: Seq<u8>) -> Seq<u8> {
    b.take(spec_prefix_len(b.len()) as int)
}

/// Construction failure: the content does not fit the value's length field.
#[derive(Clone, Copy, Debug, PartialEq, Eq)]
pub enum ConstructError {
    /// The content is longer than the 32-bit length field can record.
    LengthOverflow,
}

/// The two arms sharing one logical footprint. The arm in use is never stored:
/// it is derived from the length alone, which both arms keep at the same
/// place. `SHORT_LEN` exceeds `PREFIX_LEN`, so the long arm always has a full
/// prefix cache.
enum Repr {
    /// Content of at most `SHORT_LEN` bytes, held inline: no heap buffer.
    Short { len: u32, buf: String },
    /// Longer content: the first `PREFIX_LEN` content bytes cached in
    /// `prefix`, and the sole owning handle of the full content in `heap`.
    Long { len: u32, prefix: Vec<u8>, heap: String },
}

/// An immutable string value that occupies one fixed logical footprint
/// whatever its length. It is move-only: the long arm is the single owner of
/// its heap buffer, which is therefore released exactly once, when the value
/// is dropped.
pub struct GermanString {
    repr: Repr,
}

impl View for GermanString {
    type V = Seq<u8>;

    /// A value is abstractly its full content, as bytes.
    closed spec fn view(&self) -> Seq<u8> {
        match self.repr {
            Repr::Short { buf, .. } => encode_utf8(buf@),
            Repr::Long { heap, .. } => encode_utf8(heap@),
        }
    }
}

impl GermanString {
    /// The length field records the content's byte length exactly; the arm
    /// matches the length against `SHORT_LEN`; the long arm's cached prefix
    /// mirrors the first `PREFIX_LEN` bytes of the heap content.
    #[verifier::type_invariant]
    spec fn wf(self) -> bool {
        match self.repr {
            Repr::Short { len, buf } => {
                &&& encode_utf8(buf@).len() == len
                &&& len <= SHORT_LEN
            },
            Repr::Long { len, prefix, heap } => {
                &&& encode_utf8(heap@).len() == len
                &&& len > SHORT_LEN
                &&& prefix@ == encode_utf8(heap@).subrange(0, PREFIX_LEN as int)
            },
        }
    }

    /// Builds a value holding the content of `s`, always copying the content.
    fn make(s: &str) -> (r: GermanString)
        requires
            s.spec_bytes().len() <= u32::MAX,
        ensures
            r@ == s.spec_bytes(),
    {
        let sb = s.as_bytes();
        let n: usize = sb.len();
        let len: u32 = n as u32;
        if n <= SHORT_LEN {
            let buf = s.to_owned();
            GermanString { repr: Repr::Short { len, buf } }
        } else {
            let prefix = slice_to_vec(slice_subrange(sb, 0, PREFIX_LEN));
            let heap = s.to_owned();
            GermanString { repr: Repr::Long { len, prefix, heap } }
        }
    }

    /// Copy-constructs a value from borrowed content whose byte length is
    /// known to fit the 32-bit length field.
    pub fn new(s: &str) -> (r: GermanString)
        requires
            s.spec_bytes().len() <= u32::MAX,
        ensures
            r@ == s.spec_bytes(),
    {
        GermanString::make(s)
    }

    /// Copy-constructs a value from borrowed content, rejecting content whose
    /// byte length exceeds the 32-bit length field.
    pub fn try_new(s: &str) -> (r: Result<GermanString, ConstructError>)
        ensures
            match r {
                Ok(g) => s.spec_bytes().len() <= u32::MAX && g@ == s.spec_bytes(),
                Err(e) => s.spec_bytes().len() > u32::MAX && e == ConstructError::LengthOverflow,
            },
    {
        let n: usize = s.as_bytes().len();
        if n <= u32::MAX as usize {
            Ok(GermanString::make(s))
        } else {
            Err(ConstructError::LengthOverflow)
        }
    }

    /// Constructs a value by adopting an owned buffer whose byte length is
    /// known to fit the 32-bit length field: the content is not copied, the
    /// buffer itself becomes the value's heap buffer (for long content; short
    /// content needs no heap buffer at all).
    pub fn from_string(s: String) -> (r: GermanString)
        requires
            encode_utf8(s@).len() <= u32::MAX,
        ensures
            r@ == encode_utf8(s@),
    {
        let sb = s.as_str().as_bytes();
        let n: usize = sb.len();
        let len: u32 = n as u32;
        if n <= SHORT_LEN {
            GermanString { repr: Repr::Short { len, buf: s } }
        } else {
            let prefix = slice_to_vec(slice_subrange(sb, 0, PREFIX_LEN));
            GermanString { repr: Repr::Long { len, prefix, heap: s } }
        }
    }

    /// Constructs a value by adopting an owned buffer, rejecting content
    /// whose byte length exceeds the 32-bit length field.
    pub fn try_from_string(s: String) -> (r: Result<GermanString, ConstructError>)
        ensures
            match r {
                Ok(g) => encode_utf8(s@).len() <= u32::MAX && g@ == encode_utf8(s@),
                Err(e) => encode_utf8(s@).len() > u32::MAX && e
                    == ConstructError::LengthOverflow,
            },
    {
        let n: usize = s.as_str().as_bytes().len();
        if n <= u32::MAX as usize {
            Ok(GermanString::from_string(s))
        } else {
            Err(ConstructError::LengthOverflow)
        }
    }

    /// The content's length in bytes, read from the length field alone: no
    /// arm distinction and no heap access is needed.
    pub fn len(&self) -> (r: usize)
        ensures
            r == self@.len(),
    {
        proof {
            use_type_invariant(&*self);
        }
        match &self.repr {
            Repr::Short { len, .. } => *len as usize,
            Repr::Long { len, .. } => *len as usize,
        }
    }

    /// Whether the content is empty.
    pub fn is_empty(&self) -> (r: bool)
        ensures
            r == (self@.len() == 0),
    {
        self.len() == 0
    }

    /// Whether the value holds its content without a heap buffer. The arm is
    /// derived from the length alone: there is no stored discriminant.
    pub fn is_short(&self) -> (r: bool)
        ensures
            r == (self@.len() <= SHORT_LEN),
    {
        self.len() <= SHORT_LEN
    }

    /// Borrows the full content. Only this accessor (and nothing on the
    /// prefix path) reads the long arm's heap buffer.
    pub fn str(&self) -> (r: &str)
        ensures
            r.spec_bytes() == self@,
    {
        proof {
            use_type_invariant(&*self);
        }
        match &self.repr {
            Repr::Short { buf, .. } => buf.as_str(),
            Repr::Long { heap, .. } => heap.as_str(),
        }
    }

    /// Borrows the cached prefix: the first `min(PREFIX_LEN, len)` bytes of
    /// the content, read without touching the long arm's heap buffer.
    pub fn prefix(&self) -> (r: &[u8])
        ensures
            r@ == spec_prefix(self@),
    {
        proof {
            use_type_invariant(&*self);
        }
        match &self.repr {
            Repr::Short { len, buf } => {
                let n: usize = *len as usize;
                let k: usize = if n <= PREFIX_LEN {
                    n
                } else {
                    PREFIX_LEN
                };
                slice_subrange(buf.as_str().as_bytes(), 0, k)
            },
            Repr::Long { prefix, .. } => {
                prefix.as_slice()
            },
        }
    }

    /// Whether the content starts with `needle`, checked prefix-first: the
    /// cached prefix alone rejects a mismatching needle and accepts one that
    /// the cache fully covers; only a longer, prefix-matching needle is
    /// compared against the full content.
    pub fn starts_with(&self, needle: &str) -> (r: bool)
        ensures
            r == spec_starts_with(self@, needle.spec_bytes()),
    {
        let nb = needle.as_bytes();
        let nn: usize = nb.len();
        let k: usize = if nn <= PREFIX_LEN {
            nn
        } else {
            PREFIX_LEN
        };
        let needle_prefix = slice_subrange(nb, 0, k);
        if !slice_starts_with(self.prefix(), needle_prefix) {
            proof {
                lemma_prefix_filter(self@, needle.spec_bytes());
            }
            return false;
        }
        if nn > PREFIX_LEN {
            slice_starts_with(self.str().as_bytes(), nb)
        } else {
            proof {
                lemma_prefix_decides(self@, needle.spec_bytes());
            }
            true
        }
    }
}

/// The cached prefix filters soundly: whenever the content `b` starts with a
/// needle `p`, the prefix of `b` starts with the prefix of `p`, so a prefix
/// mismatch rejects the needle without reading the full content.
pub proof fn lemma_prefix_filter(b: Seq<u8>, p: Seq<u8>)
    ensures
        spec_starts_with(b, p) ==> spec_starts_with(spec_prefix(b), spec_prefix(p)),
{
    if spec_starts_with(b, p) {
        assert(spec_prefix(p) =~= spec_prefix(b).subrange(0, spec_prefix_len(p.len()) as int));
    }
}

/// The cached prefix is conclusive for short needles: a needle no longer than
/// `PREFIX_LEN` starts the content if and only if it starts the cached
/// prefix.
pub proof fn lemma_prefix_decides(b: Seq<u8>, p: Seq<u8>)
    requires
        p.len() <= PREFIX_LEN,
    ensures
        spec_starts_with(b, p) == spec_starts_with(spec_prefix(b), p),
{
    if spec_starts_with(b, p) {
        assert(p =~= spec_prefix(b).subrange(0, p.len() as int));
    }
    if spec_starts_with(spec_prefix(b), p) {
        assert(p =~= b.subrange(0, p.len() as int));
    }
}

} // verus!
