use crate::optimistic_error::OptimisticError;
use std::cmp::Ordering;
use std::sync::atomic::{AtomicU8, Ordering as MemOrder};
use vstd::prelude::*;

verus! {

/// One page frame. Its bytes are loaded and stored atomically, so a reader
/// that races a writer sees stale bytes at worst, never undefined behaviour;
/// version validation turns such reads into a retry.
pub struct Frame {
    bytes: Vec<AtomicU8>,
}

impl Frame {
    #[verifier::type_invariant]
    spec fn inv(self) -> bool {
        self.bytes@.len() <= usize::MAX
    }

    /// The number of bytes in the frame.
    pub closed spec fn size(&self) -> nat {
        self.bytes@.len()
    }

    /// A frame of `size` zero bytes.
    pub fn zeroed(size: usize) -> (r: Frame)
        ensures
            r.size() == size,
    {
        let mut bytes: Vec<AtomicU8> = Vec::new();
        let mut i: usize = 0;
        while i < size
            invariant
                i <= size,
                bytes@.len() == i,
            decreases size - i,
        {
            bytes.push(AtomicU8::new(0));
            i = i + 1;
        }
        Frame { bytes }
    }

    pub fn len(&self) -> (r: usize)
        ensures
            r == self.size(),
    {
        self.bytes.len()
    }

    /// A relaxed load of one byte.
    pub fn load(&self, i: usize) -> (r: u8)
        requires
            i < self.size(),
    {
        self.bytes[i].load(MemOrder::Relaxed)
    }

    /// A relaxed store of one byte.
    pub fn store(&self, i: usize, b: u8)
        requires
            i < self.size(),
    {
        self.bytes[i].store(b, MemOrder::Relaxed);
    }
}

/// The number that `b` spells with its first byte least significant.
pub open spec fn le_value(b: Seq<u8>) -> nat
    decreases b.len(),
{
    if b.len() == 0 {
        0
    } else {
        b[0] as nat + 256 * le_value(b.drop_first())
    }
}

/// Byte-wise order with the shorter sequence first where one is a prefix of
/// the other: a `memcmp` of the common length, then the lengths.
pub open spec fn lex_cmp(a: Seq<u8>, b: Seq<u8>) -> Ordering
    decreases a.len(),
{
    if a.len() == 0 {
        if b.len() == 0 {
            Ordering::Equal
        } else {
            Ordering::Less
        }
    } else if b.len() == 0 {
        Ordering::Greater
    } else if a[0] < b[0] {
        Ordering::Less
    } else if a[0] > b[0] {
        Ordering::Greater
    } else {
        lex_cmp(a.drop_first(), b.drop_first())
    }
}

proof fn lemma_le_value_step(b: Seq<u8>, i: int)
    requires
        0 <= i < b.len(),
    ensures
        le_value(b.subrange(i, b.len() as int)) == b[i] as nat + 256 * le_value(
            b.subrange(i + 1, b.len() as int),
        ),
{
    assert(b.subrange(i, b.len() as int).drop_first() =~= b.subrange(i + 1, b.len() as int));
}

proof fn lemma_le_value_bound(b: Seq<u8>)
    ensures
        le_value(b) < pow256(b.len()),
    decreases b.len(),
{
    if b.len() > 0 {
        lemma_le_value_bound(b.drop_first());
        assert(le_value(b) < pow256(b.len())) by (nonlinear_arith)
            requires
                le_value(b) == b[0] as nat + 256 * le_value(b.drop_first()),
                le_value(b.drop_first()) < pow256((b.len() - 1) as nat),
                pow256(b.len()) == 256 * pow256((b.len() - 1) as nat),
                b[0] < 256,
        ;
    }
}

pub open spec fn pow256(n: nat) -> nat
    decreases n,
{
    if n == 0 {
        1
    } else {
        256 * pow256((n - 1) as nat)
    }
}

/// Reads up to eight bytes as a little-endian number.
pub fn le_bytes_value(b: &Vec<u8>) -> (r: u64)
    requires
        b@.len() <= 8,
    ensures
        r == le_value(b@),
{
    let n = b.len();
    let mut r: u64 = 0;
    let mut i: usize = n;
    proof {
        assert(b@.subrange(n as int, n as int) =~= Seq::<u8>::empty());
        reveal_with_fuel(pow256, 9);
        assert(pow256(8) == 0x1_0000_0000_0000_0000);
    }
    while i > 0
        invariant
            n == b@.len(),
            n <= 8,
            i <= n,
            r == le_value(b@.subrange(i as int, n as int)),
            pow256(8) == 0x1_0000_0000_0000_0000,
        decreases i,
    {
        i = i - 1;
        proof {
            lemma_le_value_step(b@, i as int);
            lemma_le_value_bound(b@.subrange(i as int, n as int));
            lemma_pow256_mono((n - i) as nat, 8);
        }
        r = r * 256 + b[i] as u64;
    }
    proof {
        assert(b@.subrange(0, n as int) =~= b@);
    }
    r
}

proof fn lemma_pow256_mono(a: nat, b: nat)
    requires
        a <= b,
    ensures
        pow256(a) <= pow256(b),
    decreases b,
{
    if a < b {
        lemma_pow256_mono(a, (b - 1) as nat);
    }
}

} // verus!

verus! {

/// Compares two byte strings in the order of `lex_cmp`.
pub fn compare_bytes(a: &[u8], b: &[u8]) -> (r: Ordering)
    ensures
        r == lex_cmp(a@, b@),
{
    let mut i: usize = 0;
    proof {
        assert(a@.subrange(0, a@.len() as int) =~= a@);
        assert(b@.subrange(0, b@.len() as int) =~= b@);
    }
    while i < a.len() && i < b.len()
        invariant
            i <= a@.len(),
            i <= b@.len(),
            lex_cmp(a@, b@) == lex_cmp(
                a@.subrange(i as int, a@.len() as int),
                b@.subrange(i as int, b@.len() as int),
            ),
        decreases a@.len() - i,
    {
        if a[i] < b[i] {
            return Ordering::Less;
        }
        if a[i] > b[i] {
            return Ordering::Greater;
        }
        proof {
            assert(a@.subrange(i as int, a@.len() as int).drop_first() =~= a@.subrange(
                i + 1,
                a@.len() as int,
            ));
            assert(b@.subrange(i as int, b@.len() as int).drop_first() =~= b@.subrange(
                i + 1,
                b@.len() as int,
            ));
        }
        i = i + 1;
    }
    if i < b.len() {
        Ordering::Less
    } else if i < a.len() {
        Ordering::Greater
    } else {
        Ordering::Equal
    }
}

/// A copyable view of a byte range of one frame. It holds no lock: every
/// read is bounds-checked against the range and reports an optimistic
/// failure instead of leaving it; what it reads may be torn, which the
/// owning guard's validation detects.
#[derive(Clone, Copy)]
pub struct OPtr<'a> {
    frame: &'a Frame,
    start: usize,
    len: usize,
}

impl<'a> OPtr<'a> {
    #[verifier::type_invariant]
    spec fn inv(self) -> bool {
        self.start + self.len <= self.frame.size()
    }

    /// Where the range begins in its frame.
    pub closed spec fn offset(self) -> nat {
        self.start as nat
    }

    /// The length of the range.
    pub closed spec fn length(self) -> nat {
        self.len as nat
    }

    /// The size of the frame the range lies in.
    pub closed spec fn frame_size(self) -> nat {
        self.frame.size()
    }

    /// The frame the range lies in.
    pub closed spec fn frame(self) -> &'a Frame {
        self.frame
    }

    /// The whole of a frame.
    pub fn from_ref(x: &'a Frame) -> (r: OPtr<'a>)
        ensures
            r.offset() == 0,
            r.length() == x.size(),
            r.frame() == x,
    {
        OPtr { frame: x, start: 0, len: x.len() }
    }

    /// The whole of a frame that the caller may write.
    pub fn from_mut(x: &'a mut Frame) -> (r: OPtr<'a>)
        ensures
            r.offset() == 0,
            r.length() == old(x).size(),
    {
        OPtr::from_ref(x)
    }

    #[allow(clippy::len_without_is_empty)]
    pub fn len(self) -> (r: usize)
        ensures
            r == self.length(),
    {
        self.len
    }

    /// The part `[offset, offset + len)` of the range; an optimistic failure
    /// where it does not fit.
    pub fn sub(self, offset: usize, len: usize) -> (r: Result<OPtr<'a>, OptimisticError>)
        ensures
            r is Ok <==> offset + len <= self.length(),
            r matches Ok(p) ==> p.offset() == self.offset() + offset && p.length() == len
                && p.frame() == self.frame() && p.offset() + p.length() <= p.frame_size(),
    {
        proof {
            use_type_invariant(self);
        }
        proof {
            use_type_invariant(self.frame);
        }
        if offset > self.len || len > self.len - offset {
            Err(OptimisticError::new())
        } else {
            Ok(OPtr { frame: self.frame, start: self.start + offset, len })
        }
    }

    /// The range as a run of elements of `elem_size` bytes each; the range
    /// has to hold a whole number of them.
    pub fn as_slice(self, elem_size: usize) -> (r: OSlice<'a>)
        requires
            elem_size > 0,
            self.length() % (elem_size as nat) == 0,
        ensures
            r.elem_size() == elem_size,
            r.count() == self.length() / (elem_size as nat),
            r.bytes() == self,
    {
        OSlice { bytes: self, elem: elem_size }
    }

    /// The one byte at `index`; an optimistic failure past the end.
    pub fn i(self, index: usize) -> (r: Result<OPtr<'a>, OptimisticError>)
        ensures
            r is Ok <==> index < self.length(),
            r matches Ok(p) ==> p.offset() == self.offset() + index && p.length() == 1
                && p.frame() == self.frame(),
    {
        self.sub(index, 1)
    }

    /// Loads `n` bytes from `offset` on.
    fn load_at(self, offset: usize, n: usize) -> (r: Vec<u8>)
        requires
            offset + n <= self.length(),
        ensures
            r@.len() == n,
    {
        proof {
            use_type_invariant(self);
        }
        proof {
            use_type_invariant(self.frame);
        }
        let mut out: Vec<u8> = Vec::new();
        let mut k: usize = 0;
        while k < n
            invariant
                k <= n,
                out@.len() == k,
                offset + n <= self.len,
                self.start + self.len <= self.frame.size(),
                self.frame.size() <= usize::MAX,
            decreases n - k,
        {
            out.push(self.frame.load(self.start + offset + k));
            k = k + 1;
        }
        out
    }

    /// The two bytes at `offset`, least significant first; an optimistic
    /// failure where they do not both lie in the range.
    pub fn read_unaligned_nonatomic_u16(self, offset: usize) -> (r: Result<usize, OptimisticError>)
        ensures
            r is Ok <==> offset + 2 <= self.length(),
            r matches Ok(v) ==> v < 0x1_0000,
    {
        if offset > self.len || 2 > self.len - offset {
            return Err(OptimisticError::new());
        }
        let b = self.load_at(offset, 2);
        let v = le_bytes_value(&b);
        proof {
            lemma_le_value_bound(b@);
            reveal_with_fuel(pow256, 3);
        }
        Ok(v as usize)
    }

    /// The eight bytes at `offset`, least significant first; an optimistic
    /// failure where they do not all lie in the range.
    pub fn read_unaligned_nonatomic_u64(self, offset: usize) -> (r: Result<u64, OptimisticError>)
        ensures
            r is Ok <==> offset + 8 <= self.length(),
    {
        if offset > self.len || 8 > self.len - offset {
            return Err(OptimisticError::new());
        }
        let b = self.load_at(offset, 8);
        Ok(le_bytes_value(&b))
    }

    /// Copies the range into `dst`, which has its length.
    pub fn load_bytes(self, dst: &mut Vec<u8>)
        requires
            old(dst)@.len() == self.length(),
        ensures
            final(dst)@.len() == self.length(),
    {
        proof {
            use_type_invariant(self);
        }
        proof {
            use_type_invariant(self.frame);
        }
        let mut k: usize = 0;
        while k < self.len
            invariant
                k <= self.len,
                dst@.len() == self.len,
                self.start + self.len <= self.frame.size(),
                self.frame.size() <= usize::MAX,
            decreases self.len - k,
        {
            let b = self.frame.load(self.start + k);
            dst.set(k, b);
            k = k + 1;
        }
    }

    /// The range copied into a new buffer.
    pub fn load_slice_to_vec(self) -> (r: Vec<u8>)
        ensures
            r@.len() == self.length(),
    {
        self.load_at(0, self.len)
    }

    /// Compares the bytes of the range with `other` as `memcmp` over the
    /// common length would, the shorter first where that is equal.
    pub fn mem_cmp(self, other: &[u8]) -> (r: Ordering)
        ensures
            exists|seen: Seq<u8>| seen.len() == self.length() && r == #[trigger] lex_cmp(seen, other@),
    {
        let seen = self.load_slice_to_vec();
        let r = compare_bytes(seen.as_slice(), other);
        assert(seen@.len() == self.length() && r == lex_cmp(seen@, other@));
        r
    }

    /// Stores `src` at `offset`; for the holder of the frame's exclusive
    /// lock.
    pub(crate) fn store_bytes(self, offset: usize, src: &[u8]) -> (r: Result<(), OptimisticError>)
        ensures
            r is Ok <==> offset + src@.len() <= self.length(),
    {
        proof {
            use_type_invariant(self);
        }
        if offset > self.len || src.len() > self.len - offset {
            return Err(OptimisticError::new());
        }
        proof {
            use_type_invariant(self.frame);
        }
        let mut k: usize = 0;
        while k < src.len()
            invariant
                k <= src@.len(),
                offset + src@.len() <= self.len,
                self.start + self.len <= self.frame.size(),
                self.frame.size() <= usize::MAX,
            decreases src@.len() - k,
        {
            self.frame.store(self.start + offset + k, src[k]);
            k = k + 1;
        }
        Ok(())
    }
}

} // verus!

verus! {

/// A view of a byte range as elements of a fixed size, indexed with a bounds
/// check that reports an optimistic failure.
#[derive(Clone, Copy)]
pub struct OSlice<'a> {
    bytes: OPtr<'a>,
    elem: usize,
}

impl<'a> OSlice<'a> {
    #[verifier::type_invariant]
    spec fn inv(self) -> bool {
        self.elem > 0 && self.bytes.length() % (self.elem as nat) == 0
    }

    /// The size of one element.
    pub closed spec fn elem_size(self) -> nat {
        self.elem as nat
    }

    /// The number of elements.
    pub closed spec fn count(self) -> nat {
        self.bytes.length() / (self.elem as nat)
    }

    /// The bytes of the whole run.
    pub closed spec fn bytes(self) -> OPtr<'a> {
        self.bytes
    }

    pub fn len(self) -> (r: usize)
        ensures
            r == self.count(),
    {
        proof {
            use_type_invariant(self);
        }
        self.bytes.len() / self.elem
    }

    /// The bytes of element `index`; an optimistic failure past the end.
    pub fn i(self, index: usize) -> (r: Result<OPtr<'a>, OptimisticError>)
        ensures
            r is Ok <==> index < self.count(),
            r matches Ok(p) ==> p.offset() == self.bytes().offset() + index * self.elem_size()
                && p.length() == self.elem_size(),
    {
        proof {
            use_type_invariant(self);
        }
        let n = self.bytes.len() / self.elem;
        if index >= n {
            return Err(OptimisticError::new());
        }
        proof {
            let len = self.bytes.length() as int;
            let e = self.elem as int;
            assert(index * e + e <= len) by (nonlinear_arith)
                requires
                    e > 0,
                    len % e == 0,
                    index < len / e,
                    n == len / e,
            ;
        }
        self.bytes.sub(index * self.elem, self.elem)
    }
}

} // verus!
