//! The bit stream: an ordered sequence of bits, most significant bit first
//! within each number that is appended to it.
//!
//! The bits are held by the `bitvec` crate's bit-vector. Its contents stand
//! in contracts as a sequence of booleans.
use vstd::prelude::*;

verus! {

/// A growable sequence of bits, backed by `bitvec::vec::BitVec<u8, Msb0>`.
#[verifier::external_body]
#[derive(Debug)]
pub struct BitVec {
    inner: bitvec::vec::BitVec<u8, bitvec::order::Msb0>,
}

/// The bits that a bit-vector holds, first to last.
pub uninterp spec fn bits(bv: BitVec) -> Seq<bool>;

impl View for BitVec {
    type V = Seq<bool>;

    open spec fn view(&self) -> Seq<bool> {
        bits(*self)
    }
}

/// The most bits that a bit-vector can hold: an eighth of the address space.
pub open spec fn max_bits() -> int {
    usize::MAX as int / 8
}

/// Bit `k` of `v`, bit 0 being the least significant.
pub open spec fn bit_of(v: u32, k: int) -> bool {
    (v >> (k as u32)) & 1 == 1
}

/// The lowest `len` bits of `v`, from bit `len - 1` down to bit 0.
pub open spec fn int_bits(v: u32, len: int) -> Seq<bool> {
    Seq::new(len as nat, |i: int| bit_of(v, len - 1 - i))
}

/// `n` zero bits.
pub open spec fn zero_bits(n: int) -> Seq<bool> {
    Seq::new(n as nat, |i: int| false)
}

/// The bits of a byte sequence, each byte from its most significant bit down.
pub open spec fn bytes_bits(bytes: Seq<u8>) -> Seq<bool> {
    Seq::new(8 * bytes.len(), |i: int| bit_of(bytes[i / 8] as u32, 7 - i % 8))
}

/// 1 for a set bit, 0 for a clear one.
pub open spec fn bit_value(b: bool) -> int {
    if b {
        1
    } else {
        0
    }
}

/// The byte made of the eight bits from position `8 * k`, the first of them
/// being the most significant.
pub open spec fn bits_byte(s: Seq<bool>, k: int) -> int {
    128 * bit_value(s[8 * k]) + 64 * bit_value(s[8 * k + 1]) + 32 * bit_value(s[8 * k + 2]) + 16
        * bit_value(s[8 * k + 3]) + 8 * bit_value(s[8 * k + 4]) + 4 * bit_value(s[8 * k + 5]) + 2
        * bit_value(s[8 * k + 6]) + bit_value(s[8 * k + 7])
}

/// The whole bytes of a bit sequence; up to seven bits at its end are left out.
pub open spec fn bits_bytes(s: Seq<bool>) -> Seq<u8> {
    Seq::new(s.len() / 8, |k: int| bits_byte(s, k) as u8)
}

/// `BitVec::new` of the `bitvec` crate: the result holds no bits.
#[verifier::external_body]
fn bv_new() -> (r: BitVec)
    ensures
        bits(r) == Seq::<bool>::empty(),
{
    BitVec { inner: bitvec::vec::BitVec::new() }
}

/// `BitVec::push` of the `bitvec` crate: the bit is added behind the others.
/// The crate panics where the vector is full, which the precondition rules out.
#[verifier::external_body]
fn bv_push(bv: &mut BitVec, value: bool)
    requires
        bits(*old(bv)).len() < max_bits(),
    ensures
        bits(*final(bv)) == bits(*old(bv)).push(value),
{
    bv.inner.push(value)
}

/// `BitVec::len` of the `bitvec` crate: the count of bits held.
#[verifier::external_body]
fn bv_len(bv: &BitVec) -> (r: usize)
    ensures
        r == bits(*bv).len(),
{
    bv.inner.len()
}

/// Indexing of the `bitvec` crate's bit-slice by a position: the bit at that
/// position. The crate panics on a position past the end, which the
/// precondition rules out.
#[verifier::external_body]
fn bv_index(bv: &BitVec, i: usize) -> (r: bool)
    requires
        i < bits(*bv).len(),
    ensures
        r == bits(*bv)[i as int],
{
    bv.inner[i]
}

/// `BitVec::append` of the `bitvec` crate: the bits of `other` are moved
/// behind those of `bv`, and `other` is left empty. The crate panics where
/// the sum of the lengths is more than a vector can hold, which the
/// precondition rules out.
#[verifier::external_body]
fn bv_append(bv: &mut BitVec, other: &mut BitVec)
    requires
        bits(*old(bv)).len() + bits(*old(other)).len() <= max_bits(),
    ensures
        bits(*final(bv)) == bits(*old(bv)) + bits(*old(other)),
        bits(*final(other)) == Seq::<bool>::empty(),
{
    bv.inner.append(&mut other.inner)
}

/// `BitVec::resize` of the `bitvec` crate: a longer length adds bits of the
/// given value at the end, a shorter one cuts the vector off. The crate
/// panics on a length that is more than a vector can hold, which the
/// precondition rules out.
#[verifier::external_body]
fn bv_resize(bv: &mut BitVec, new_len: usize, value: bool)
    requires
        new_len <= max_bits(),
    ensures
        bits(*final(bv)) == if new_len >= bits(*old(bv)).len() {
            bits(*old(bv)) + Seq::new((new_len - bits(*old(bv)).len()) as nat, |i: int| value)
        } else {
            bits(*old(bv)).subrange(0, new_len as int)
        },
{
    bv.inner.resize(new_len, value)
}

impl BitVec {
    /// An empty bit stream.
    pub fn new() -> (r: BitVec)
        ensures
            r@ == Seq::<bool>::empty(),
    {
        bv_new()
    }

    /// The count of bits in the stream.
    pub fn len(&self) -> (r: usize)
        ensures
            r == self@.len(),
    {
        bv_len(self)
    }

    /// The bit at position `i`, or `None` past the end.
    pub fn get(&self, i: usize) -> (r: Option<bool>)
        ensures
            r == if i < self@.len() {
                Some(self@[i as int])
            } else {
                None
            },
    {
        if i < bv_len(self) {
            Some(bv_index(self, i))
        } else {
            None
        }
    }

    /// The bit at position `i`, which must exist.
    pub fn bit(&self, i: usize) -> (r: bool)
        requires
            i < self@.len(),
        ensures
            r == self@[i as int],
    {
        bv_index(self, i)
    }

    /// Adds one bit at the end.
    pub fn push(&mut self, value: bool)
        requires
            old(self)@.len() < max_bits(),
        ensures
            final(self)@ == old(self)@.push(value),
    {
        bv_push(self, value)
    }

    /// Moves the bits of `other` to the end of this stream.
    pub fn append(&mut self, other: &mut BitVec)
        requires
            old(self)@.len() + old(other)@.len() <= max_bits(),
        ensures
            final(self)@ == old(self)@ + old(other)@,
            final(other)@ == Seq::<bool>::empty(),
    {
        bv_append(self, other)
    }

    /// Adds `n` zero bits at the end.
    pub fn pad_zeros(&mut self, n: usize)
        requires
            old(self)@.len() + n <= max_bits(),
        ensures
            final(self)@ == old(self)@ + zero_bits(n as int),
    {
        let len: usize = bv_len(self);
        bv_resize(self, len + n, false);
        assert(self@ =~= old(self)@ + zero_bits(n as int));
    }

    /// The stream that holds the given bits.
    pub fn from_bools(v: &Vec<bool>) -> (r: BitVec)
        requires
            v@.len() <= max_bits(),
        ensures
            r@ == v@,
    {
        let mut r = bv_new();
        let mut i: usize = 0;
        while i < v.len()
            invariant
                i <= v@.len() <= max_bits(),
                r@ == v@.subrange(0, i as int),
            decreases v@.len() - i,
        {
            bv_push(&mut r, v[i]);
            i = i + 1;
            assert(r@ =~= v@.subrange(0, i as int));
        }
        assert(v@.subrange(0, i as int) =~= v@);
        r
    }

    /// The bits of the stream, first to last.
    pub fn to_bools(&self) -> (r: Vec<bool>)
        ensures
            r@ == self@,
    {
        let n: usize = bv_len(self);
        let mut r: Vec<bool> = Vec::new();
        let mut i: usize = 0;
        while i < n
            invariant
                i <= n == self@.len(),
                r@ == self@.subrange(0, i as int),
            decreases n - i,
        {
            r.push(bv_index(self, i));
            i = i + 1;
            assert(r@ =~= self@.subrange(0, i as int));
        }
        assert(self@.subrange(0, i as int) =~= self@);
        r
    }

    /// The stream that holds the bits of the given bytes, each byte from its
    /// most significant bit down.
    pub fn from_bytes(bytes: &Vec<u8>) -> (r: BitVec)
        requires
            8 * bytes@.len() <= max_bits(),
        ensures
            r@ == bytes_bits(bytes@),
    {
        let mut r = bv_new();
        let mut i: usize = 0;
        while i < bytes.len()
            invariant
                i <= bytes@.len(),
                8 * bytes@.len() <= max_bits(),
                r@ == bytes_bits(bytes@.subrange(0, i as int)),
            decreases bytes@.len() - i,
        {
            append(&mut r, bytes[i] as u32, 8);
            proof {
                lemma_bytes_bits_push(bytes@.subrange(0, i as int), bytes@[i as int]);
                assert(bytes@.subrange(0, i as int).push(bytes@[i as int]) =~= bytes@.subrange(
                    0,
                    i + 1,
                ));
            }
            i = i + 1;
        }
        assert(bytes@.subrange(0, i as int) =~= bytes@);
        r
    }

    /// The byte made of the eight bits from position `8 * k`.
    pub fn byte_at(&self, k: usize) -> (r: u8)
        requires
            8 * k + 8 <= self@.len(),
        ensures
            r == bits_byte(self@, k as int),
    {
        let total: usize = bv_len(self);
        let base: usize = 8 * k;
        let b0: u8 = if bv_index(self, base) { 128 } else { 0 };
        let b1: u8 = if bv_index(self, base + 1) { 64 } else { 0 };
        let b2: u8 = if bv_index(self, base + 2) { 32 } else { 0 };
        let b3: u8 = if bv_index(self, base + 3) { 16 } else { 0 };
        let b4: u8 = if bv_index(self, base + 4) { 8 } else { 0 };
        let b5: u8 = if bv_index(self, base + 5) { 4 } else { 0 };
        let b6: u8 = if bv_index(self, base + 6) { 2 } else { 0 };
        let b7: u8 = if bv_index(self, base + 7) { 1 } else { 0 };
        b0 + b1 + b2 + b3 + b4 + b5 + b6 + b7
    }

    /// The whole bytes of the stream, the first bit of each eight being the
    /// most significant; up to seven bits at the end are left out.
    pub fn to_bytes(&self) -> (r: Vec<u8>)
        ensures
            r@ == bits_bytes(self@),
    {
        let total: usize = bv_len(self);
        let n: usize = total / 8;
        let mut r: Vec<u8> = Vec::new();
        let mut k: usize = 0;
        while k < n
            invariant
                k <= n,
                8 * n <= total,
                total == self@.len(),
                r@.len() == k,
                forall|j: int| 0 <= j < k ==> r@[j] == bits_byte(self@, j) as u8,
            decreases n - k,
        {
            let byte: u8 = self.byte_at(k);
            r.push(byte);
            k = k + 1;
        }
        assert(self@.len() / 8 == n as int);
        assert(r@ =~= bits_bytes(self@));
        r
    }
}

/// Append data to bitvec of a certain len: the lowest `len` bits of `v`, from
/// bit `len - 1` down to bit 0.
pub fn append(bv: &mut BitVec, v: u32, len: usize)
    requires
        len <= 32,
        old(bv)@.len() + len <= max_bits(),
    ensures
        final(bv)@ == old(bv)@ + int_bits(v, len as int),
{
    let mut j: usize = 0;
    while j < len
        invariant
            j <= len <= 32,
            old(bv)@.len() + len <= max_bits(),
            bv@ == old(bv)@ + int_bits(v, len as int).subrange(0, j as int),
        decreases len - j,
    {
        let k: u32 = (len - 1 - j) as u32;
        let b: bool = (v >> k) & 1 == 1;
        bv_push(bv, b);
        j = j + 1;
        assert(bv@ =~= old(bv)@ + int_bits(v, len as int).subrange(0, j as int));
    }
    assert(int_bits(v, len as int).subrange(0, j as int) =~= int_bits(v, len as int));
}

/// The bits of a byte sequence with one more byte are those of the sequence
/// followed by the eight bits of the byte.
pub proof fn lemma_bytes_bits_push(s: Seq<u8>, b: u8)
    ensures
        bytes_bits(s.push(b)) == bytes_bits(s) + int_bits(b as u32, 8),
{
    assert(bytes_bits(s.push(b)) =~= bytes_bits(s) + int_bits(b as u32, 8));
}

/// The number that a bit sequence stands for, its first bit being the most
/// significant.
pub open spec fn bits_value(s: Seq<bool>) -> int
    decreases s.len(),
{
    if s.len() == 0 {
        0
    } else {
        2 * bits_value(s.drop_last()) + bit_value(s.last())
    }
}

/// Bit `k + 1` of a number is bit `k` of its half.
proof fn lemma_bit_of_half(v: u32, k: u32)
    by (bit_vector)
    requires
        k < 31,
    ensures
        ((v >> ((k + 1) as u32)) & 1 == 1) == (((v >> 1) >> k) & 1 == 1),
{
}

/// A number is twice its half plus its lowest bit.
proof fn lemma_half_and_bit(v: u32)
    by (bit_vector)
    ensures
        v == 2 * (v >> 1) + (v & 1),
        v & 1 == 0 || v & 1 == 1,
        (v >> 0) == v,
{
}

/// The bits of a number stand for the number, where it fits their count.
pub proof fn lemma_int_bits_value(v: u32, len: int)
    requires
        0 <= len <= 32,
        (v as int) < vstd::arithmetic::power2::pow2(len as nat),
    ensures
        bits_value(int_bits(v, len)) == v,
    decreases len,
{
    let s = int_bits(v, len);
    if len > 0 {
        let w: u32 = v >> 1;
        lemma_half_and_bit(v);
        vstd::arithmetic::power2::lemma_pow2_unfold(len as nat);
        assert(s.drop_last() =~= int_bits(w, len - 1)) by {
            assert forall|i: int| 0 <= i < len - 1 implies s.drop_last()[i] == int_bits(
                w,
                len - 1,
            )[i] by {
                let k: u32 = (len - 2 - i) as u32;
                lemma_bit_of_half(v, k);
            }
        }
        assert(s.last() == bit_of(v, 0));
        lemma_int_bits_value(w, len - 1);
    } else {
        vstd::arithmetic::power2::lemma2_to64();
    }
}

} // verus!
