//! What a version and an error correction level say of a symbol: how its
//! codewords are split into blocks, and the format and version information
//! that is written into it.
use crate::bits::{append, int_bits, BitVec};
use crate::ec_level::ECLevel;
use crate::mask::Mask;
use crate::tables::{block_field, block_field_lookup, lemma_block_layout};
use crate::version::Version;
use vstd::prelude::*;

verus! {

/// Error correction codewords per block.
pub open spec fn ec_per_block(v: int, e: ECLevel) -> int {
    block_field(v, e, 0)
}

/// How many blocks the data codewords are split into.
pub open spec fn block_count(v: int, e: ECLevel) -> int {
    block_field(v, e, 1) + block_field(v, e, 3)
}

/// How many data codewords block `b` holds: the blocks of the first group
/// come first.
pub open spec fn block_size(v: int, e: ECLevel, b: int) -> int {
    if b < block_field(v, e, 1) {
        block_field(v, e, 2)
    } else {
        block_field(v, e, 4)
    }
}

/// The sizes of all blocks in order.
pub open spec fn block_sizes(v: int, e: ECLevel) -> Seq<usize> {
    Seq::new(block_count(v, e) as nat, |b: int| block_size(v, e, b) as usize)
}

/// How many data codewords a symbol holds.
pub open spec fn total_codewords_of(v: int, e: ECLevel) -> int {
    block_field(v, e, 1) * block_field(v, e, 2) + block_field(v, e, 3) * block_field(v, e, 4)
}

/// How many data bits a symbol holds.
pub open spec fn total_bits_of(v: int, e: ECLevel) -> int {
    8 * total_codewords_of(v, e)
}

/// One step of the division of a bit polynomial by a generator: where bit
/// `bit` of `rem` is set, the generator is subtracted with its leading term
/// moved to that bit. `low` is the degree of the generator.
pub open spec fn bch_step(rem: u32, generator: u32, bit: u32, low: u32) -> u32 {
    if (rem >> bit) & 1 == 1 {
        rem ^ (generator << ((bit - low) as u32))
    } else {
        rem
    }
}

/// The remainder of the division of a bit polynomial by a generator of degree
/// `low`, whose bits from `top` down to `low` are cleared in turn.
pub open spec fn bch_remainder(rem: u32, generator: u32, top: int, low: int) -> u32
    decreases top - low + 1,
{
    if top < low || low < 0 || top >= 32 {
        rem
    } else {
        bch_remainder(bch_step(rem, generator, top as u32, low as u32), generator, top - 1, low)
    }
}

/// The 15 bits of format information as a number: two bits for the level and
/// three for the mask, followed by the ten bits of their BCH(15,5) remainder
/// for the generator 0x537, the whole masked with 0x5412.
pub open spec fn format_value(e: ECLevel, mask: int) -> u32 {
    let data = ((e.wire() as u32) << 3) | (mask as u32);
    ((data << 10) | bch_remainder(data << 10, 0x537, 14, 10)) ^ 0x5412
}

/// The 18 bits of version information as a number: six bits for the version
/// followed by the twelve bits of their BCH(18,6) remainder for the
/// generator 0x1F25.
pub open spec fn version_value(v: int) -> u32 {
    ((v as u32) << 12) | bch_remainder((v as u32) << 12, 0x1F25, 17, 12)
}

/// The remainder of the division of `value` by `generator`, a bit polynomial
/// of degree `low`: the bits from `top` down to `low` are cleared in turn.
pub fn bch_divide(value: u32, generator: u32, top: u32, low: u32) -> (r: u32)
    requires
        low <= top < 32,
    ensures
        r == bch_remainder(value, generator, top as int, low as int),
{
    let mut rem: u32 = value;
    let mut bit: u32 = top;
    let mut done: bool = false;
    while !done
        invariant
            low <= top < 32,
            !done ==> low <= bit <= top,
            !done ==> bch_remainder(rem, generator, bit as int, low as int) == bch_remainder(
                value,
                generator,
                top as int,
                low as int,
            ),
            done ==> rem == bch_remainder(value, generator, top as int, low as int),
        decreases
                if done {
                    0
                } else {
                    bit - low + 1
                },
    {
        let ghost before = rem;
        if (rem >> bit) & 1 == 1 {
            rem = rem ^ (generator << (bit - low));
        }
        assert(rem == bch_step(before, generator, bit, low));
        assert(bch_remainder(before, generator, bit as int, low as int) == bch_remainder(
            rem,
            generator,
            bit - 1,
            low as int,
        ));
        assert(bch_remainder(rem, generator, low - 1, low as int) == rem);
        if bit == low {
            done = true;
        } else {
            bit = bit - 1;
        }
    }
    rem
}

/// How many data codewords a symbol holds.
pub fn total_codewords(v: Version, ecl: ECLevel) -> (r: usize)
    requires
        v.wf(),
    ensures
        r == total_codewords_of(v.0 as int, ecl),
        9 <= r <= 2956,
{
    proof {
        lemma_block_layout(v.0 as int, ecl);
        lemma_total_codewords(v.0 as int, ecl);
    }
    let g1b: usize = block_field_lookup(v.0, ecl, 1);
    let g1s: usize = block_field_lookup(v.0, ecl, 2);
    let g2b: usize = block_field_lookup(v.0, ecl, 3);
    let g2s: usize = block_field_lookup(v.0, ecl, 4);
    assert(g1b * g1s <= 81 * 122) by (nonlinear_arith)
        requires
            g1b <= 81,
            g1s <= 122,
    ;
    assert(g2b * g2s <= 81 * 123) by (nonlinear_arith)
        requires
            g2b <= 81,
            g2s <= 123,
    ;
    g1b * g1s + g2b * g2s
}

/// How many data bits a symbol holds.
pub fn total_bits(v: Version, ecl: ECLevel) -> (r: usize)
    requires
        v.wf(),
    ensures
        r == total_bits_of(v.0 as int, ecl),
        72 <= r <= 23648,
{
    8 * total_codewords(v, ecl)
}

/// Return a vector of codewords counts per block.
/// The length specifies how many blocks there are and each element
/// how many codewords that block holds.
pub fn group_block_count(v: Version, ecl: ECLevel) -> (r: Vec<usize>)
    requires
        v.wf(),
    ensures
        r@ == block_sizes(v.0 as int, ecl),
{
    proof {
        lemma_block_layout(v.0 as int, ecl);
    }
    let g1b: usize = block_field_lookup(v.0, ecl, 1);
    let g1s: usize = block_field_lookup(v.0, ecl, 2);
    let g2b: usize = block_field_lookup(v.0, ecl, 3);
    let g2s: usize = block_field_lookup(v.0, ecl, 4);
    let mut r: Vec<usize> = Vec::new();
    let mut i: usize = 0;
    while i < g1b
        invariant
            i <= g1b,
            r@.len() == i,
            forall|b: int| 0 <= b < i ==> r@[b] == g1s,
        decreases g1b - i,
    {
        r.push(g1s);
        i = i + 1;
    }
    let mut j: usize = 0;
    while j < g2b
        invariant
            j <= g2b,
            g1b + g2b <= 81,
            r@.len() == g1b + j,
            forall|b: int| 0 <= b < g1b ==> r@[b] == g1s,
            forall|b: int| g1b <= b < g1b + j ==> r@[b] == g2s,
        decreases g2b - j,
    {
        r.push(g2s);
        j = j + 1;
    }
    assert(r@ =~= block_sizes(v.0 as int, ecl));
    r
}

/// Error correction codewords per block.
pub fn block_ec_count(v: Version, ecl: ECLevel) -> (r: usize)
    requires
        v.wf(),
    ensures
        r == ec_per_block(v.0 as int, ecl),
        7 <= r <= 30,
{
    proof {
        lemma_block_layout(v.0 as int, ecl);
    }
    block_field_lookup(v.0, ecl, 0)
}

/// The format information for a level and a mask: 15 bits, the most
/// significant first.
pub fn format_info(ecl: ECLevel, mask: Mask) -> (r: BitVec)
    requires
        mask.wf(),
    ensures
        r@ == int_bits(format_value(ecl, mask.0 as int), 15),
        r@.len() == 15,
{
    let data: u32 = (ecl.wire_bits() << 3) | (mask.0 as u32);
    let shifted: u32 = data << 10;
    let value: u32 = (shifted | bch_divide(shifted, 0x537, 14, 10)) ^ 0x5412;
    let mut bv = BitVec::new();
    append(&mut bv, value, 15);
    assert(bv@ =~= int_bits(value, 15));
    bv
}

/// The version information of a version from 7 on: 18 bits, the least
/// significant first, which is the order in which they are placed. Smaller
/// versions carry none.
pub fn version_info(v: Version) -> (r: Option<BitVec>)
    requires
        v.wf(),
    ensures
        r is Some <==> v.0 >= 7,
        r is Some ==> r->0@ == int_bits(version_value(v.0 as int), 18).reverse(),
        r is Some ==> r->0@.len() == 18,
{
    if v.extra_version_areas() {
        let shifted: u32 = (v.0 as u32) << 12;
        let value: u32 = shifted | bch_divide(shifted, 0x1F25, 17, 12);
        let mut bv = BitVec::new();
        let mut i: u32 = 0;
        while i < 18
            invariant
                i <= 18,
                bv@.len() == i,
                forall|k: int| 0 <= k < i ==> bv@[k] == int_bits(value, 18)[17 - k],
            decreases 18 - i,
        {
            bv.push((value >> i) & 1 == 1);
            i = i + 1;
        }
        assert(bv@ =~= int_bits(value, 18).reverse());
        Some(bv)
    } else {
        None
    }
}

/// The count of data codewords is the sum of the block sizes, and lies
/// between 9 and 2956.
pub proof fn lemma_total_codewords(v: int, e: ECLevel)
    requires
        1 <= v <= 40,
    ensures
        9 <= total_codewords_of(v, e) <= 2956,
{
    lemma_block_layout(v, e);
    let a = block_field(v, e, 1);
    let b = block_field(v, e, 2);
    let c = block_field(v, e, 3);
    let d = block_field(v, e, 4);
    assert(a * b >= 9) by (nonlinear_arith)
        requires
            a >= 1,
            b >= 9,
    ;
    assert(c * d >= 0) by (nonlinear_arith)
        requires
            c >= 0,
            d >= 0,
    ;
}

} // verus!
