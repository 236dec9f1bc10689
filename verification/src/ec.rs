//! Reed-Solomon error correction over GF(256): the codewords of a block, the
//! split of the data into blocks, and the interleaved stream of data and
//! error correction codewords.
use crate::bits::{bits_bytes, bytes_bits, zero_bits, BitVec};
pub use crate::ec_level::ECLevel;
use crate::info::{
    block_count, block_ec_count, block_size, block_sizes, ec_per_block, group_block_count, total_bits_of, total_codewords_of,
};
use crate::tables::{
    block_field, gf_exp, gf_exp_lookup, gf_log, gf_log_lookup, lemma_block_layout, lemma_remainder_bits, remainder_bits, remainder_bits_lookup,
};
use crate::version::Version;
use vstd::prelude::*;

verus! {

/// The product of two elements of GF(256): zero where one of them is zero,
/// else the power whose exponent is the sum of their logarithms modulo 255.
pub open spec fn gf_mul(a: int, b: int) -> int {
    if a == 0 || b == 0 {
        0
    } else {
        gf_exp((gf_log(a) + gf_log(b)) % 255)
    }
}

/// The generator polynomial of degree `n + 1` from that of degree `n`: the
/// product with `x + 2^n`. A polynomial is held without its leading
/// coefficient, which is 1, and from the highest power down.
pub open spec fn gen_step(g: Seq<u8>, n: int) -> Seq<u8> {
    Seq::new(
        (n + 1) as nat,
        |j: int|
            (if j < n {
                g[j]
            } else {
                0u8
            }) ^ (if j == 0 {
                gf_exp(n % 255) as u8
            } else {
                gf_mul(gf_exp(n % 255), g[j - 1] as int) as u8
            }),
    )
}

/// The generator polynomial for `n` error correction codewords: the product
/// of `x + 2^i` for `i` below `n`, without its leading coefficient and from
/// the highest power down.
pub open spec fn gen_poly(n: int) -> Seq<u8>
    decreases n,
{
    if n <= 0 {
        Seq::empty()
    } else {
        gen_step(gen_poly(n - 1), n - 1)
    }
}

/// One step of the division by a generator polynomial: the multiple of the
/// generator that clears position `i` is subtracted from the positions
/// behind it.
pub open spec fn ec_reduce(res: Seq<u8>, generator: Seq<u8>, i: int) -> Seq<u8> {
    Seq::new(
        res.len(),
        |k: int|
            if i < k <= i + generator.len() {
                res[k] ^ (gf_mul(generator[k - i - 1] as int, res[i] as int) as u8)
            } else {
                res[k]
            },
    )
}

/// The buffer after the first `k` positions have been cleared in turn.
pub open spec fn ec_divide(res: Seq<u8>, generator: Seq<u8>, k: int) -> Seq<u8>
    decreases k,
{
    if k <= 0 {
        res
    } else {
        ec_reduce(ec_divide(res, generator, k - 1), generator, k - 1)
    }
}

/// The error correction codewords of a block: the remainder of the division
/// of the block, followed by `n` zero codewords, by the generator polynomial
/// for `n` codewords.
pub open spec fn ec_codewords(msg: Seq<u8>, n: int) -> Seq<u8> {
    ec_divide(msg + Seq::new(n as nat, |i: int| 0u8), gen_poly(n), msg.len() as int).subrange(
        msg.len() as int,
        msg.len() + n,
    )
}

/// The product of two elements of GF(256).
pub fn gf_multiply(a: u8, b: u8) -> (r: u8)
    ensures
        r == gf_mul(a as int, b as int),
{
    if a == 0 || b == 0 {
        0
    } else {
        let la: usize = gf_log_lookup(a) as usize;
        let lb: usize = gf_log_lookup(b) as usize;
        gf_exp_lookup(((la + lb) % 255) as u8)
    }
}

/// The generator polynomial for `n` error correction codewords.
pub fn generator_poly(n: usize) -> (r: Vec<u8>)
    ensures
        r@ == gen_poly(n as int),
        r@.len() == n,
{
    let mut g: Vec<u8> = Vec::new();
    let mut k: usize = 0;
    while k < n
        invariant
            k <= n,
            g@ == gen_poly(k as int),
            g@.len() == k,
        decreases n - k,
    {
        let a: u8 = gf_exp_lookup((k % 255) as u8);
        let mut h: Vec<u8> = Vec::new();
        let mut j: usize = 0;
        while j <= k
            invariant
                j <= k + 1,
                k < n,
                g@.len() == k,
                a == gf_exp(k as int % 255),
                h@.len() == j,
                forall|t: int| 0 <= t < j ==> h@[t] == gen_step(g@, k as int)[t],
            decreases k + 1 - j,
        {
            let keep: u8 = if j < k {
                g[j]
            } else {
                0
            };
            let add: u8 = if j == 0 {
                a
            } else {
                gf_multiply(a, g[j - 1])
            };
            h.push(keep ^ add);
            j = j + 1;
        }
        assert(h@ =~= gen_step(g@, k as int));
        g = h;
        k = k + 1;
    }
    g
}

/// The error correction codewords of a block of data codewords.
pub fn generate_ec_codewords(msg: &[u8], ec_count: usize) -> (r: Vec<u8>)
    requires
        msg@.len() + ec_count <= usize::MAX,
    ensures
        r@ == ec_codewords(msg@, ec_count as int),
        r@.len() == ec_count,
{
    let generator = generator_poly(ec_count);
    let k: usize = msg.len();
    // The buffer holds the data followed by zeros.
    let mut res: Vec<u8> = Vec::new();
    let mut i: usize = 0;
    while i < k
        invariant
            i <= k == msg@.len(),
            res@ == msg@.subrange(0, i as int),
        decreases k - i,
    {
        res.push(msg[i]);
        i = i + 1;
        assert(res@ =~= msg@.subrange(0, i as int));
    }
    let mut z: usize = 0;
    while z < ec_count
        invariant
            z <= ec_count,
            k == msg@.len(),
            k + ec_count <= usize::MAX,
            res@ == msg@ + Seq::new(z as nat, |i: int| 0u8),
        decreases ec_count - z,
    {
        res.push(0);
        z = z + 1;
        assert(res@ =~= msg@ + Seq::new(z as nat, |i: int| 0u8));
    }
    let ghost start = res@;
    i = 0;
    while i < k
        invariant
            i <= k == msg@.len(),
            k + ec_count <= usize::MAX,
            generator@.len() == ec_count,
            res@.len() == k + ec_count,
            res@ == ec_divide(start, generator@, i as int),
        decreases k - i,
    {
        let lead: u8 = res[i];
        let ghost before = res@;
        if lead != 0 {
            let mut j: usize = 0;
            while j < ec_count
                invariant
                    j <= ec_count,
                    i < k,
                    k + ec_count <= usize::MAX,
                    generator@.len() == ec_count,
                    res@.len() == k + ec_count == before.len(),
                    lead == before[i as int],
                    forall|t: int|
                        0 <= t < res@.len() ==> res@[t] == if i < t <= i + j {
                            before[t] ^ (gf_mul(generator@[t - i - 1] as int, lead as int) as u8)
                        } else {
                            before[t]
                        },
                decreases ec_count - j,
            {
                let x: u8 = res[i + 1 + j] ^ gf_multiply(generator[j], lead);
                res.set(i + 1 + j, x);
                j = j + 1;
            }
            assert(res@ =~= ec_reduce(before, generator@, i as int));
        } else {
            assert forall|t: int| 0 <= t < before.len() implies before[t] == ec_reduce(
                before,
                generator@,
                i as int,
            )[t] by {
                let x: u8 = before[t];
                assert(x ^ 0u8 == x) by (bit_vector);
            }
            assert(res@ =~= ec_reduce(before, generator@, i as int));
        }
        i = i + 1;
    }
    // The last ec_count elements are the result.
    let mut out: Vec<u8> = Vec::new();
    let mut t: usize = 0;
    while t < ec_count
        invariant
            t <= ec_count,
            res@.len() == k + ec_count,
            k + ec_count <= usize::MAX,
            out@ == res@.subrange(k as int, k + t),
        decreases ec_count - t,
    {
        out.push(res[k + t]);
        t = t + 1;
        assert(out@ =~= res@.subrange(k as int, k + t));
    }
    out
}

/// Where block `b` starts in the data codewords: the sum of the sizes of the
/// blocks before it.
pub open spec fn layout_offset(layout: Seq<usize>, b: int) -> int
    decreases b,
{
    if b <= 0 {
        0
    } else {
        layout_offset(layout, b - 1) + layout[b - 1]
    }
}

/// The largest of the first `b` block sizes.
pub open spec fn widest(layout: Seq<usize>, b: int) -> int
    decreases b,
{
    if b <= 0 {
        0
    } else if layout[b - 1] > widest(layout, b - 1) {
        layout[b - 1] as int
    } else {
        widest(layout, b - 1)
    }
}

/// The data codewords split into blocks of the given sizes, in order.
pub open spec fn blocks_of(bytes: Seq<u8>, layout: Seq<usize>) -> Seq<Seq<u8>> {
    Seq::new(
        layout.len(),
        |b: int| bytes.subrange(layout_offset(layout, b), layout_offset(layout, b) + layout[b]),
    )
}

/// The contents of a vector of blocks.
pub open spec fn block_views(blocks: Seq<Vec<u8>>) -> Seq<Seq<u8>> {
    Seq::new(blocks.len(), |b: int| blocks[b]@)
}

/// The codewords that interleaving emits before it comes to block `b` in
/// column `i`: column by column, within a column block by block, skipping the
/// blocks that are too short for the column.
pub open spec fn interleave_upto(blocks: Seq<Seq<u8>>, i: int, b: int) -> Seq<u8>
    decreases i, b,
{
    if i < 0 || b < 0 {
        Seq::empty()
    } else if b > 0 {
        let prev = interleave_upto(blocks, i, b - 1);
        if b - 1 < blocks.len() && i < blocks[b - 1].len() {
            prev.push(blocks[b - 1][i])
        } else {
            prev
        }
    } else if i > 0 {
        interleave_upto(blocks, i - 1, blocks.len() as int)
    } else {
        Seq::empty()
    }
}

/// The error correction codewords of each block.
pub open spec fn ec_blocks_of(blocks: Seq<Seq<u8>>, n: int) -> Seq<Seq<u8>> {
    Seq::new(blocks.len(), |b: int| ec_codewords(blocks[b], n))
}

/// The codewords of a symbol: the data codewords interleaved over their
/// blocks, then the error correction codewords interleaved likewise.
pub open spec fn protected_bytes(data: Seq<bool>, v: int, e: ECLevel) -> Seq<u8> {
    let blocks = blocks_of(bits_bytes(data), block_sizes(v, e));
    interleave_upto(blocks, widest(block_sizes(v, e), block_count(v, e)), 0) + interleave_upto(
        ec_blocks_of(blocks, ec_per_block(v, e)),
        ec_per_block(v, e),
        0,
    )
}

/// The bit stream of a symbol: its codewords, followed by the remainder bits
/// of its version.
pub open spec fn protected(data: Seq<bool>, v: int, e: ECLevel) -> Seq<bool> {
    bytes_bits(protected_bytes(data, v, e)) + zero_bits(remainder_bits(v))
}

/// How many bits the stream of a symbol has: the data codewords, the error
/// correction codewords of every block, and the remainder bits.
pub open spec fn protected_len(v: int, e: ECLevel) -> int {
    8 * total_codewords_of(v, e) + 8 * ec_per_block(v, e) * block_count(v, e) + remainder_bits(v)
}

/// Splits the bytes of a bit stream into blocks of the given sizes.
pub fn group_into_blocks(bv: &BitVec, layout: &Vec<usize>) -> (r: Vec<Vec<u8>>)
    requires
        layout_offset(layout@, layout@.len() as int) == bv@.len() / 8,
    ensures
        block_views(r@) == blocks_of(bits_bytes(bv@), layout@),
        r@.len() == layout@.len(),
        forall|t: int| 0 <= t < r@.len() ==> (#[trigger] r@[t])@.len() == layout@[t],
{
    let data = bv.to_bytes();
    let total: usize = data.len();
    let mut res: Vec<Vec<u8>> = Vec::new();
    let mut pos: usize = 0;
    let mut b: usize = 0;
    while b < layout.len()
        invariant
            b <= layout@.len(),
            data@ == bits_bytes(bv@),
            layout_offset(layout@, layout@.len() as int) == data@.len(),
            pos == layout_offset(layout@, b as int),
            pos <= data@.len(),
            total == data@.len(),
            res@.len() == b,
            forall|t: int| 0 <= t < b ==> res@[t]@ == blocks_of(data@, layout@)[t],
            forall|t: int| 0 <= t < b ==> (#[trigger] res@[t])@.len() == layout@[t],
        decreases layout@.len() - b,
    {
        proof {
            lemma_layout_offset_grows(layout@, b + 1, layout@.len() as int);
            assert(layout_offset(layout@, b + 1) == layout_offset(layout@, b as int) + layout@[b as int]);
        }
        let size: usize = layout[b];
        let mut block: Vec<u8> = Vec::new();
        let mut t: usize = 0;
        while t < size
            invariant
                t <= size,
                pos + size <= data@.len() == total,
                block@ == data@.subrange(pos as int, pos + t),
            decreases size - t,
        {
            block.push(data[pos + t]);
            t = t + 1;
            assert(block@ =~= data@.subrange(pos as int, pos + t));
        }
        res.push(block);
        pos = pos + size;
        b = b + 1;
    }
    assert(block_views(res@) =~= blocks_of(data@, layout@));
    res
}

/// The largest block size of a layout.
pub fn widest_block(layout: &Vec<usize>) -> (r: usize)
    ensures
        r == widest(layout@, layout@.len() as int),
{
    let mut w: usize = 0;
    let mut b: usize = 0;
    while b < layout.len()
        invariant
            b <= layout@.len(),
            w == widest(layout@, b as int),
        decreases layout@.len() - b,
    {
        if layout[b] > w {
            w = layout[b];
        }
        b = b + 1;
    }
    w
}

/// Emits the codewords of blocks column by column: for each position up to
/// `width`, the codeword at that position of each block that has one.
pub fn interleave(blocks: &Vec<Vec<u8>>, width: usize, out: &mut Vec<u8>)
    ensures
        final(out)@ == old(out)@ + interleave_upto(block_views(blocks@), width as int, 0),
{
    let ghost views = block_views(blocks@);
    let mut i: usize = 0;
    assert(out@ =~= old(out)@ + interleave_upto(views, 0, 0));
    while i < width
        invariant
            i <= width,
            views == block_views(blocks@),
            out@ == old(out)@ + interleave_upto(views, i as int, 0),
        decreases width - i,
    {
        let mut b: usize = 0;
        while b < blocks.len()
            invariant
                b <= blocks@.len(),
                i < width,
                views == block_views(blocks@),
                out@ == old(out)@ + interleave_upto(views, i as int, b as int),
            decreases blocks@.len() - b,
        {
            if i < blocks[b].len() {
                out.push(blocks[b][i]);
            }
            b = b + 1;
            assert(out@ =~= old(out)@ + interleave_upto(views, i as int, b as int));
        }
        i = i + 1;
    }
}

/// Add error correction codewords to data: the data codewords are split into
/// blocks and interleaved, the error correction codewords of each block are
/// interleaved behind them, and the remainder bits of the version end the
/// stream.
pub fn add(data: BitVec, v: Version, ecl: ECLevel) -> (r: BitVec)
    requires
        v.wf(),
        data@.len() == total_bits_of(v.0 as int, ecl),
    ensures
        r@ == protected(data@, v.0 as int, ecl),
        r@.len() == protected_len(v.0 as int, ecl),
{
    let layout = group_block_count(v, ecl);
    proof {
        lemma_block_layout(v.0 as int, ecl);
        lemma_remainder_bits(v.0 as int);
        lemma_layout_total(v.0 as int, ecl, block_count(v.0 as int, ecl));
    }
    let blocks = group_into_blocks(&data, &layout);
    let ghost views = block_views(blocks@);
    assert forall|t: int| 0 <= t < blocks@.len() implies (#[trigger] blocks@[t])@.len() <= 123 by {
        assert(layout@[t] == block_size(v.0 as int, ecl, t));
    }
    let mut bytes: Vec<u8> = Vec::new();

    // First interleave all codewords in blocks.
    let layout_max: usize = widest_block(&layout);
    interleave(&blocks, layout_max, &mut bytes);
    assert(bytes@ =~= interleave_upto(views, layout_max as int, 0));

    // Then interleave all ec codewords in blocks.
    let ec_count: usize = block_ec_count(v, ecl);
    let mut ec_blocks: Vec<Vec<u8>> = Vec::new();
    let mut b: usize = 0;
    while b < blocks.len()
        invariant
            b <= blocks@.len(),
            views == block_views(blocks@),
            ec_count <= 30,
            forall|t: int| 0 <= t < blocks@.len() ==> (#[trigger] blocks@[t])@.len() <= 123,
            ec_blocks@.len() == b,
            forall|t: int|
                0 <= t < b ==> (#[trigger] ec_blocks@[t])@ == ec_codewords(
                    views[t],
                    ec_count as int,
                ),
        decreases blocks@.len() - b,
    {
        let codewords = generate_ec_codewords(blocks[b].as_slice(), ec_count);
        ec_blocks.push(codewords);
        b = b + 1;
    }
    assert(block_views(ec_blocks@) =~= ec_blocks_of(views, ec_count as int));
    interleave(&ec_blocks, ec_count, &mut bytes);
    assert(bytes@ == protected_bytes(data@, v.0 as int, ecl));
    proof {
        lemma_protected_bytes_len(data@, v.0 as int, ecl);
    }

    let mut res = BitVec::from_bytes(&bytes);

    // Add padding remainder bits.
    let remainder: usize = remainder_bits_lookup(v.0);
    res.pad_zeros(remainder);
    res
}

/// The division keeps the length of the buffer.
pub proof fn lemma_ec_divide_len(res: Seq<u8>, generator: Seq<u8>, k: int)
    ensures
        ec_divide(res, generator, k).len() == res.len(),
    decreases k,
{
    if k > 0 {
        lemma_ec_divide_len(res, generator, k - 1);
    }
}

/// A block has as many error correction codewords as were asked for.
pub proof fn lemma_ec_codewords_len(msg: Seq<u8>, n: int)
    requires
        0 <= n,
    ensures
        ec_codewords(msg, n).len() == n,
{
    lemma_ec_divide_len(msg + Seq::new(n as nat, |i: int| 0u8), gen_poly(n), msg.len() as int);
}

/// The blocks of a layout follow each other: a later block starts no earlier.
pub proof fn lemma_layout_offset_grows(layout: Seq<usize>, a: int, b: int)
    requires
        0 <= a <= b,
    ensures
        layout_offset(layout, a) <= layout_offset(layout, b),
    decreases b - a,
{
    if a < b {
        lemma_layout_offset_grows(layout, a, b - 1);
    }
}

/// The blocks of a version's layout start where the sizes of the two groups
/// say, and together hold all data codewords.
pub proof fn lemma_layout_total(v: int, e: ECLevel, b: int)
    requires
        1 <= v <= 40,
        0 <= b <= block_count(v, e),
    ensures
        layout_offset(block_sizes(v, e), b) == if b <= block_field(v, e, 1) {
            b * block_field(v, e, 2)
        } else {
            block_field(v, e, 1) * block_field(v, e, 2) + (b - block_field(v, e, 1)) * block_field(
                v,
                e,
                4,
            )
        },
        b == block_count(v, e) ==> layout_offset(block_sizes(v, e), b) == total_codewords_of(v, e),
        widest(block_sizes(v, e), b) == if b == 0 {
            0
        } else if b <= block_field(v, e, 1) {
            block_field(v, e, 2)
        } else {
            block_field(v, e, 4)
        },
    decreases b,
{
    lemma_block_layout(v, e);
    let n1 = block_field(v, e, 1);
    let s1 = block_field(v, e, 2);
    let s2 = block_field(v, e, 4);
    if b > 0 {
        lemma_layout_total(v, e, b - 1);
        assert(block_sizes(v, e)[b - 1] == block_size(v, e, b - 1));
        assert(b * s1 == (b - 1) * s1 + s1) by (nonlinear_arith);
        assert((b - n1) * s2 == (b - 1 - n1) * s2 + s2) by (nonlinear_arith);
        assert((n1 - n1) * s2 == 0) by (nonlinear_arith);
    } else {
        assert(0 * s1 == 0) by (nonlinear_arith);
    }
}

/// How many codewords interleaving has emitted where the first `n1` blocks
/// hold `s1` codewords each and the others `s2` each.
pub proof fn lemma_interleave_len(
    blocks: Seq<Seq<u8>>,
    n1: int,
    s1: int,
    s2: int,
    i: int,
    b: int,
)
    requires
        0 <= n1 <= blocks.len(),
        0 <= s1,
        0 <= s2,
        forall|t: int| 0 <= t < n1 ==> (#[trigger] blocks[t]).len() == s1,
        forall|t: int| n1 <= t < blocks.len() ==> (#[trigger] blocks[t]).len() == s2,
        0 <= i,
        0 <= b <= blocks.len(),
    ensures
        interleave_upto(blocks, i, b).len() == n1 * vstd::math::min(i, s1) + (blocks.len() - n1)
            * vstd::math::min(i, s2) + (if i < s1 {
            vstd::math::min(b, n1)
        } else {
            0
        }) + (if i < s2 {
            vstd::math::max(b - n1, 0)
        } else {
            0
        }),
    decreases i, b,
{
    let n2 = blocks.len() - n1;
    if b > 0 {
        lemma_interleave_len(blocks, n1, s1, s2, i, b - 1);
    } else if i > 0 {
        lemma_interleave_len(blocks, n1, s1, s2, i - 1, blocks.len() as int);
        let m1 = vstd::math::min(i - 1, s1);
        let m2 = vstd::math::min(i - 1, s2);
        assert(n1 * (m1 + 1) == n1 * m1 + n1) by (nonlinear_arith);
        assert(n2 * (m2 + 1) == n2 * m2 + n2) by (nonlinear_arith);
    } else {
        assert(n1 * 0 == 0) by (nonlinear_arith);
        assert(n2 * 0 == 0) by (nonlinear_arith);
    }
}

/// A symbol has as many codewords as its data codewords and the error
/// correction codewords of all its blocks together.
pub proof fn lemma_protected_bytes_len(data: Seq<bool>, v: int, e: ECLevel)
    requires
        1 <= v <= 40,
        data.len() == total_bits_of(v, e),
    ensures
        protected_bytes(data, v, e).len() == total_codewords_of(v, e) + ec_per_block(v, e)
            * block_count(v, e),
        8 * protected_bytes(data, v, e).len() + remainder_bits(v) == protected_len(v, e),
        protected_bytes(data, v, e).len() <= 5386,
{
    lemma_block_layout(v, e);
    let layout = block_sizes(v, e);
    let count = block_count(v, e);
    let n1 = block_field(v, e, 1);
    let s1 = block_field(v, e, 2);
    let s2 = block_field(v, e, 4);
    let n = ec_per_block(v, e);
    let blocks = blocks_of(bits_bytes(data), layout);
    let w = widest(layout, count);
    lemma_layout_total(v, e, count);
    assert forall|t: int| 0 <= t < count implies (#[trigger] blocks[t]).len() == layout[t] by {
        lemma_layout_total(v, e, t);
        lemma_layout_total(v, e, t + 1);
        lemma_layout_offset_grows(layout, t + 1, count);
    }
    lemma_interleave_len(blocks, n1, s1, s2, w, 0);
    let ecs = ec_blocks_of(blocks, n);
    assert forall|t: int| 0 <= t < count implies (#[trigger] ecs[t]).len() == n by {
        lemma_ec_codewords_len(blocks[t], n);
    }
    lemma_interleave_len(ecs, count, n, n, n, 0);
    assert((count - count) * n == 0) by (nonlinear_arith);
    assert(count * n == n * count) by (nonlinear_arith);
    assert(8 * (n * count) == 8 * n * count) by (nonlinear_arith);
    assert(n * count <= 30 * 81) by (nonlinear_arith)
        requires
            0 <= n <= 30,
            0 <= count <= 81,
    ;
    if block_field(v, e, 3) == 0 {
        assert((count - n1) * vstd::math::min(w, s2) == 0) by (nonlinear_arith)
            requires
                count - n1 == 0,
        ;
        assert(block_field(v, e, 3) * s2 == 0) by (nonlinear_arith)
            requires
                block_field(v, e, 3) == 0,
        ;
    }
}

} // verus!
