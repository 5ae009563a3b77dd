//! The two byte-to-byte transforms applied to DATA payloads: the nine-bit
//! repack, and run-length decompression.

use vstd::prelude::*;
use vstd::arithmetic::power2::{pow2, lemma2_to64, lemma_pow2_adds, lemma_pow2_pos};
use vstd::arithmetic::div_mod::{lemma_mod_breakdown, lemma_mod_mod, lemma_fundamental_div_mod_converse, lemma_div_multiples_vanish_fancy, lemma_add_mod_noop, lemma_mul_mod_noop_left, lemma_mod_bound};
use vstd::bits::{lemma_u16_shr_is_div, lemma_u16_low_bits_mask_is_mod, low_bits_mask, lemma_u16_shl_is_mul, lemma_u16_pow2_no_overflow};

verus! {

/// The bytes read as one big-endian unsigned number.
pub open spec fn be_value(b: Seq<u8>) -> nat
    decreases b.len(),
{
    if b.len() == 0 {
        0
    } else {
        be_value(b.drop_last()) * 256 + b.last() as nat
    }
}

/// The number formed by the first `q` bits of the stream that the bytes make,
/// the most significant bit of each byte first: the bytes that hold those bits,
/// read as one number, with the bits past `q` shifted off.
pub open spec fn stream_prefix(b: Seq<u8>, q: nat) -> nat {
    let n = (q + 7) / 8;
    be_value(b.take(n as int)) / pow2((8 * n - q) as nat)
}

/// The `k`-th full group of nine bits of the stream, narrowed to its low eight bits.
pub open spec fn nine_bit_group(b: Seq<u8>, k: nat) -> u8 {
    (stream_prefix(b, 9 * k + 9) % 256) as u8
}

/// The repacked form of `b`: one byte for each full group of nine bits, then,
/// where bits are left over, one byte holding them.
pub open spec fn repacked(b: Seq<u8>) -> Seq<u8> {
    let bits = 8 * b.len();
    let groups = Seq::new(bits / 9, |k: int| nine_bit_group(b, k as nat));
    if bits % 9 == 0 {
        groups
    } else {
        groups.push((be_value(b) % pow2(bits % 9)) as u8)
    }
}

proof fn lemma_be_value_push(b: Seq<u8>, i: int)
    requires
        0 <= i < b.len(),
    ensures
        be_value(b.take(i + 1)) == be_value(b.take(i)) * 256 + b[i] as nat,
{
    assert(b.take(i + 1).drop_last() =~= b.take(i));
}

/// Eight bits taken at `s` from the low sixteen bits of `v` are those taken at `s` from `v`.
proof fn lemma_window(v: nat, s: nat)
    requires
        s <= 8,
    ensures
        ((v % 65536) / pow2(s)) % 256 == (v / pow2(s)) % 256,
{
    lemma2_to64();
    lemma_pow2_pos(s);
    lemma_pow2_pos((16 - s) as nat);
    lemma_pow2_pos((8 - s) as nat);
    lemma_pow2_adds(s, (16 - s) as nat);
    lemma_pow2_adds(8, (8 - s) as nat);
    let y = pow2(s) as int;
    let z = pow2((16 - s) as nat) as int;
    lemma_mod_breakdown(v as int, y, z);
    let hi = (v as int / y) % z;
    let lo = v as int % y;
    assert(0 <= lo < y);
    lemma_div_multiples_vanish_fancy(hi, lo, y);
    assert((v as int % 65536) / y == hi);
    lemma_mod_mod(v as int / y, 256, pow2((8 - s) as nat) as int);
}

/// The low `r` bits of the low sixteen bits of `v` are the low `r` bits of `v`.
proof fn lemma_low_bits(v: nat, r: nat)
    requires
        r <= 16,
    ensures
        (v % 65536) % pow2(r) == v % pow2(r),
{
    lemma2_to64();
    lemma_pow2_pos(r);
    lemma_pow2_pos((16 - r) as nat);
    lemma_pow2_adds(r, (16 - r) as nat);
    lemma_mod_mod(v as int, pow2(r) as int, pow2((16 - r) as nat) as int);
}

/// Re-emits the bytes as a stream of nine-bit groups, one output byte per group
/// holding its low eight bits, and a last byte for the bits left over.
pub fn remove_redundant_bits(data: &[u8]) -> (r: Vec<u8>)
    ensures
        r@ == repacked(data@),
        data.len() == 0 ==> r@.len() == 0,
{
    let mut result: Vec<u8> = Vec::new();
    let mut buffer: u16 = 0;
    let mut bit_count: u16 = 0;
    let mut i: usize = 0;
    while i < data.len()
        invariant
            i <= data.len(),
            bit_count < 9,
            buffer as nat == be_value(data@.take(i as int)) % 65536,
            result.len() * 9 + bit_count == 8 * i,
            forall|k: int| 0 <= k < result.len() ==> result[k] == nine_bit_group(data@, k as nat),
        decreases data.len() - i,
    {
        let byte = data[i];
        proof {
            lemma_be_value_push(data@, i as int);
            let v = be_value(data@.take(i as int));
            assert(((buffer << 8u16) | (byte as u16)) as int == (buffer as int * 256 + byte as int) % 65536) by (bit_vector);
            lemma_mul_mod_noop_left(v as int, 256, 65536);
            lemma_add_mod_noop((v % 65536) as int * 256, byte as int, 65536);
            lemma_add_mod_noop(v as int * 256, byte as int, 65536);
            lemma_mod_bound(byte as int, 65536);
            assert((buffer as int * 256) % 65536 == (v as int * 256) % 65536);
        }
        buffer = (buffer << 8u16) | (byte as u16);
        bit_count = bit_count + 8;
        i = i + 1;
        while bit_count >= 9
            invariant
                i <= data.len(),
                bit_count <= 16,
                buffer as nat == be_value(data@.take(i as int)) % 65536,
                result.len() * 9 + bit_count == 8 * i,
                forall|k: int| 0 <= k < result.len() ==> result[k] == nine_bit_group(data@, k as nat),
            decreases bit_count,
        {
            let shift = bit_count - 9;
            let value = ((buffer >> shift) & 0x1FFu16) as u8;
            proof {
                let v = be_value(data@.take(i as int));
                let k = result.len() as nat;
                let q = 9 * k + 9;
                assert((q + 7) / 8 == i as nat);
                assert(8 * i - q == shift as nat);
                lemma_u16_shr_is_div(buffer, shift);
                let x = buffer >> shift;
                assert(((x & 0x1FFu16) as u8) as nat == x as nat % 256) by (bit_vector);
                lemma_window(v, shift as nat);
                assert(value == nine_bit_group(data@, k));
            }
            result.push(value);
            bit_count = bit_count - 9;
        }
    }
    let ghost groups = result@;
    if bit_count > 0 {
        proof {
            lemma_u16_pow2_no_overflow(bit_count as nat);
            lemma_u16_shl_is_mul(1u16, bit_count);
            lemma2_to64();
            lemma_pow2_pos(bit_count as nat);
            assert(low_bits_mask(bit_count as nat) == pow2(bit_count as nat) - 1);
            lemma_u16_low_bits_mask_is_mod(buffer, bit_count as nat);
            lemma_low_bits(be_value(data@), bit_count as nat);
            lemma_mod_bound(be_value(data@) as int, pow2(bit_count as nat) as int);
        }
        let value = (buffer & ((1u16 << bit_count) - 1)) as u8;
        result.push(value);
    }
    proof {
        assert(data@.take(data.len() as int) =~= data@);
        let bits = 8 * data@.len();
        lemma_fundamental_div_mod_converse(bits as int, 9, groups.len() as int, bit_count as int);
        assert(groups =~= Seq::new(bits / 9, |k: int| nine_bit_group(data@, k as nat)));
    }
    result
}

/// `count` copies of `value`.
pub open spec fn repeat(value: u8, count: nat) -> Seq<u8> {
    Seq::new(count, |_i: int| value)
}

/// The expansion of a stream of (value, count) pairs: for each pair in order,
/// `count` copies of `value`. A trailing unpaired byte contributes nothing.
pub open spec fn rle_expand(s: Seq<u8>) -> Seq<u8>
    decreases s.len(),
{
    if s.len() < 2 {
        Seq::empty()
    } else {
        rle_expand(s.take(s.len() - 2)) + repeat(s[s.len() - 2], s[s.len() - 1] as nat)
    }
}

/// Why a run-length stream could not be expanded.
#[derive(Debug, Clone, Copy, PartialEq, Eq, Structural)]
pub enum RleError {
    /// The stream ends in the middle of a (value, count) pair.
    TruncatedRleStream,
}

/// Expands a stream of (value, count) byte pairs; a stream of odd length is refused.
/// The bound on the input keeps the expansion, at most 255 bytes a pair, within `usize`.
pub fn decompress_rle(data: &[u8]) -> (r: Result<Vec<u8>, RleError>)
    requires
        data.len() <= usize::MAX / 128,
    ensures
        data.len() % 2 == 1 ==> r == Err::<Vec<u8>, RleError>(RleError::TruncatedRleStream),
        data.len() % 2 == 0 ==> (r matches Ok(v) && v@ == rle_expand(data@)),
{
    if data.len() % 2 == 1 {
        return Err(RleError::TruncatedRleStream);
    }
    let mut result: Vec<u8> = Vec::new();
    let mut index: usize = 0;
    while index < data.len()
        invariant
            index <= data.len(),
            index % 2 == 0,
            data.len() % 2 == 0,
            data.len() <= usize::MAX / 128,
            result.len() <= 128 * index,
            result@ == rle_expand(data@.take(index as int)),
        decreases data.len() - index,
    {
        let value = data[index];
        let count = data[index + 1];
        let ghost before = result@;
        let mut j: u8 = 0;
        while j < count
            invariant
                j <= count,
                index + 2 <= data.len(),
                data.len() <= usize::MAX / 128,
                result.len() <= 128 * index + j,
                result@ == before + repeat(value, j as nat),
            decreases count - j,
        {
            result.push(value);
            j = j + 1;
            proof {
                assert(result@ =~= before + repeat(value, j as nat));
            }
        }
        proof {
            let t = data@.take(index + 2);
            assert(t.take(t.len() - 2) =~= data@.take(index as int));
        }
        index = index + 2;
    }
    proof {
        assert(data@.take(data.len() as int) =~= data@);
    }
    Ok(result)
}

/// A single (value, count) pair expands to `count` copies of `value`, and the
/// empty stream to nothing.
pub proof fn single_pair_expands(value: u8, count: u8)
    ensures
        rle_expand(seq![value, count]) == repeat(value, count as nat),
        rle_expand(Seq::empty()) == Seq::<u8>::empty(),
{
    let s = seq![value, count];
    assert(s.take(0) =~= Seq::<u8>::empty());
    assert(rle_expand(s.take(0)) == Seq::<u8>::empty());
    assert(s[0] == value && s[1] == count);
    assert(rle_expand(s) == rle_expand(s.take(0)) + repeat(value, count as nat));
    assert(Seq::<u8>::empty() + repeat(value, count as nat) =~= repeat(value, count as nat));
}

} // verus!
