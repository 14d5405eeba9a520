//! Packing of boolean pixels, eight to a byte, least significant bit first.

use vstd::prelude::*;

verus! {

/// Bit `k` (0 is the least significant) of byte `b`.
pub open spec fn byte_bit(b: u8, k: nat) -> bool {
    (b >> (k as u8)) & 1u8 == 1u8
}

/// The bits that a byte sequence unpacks to: `8 * bytes.len()` of them, in order.
pub open spec fn bits_of(bytes: Seq<u8>) -> Seq<bool> {
    Seq::new(8 * bytes.len(), |i: int| byte_bit(bytes[i / 8], (i % 8) as nat))
}

/// Number of bytes needed to hold `n` bits.
pub open spec fn packed_len(n: nat) -> nat {
    (n + 7) / 8
}

/// `bytes` is the packing of `bits`: one byte per started group of eight,
/// bit `i` in bit `i % 8` of byte `i / 8`, the final byte padded with zero bits.
pub open spec fn packs(bytes: Seq<u8>, bits: Seq<bool>) -> bool {
    &&& bytes.len() == packed_len(bits.len())
    &&& forall|i: int|
        0 <= i < 8 * bytes.len() ==> #[trigger] byte_bit(bytes[i / 8], (i % 8) as nat) == (i
            < bits.len() && bits[i])
}

/// Row-major index of the point `(x, y)` on a canvas `width` pixels wide.
pub open spec fn index_of(width: int, x: int, y: int) -> int {
    y * width + x
}

/// Row-major index of a point on a canvas `canvas_width` pixels wide.
pub fn point_to_index(canvas_width: usize, x: usize, y: usize) -> (r: usize)
    requires
        y * canvas_width + x <= usize::MAX,
    ensures
        r == index_of(canvas_width as int, x as int, y as int),
{
    y * canvas_width + x
}

proof fn lemma_or_bit(b: u8, v: bool, k: u8, m: u8)
    requires
        k < 8,
        m < 8,
    ensures
        ((b | ((v as u8) << k)) >> m) & 1u8 == 1u8 <==> (((b >> m) & 1u8 == 1u8) || (v && m
            == k)),
{
    if v {
        assert(((b | (1u8 << k)) >> m) & 1u8 == 1u8 <==> (((b >> m) & 1u8 == 1u8) || m == k))
            by (bit_vector)
            requires
                k < 8,
                m < 8,
        ;
        assert((v as u8) == 1u8);
    } else {
        assert(((b | (0u8 << k)) >> m) & 1u8 == 1u8 <==> ((b >> m) & 1u8 == 1u8))
            by (bit_vector)
            requires
                k < 8,
                m < 8,
        ;
        assert((v as u8) == 0u8);
    }
}

proof fn lemma_zero_bits(m: u8)
    requires
        m < 8,
    ensures
        !((0u8 >> m) & 1u8 == 1u8),
{
    assert(!((0u8 >> m) & 1u8 == 1u8)) by (bit_vector);
}

/// Unpacks every bit of `bytes`, least significant first within each byte.
pub fn bytes_to_bits(bytes: &Vec<u8>) -> (bits: Vec<bool>)
    requires
        8 * bytes@.len() <= usize::MAX,
    ensures
        bits@ == bits_of(bytes@),
{
    let byte_count: usize = bytes.len();
    let mut bits: Vec<bool> = Vec::new();
    let mut bit_index: usize = 0;
    while bit_index < 8 * byte_count
        invariant
            byte_count == bytes@.len(),
            8 * byte_count <= usize::MAX,
            bit_index <= 8 * byte_count,
            bits@.len() == bit_index,
            forall|i: int| 0 <= i < bit_index ==> bits@[i] == bits_of(bytes@)[i],
        decreases 8 * byte_count - bit_index,
    {
        let byte: u8 = bytes[bit_index / 8];
        let k: u8 = (bit_index % 8) as u8;
        bits.push((byte >> k) & 1u8 == 1u8);
        bit_index += 1;
    }
    assert(bits@ =~= bits_of(bytes@));
    bits
}

/// Packs `bits` eight to a byte, least significant bit first, padding the
/// final byte with zero bits.
pub fn bits_to_bytes(bits: &Vec<bool>) -> (bytes: Vec<u8>)
    requires
        bits@.len() + 7 <= usize::MAX,
    ensures
        packs(bytes@, bits@),
{
    let byte_count: usize = (bits.len() + 7) / 8;
    let mut bytes: Vec<u8> = Vec::new();
    let mut j: usize = 0;
    while j < byte_count
        invariant
            j <= byte_count,
            bytes@.len() == j,
            forall|i: int| 0 <= i < j ==> bytes@[i] == 0u8,
        decreases byte_count - j,
    {
        bytes.push(0u8);
        j += 1;
    }
    proof {
        assert forall|i: int| 0 <= i < 8 * bytes@.len() implies #[trigger] byte_bit(
            bytes@[i / 8],
            (i % 8) as nat,
        ) == (i < 0 && bits@[i]) by {
            lemma_zero_bits((i % 8) as u8);
        }
    }
    let mut bit_index: usize = 0;
    while bit_index < bits.len()
        invariant
            byte_count == packed_len(bits@.len()),
            bytes@.len() == byte_count,
            bit_index <= bits@.len(),
            forall|i: int|
                0 <= i < 8 * bytes@.len() ==> #[trigger] byte_bit(bytes@[i / 8], (i % 8) as nat)
                    == (i < bit_index && bits@[i]),
        decreases bits@.len() - bit_index,
    {
        let q: usize = bit_index / 8;
        let k: u8 = (bit_index % 8) as u8;
        let old_bytes = Ghost(bytes@);
        let b: u8 = bytes[q];
        let v: bool = bits[bit_index];
        bytes.set(q, b | ((v as u8) << k));
        proof {
            assert forall|i: int| 0 <= i < 8 * bytes@.len() implies #[trigger] byte_bit(
                bytes@[i / 8],
                (i % 8) as nat,
            ) == (i < bit_index + 1 && bits@[i]) by {
                let m: u8 = (i % 8) as u8;
                if i / 8 == q as int {
                    lemma_or_bit(b, v, k, m);
                    assert(byte_bit(old_bytes@[i / 8], (i % 8) as nat) == (i < bit_index && bits@[i]));
                } else {
                    assert(bytes@[i / 8] == old_bytes@[i / 8]);
                    assert(byte_bit(old_bytes@[i / 8], (i % 8) as nat) == (i < bit_index && bits@[i]));
                }
            }
        }
        bit_index += 1;
    }
    bytes
}

/// Unpacking a packing gives back the bits, when their number is a multiple
/// of eight (otherwise the result carries the zero padding as well).
pub proof fn lemma_unpack_pack(bytes: Seq<u8>, bits: Seq<bool>)
    requires
        packs(bytes, bits),
        bits.len() % 8 == 0,
    ensures
        bits_of(bytes) == bits,
{
    assert forall|i: int| 0 <= i < bits.len() implies bits_of(bytes)[i] == bits[i] by {
        assert(byte_bit(bytes[i / 8], (i % 8) as nat) == (i < bits.len() && bits[i]));
    }
    assert(bits_of(bytes) =~= bits);
}

/// Unpacking a packing and keeping the first `bits.len()` bits gives back the bits.
pub proof fn lemma_unpack_pack_prefix(bytes: Seq<u8>, bits: Seq<bool>)
    requires
        packs(bytes, bits),
    ensures
        bits_of(bytes).len() >= bits.len(),
        bits_of(bytes).take(bits.len() as int) == bits,
{
    assert forall|i: int| 0 <= i < bits.len() implies bits_of(bytes)[i] == bits[i] by {
        assert(byte_bit(bytes[i / 8], (i % 8) as nat) == (i < bits.len() && bits[i]));
    }
    assert(bits_of(bytes).take(bits.len() as int) =~= bits);
}

} // verus!
