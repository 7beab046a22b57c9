//! The packing that the unpacker undoes, and what holds of the two together.

use vstd::prelude::*;
use crate::bitstream::{carried, carry_out, first_code, unpack_spec, unpacked_code, unpacked_len};

verus! {

/// Whether every code fits in seven bits.
pub open spec fn seven_bit(codes: Seq<u8>) -> bool {
    forall|k: int| 0 <= k < codes.len() ==> #[trigger] codes[k] < 128
}

/// How many bytes `m` codes pack into: seven for each full group of eight
/// codes, and one for each code of a last, shorter group.
pub open spec fn packed_len(m: nat) -> nat {
    7 * (m / 8) + m % 8
}

/// The code at `k`, or zero past the end.
pub open spec fn code_or_zero(codes: Seq<u8>, k: int) -> u8 {
    if 0 <= k < codes.len() {
        codes[k]
    } else {
        0u8
    }
}

/// Byte `i` of the packed form: the bits of its own code that the byte
/// before it did not take, below the first bits of the code that follows.
pub open spec fn packed_byte(codes: Seq<u8>, i: int) -> u8 {
    let k = 8 * (i / 7) + i % 7;
    (codes[k] >> (i % 7) as u8) | (code_or_zero(codes, k + 1) << (7 - i % 7) as u8)
}

/// The packed form of `codes`.
pub open spec fn pack_spec(codes: Seq<u8>) -> Seq<u8> {
    Seq::new(packed_len(codes.len()), |i: int| packed_byte(codes, i))
}

/// A buffer of whole groups of seven bytes holds eight codes for each group.
pub proof fn lemma_whole_groups_len(data: Seq<u8>)
    requires
        data.len() % 7 == 0,
    ensures
        unpack_spec(data).len() == 8 * (data.len() / 7),
{
}

proof fn lemma_first_code_bits(v: u8, low: u8, bit: u8)
    requires
        bit < 7,
        low >> bit == 0,
    ensures
        first_code(v, low, bit) < 128,
{
    assert(bit < 7 && low >> bit == 0 ==> ((v & (0x7Fu8 >> bit)) << bit) | low < 128)
        by (bit_vector);
}

proof fn lemma_carry_bits(v: u8, bit: u8)
    requires
        bit < 7,
    ensures
        bit < 6 ==> carry_out(v, bit) >> ((bit + 1) as u8) == 0,
        carry_out(v, bit) < 128,
{
    let up: u8 = (7u8 - bit) as u8;
    let next: u8 = (bit + 1) as u8;
    assert(bit < 7 && up == 7u8 - bit && next == bit + 1u8 ==> (v >> up) < 128 && (bit < 6 ==> (v
        >> up) >> next == 0)) by (bit_vector);
}

/// Every code that the unpacker gives fits in seven bits.
pub proof fn lemma_unpacked_seven_bit(data: Seq<u8>)
    ensures
        seven_bit(unpack_spec(data)),
{
    assert forall|k: int| 0 <= k < unpack_spec(data).len() implies #[trigger] unpack_spec(
        data,
    )[k] < 128 by {
        let i = 7 * (k / 8) + k % 8;
        if k % 8 == 7 {
            lemma_carry_bits(data[i - 1], 6u8);
        } else {
            let bit = (k % 8) as u8;
            if bit == 0 {
                assert(0u8 >> 0u8 == 0) by (bit_vector);
            } else {
                lemma_carry_bits(data[i - 1], ((i - 1) % 7) as u8);
            }
            lemma_first_code_bits(data[i], carried(data, i), bit);
        }
    }
}

proof fn lemma_last_of_group(a: u8, b: u8)
    requires
        a < 128,
        b < 128,
    ensures
        carry_out((b >> 6u8) | (a << 1u8), 6u8) == a,
{
    assert(a < 128 && b < 128 ==> ((b >> 6u8) | (a << 1u8)) >> 1u8 == a) by (bit_vector);
}

proof fn lemma_rejoin(a: u8, z: u8, p: u8, j: u8)
    requires
        a < 128,
        p < 128,
        1 <= j <= 6,
    ensures
        first_code(
            (a >> j) | (z << (7 - j) as u8),
            carry_out((p >> (j - 1) as u8) | (a << (8 - j) as u8), (j - 1) as u8),
            j,
        ) == a,
{
    let up: u8 = (7 - j) as u8;
    let up1: u8 = (8 - j) as u8;
    let j1: u8 = (j - 1) as u8;
    let back: u8 = (7u8 - j1) as u8;
    assert(back == up1);
    assert(a < 128 && p < 128 && 1 <= j <= 6 && up == 7u8 - j && up1 == 8u8 - j && j1 == j - 1u8 ==> ((((a >> j)
        | (z << up)) & (0x7Fu8 >> j)) << j) | (((p >> j1) | (a << up1)) >> up1) == a)
        by (bit_vector);
}

proof fn lemma_first_of_group(a: u8, z: u8)
    requires
        a < 128,
    ensures
        first_code((a >> 0u8) | (z << 7u8), 0u8, 0u8) == a,
{
    assert(a < 128 ==> ((((a >> 0u8) | (z << 7u8)) & (0x7Fu8 >> 0u8)) << 0u8) | 0u8 == a)
        by (bit_vector);
}

/// Unpacking undoes packing: for codes of seven bits each, whose number does
/// not leave seven codes in the last group, the packed form unpacks to the
/// codes themselves.
pub proof fn lemma_unpack_pack(codes: Seq<u8>)
    requires
        seven_bit(codes),
        codes.len() % 8 != 7,
    ensures
        unpack_spec(pack_spec(codes)) == codes,
{
    let packed = pack_spec(codes);
    let m = codes.len() as int;
    assert(unpacked_len(packed.len()) == codes.len());
    assert forall|k: int| 0 <= k < m implies unpacked_code(packed, k) == codes[k] by {
        let q = k / 8;
        let j = k % 8;
        let i = 7 * q + j;
        if j == 7 {
            assert((i - 1) / 7 == q && (i - 1) % 7 == 6);
            assert(packed[i - 1] == packed_byte(codes, i - 1));
            lemma_last_of_group(codes[k], codes[k - 1]);
        } else {
            assert(i / 7 == q && i % 7 == j);
            assert(i < packed.len());
            assert(packed[i] == packed_byte(codes, i));
            let z = code_or_zero(codes, k + 1);
            if j == 0 {
                lemma_first_of_group(codes[k], z);
            } else {
                assert((i - 1) / 7 == q && (i - 1) % 7 == j - 1);
                assert(packed[i - 1] == packed_byte(codes, i - 1));
                lemma_rejoin(codes[k], z, codes[k - 1], j as u8);
            }
        }
    }
    assert(unpack_spec(packed) =~= codes);
}

} // verus!
