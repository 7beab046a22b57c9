//! The 7-bit unpacker: seven packed bytes carry eight character codes.

use vstd::prelude::*;
use crate::packing::{lemma_unpacked_seven_bit, seven_bit};

verus! {

/// The code that packed byte `v` completes, given the bits `low` left over
/// from the byte before it and the position `bit` of `v` in its group of seven.
pub open spec fn first_code(v: u8, low: u8, bit: u8) -> u8 {
    ((v & (0x7Fu8 >> bit)) << bit) | low
}

/// The high bits of packed byte `v` at position `bit` that belong to the next code.
pub open spec fn carry_out(v: u8, bit: u8) -> u8 {
    v >> (7u8 - bit) as u8
}

/// How many codes `n` packed bytes hold: eight for each full group of seven
/// bytes, and one for each byte of a last, shorter group.
pub open spec fn unpacked_len(n: nat) -> nat {
    8 * (n / 7) + n % 7
}

/// The bits carried into packed byte `i` from the byte before it.
pub open spec fn carried(data: Seq<u8>, i: int) -> u8 {
    if i % 7 == 0 {
        0u8
    } else {
        carry_out(data[i - 1], ((i - 1) % 7) as u8)
    }
}

/// The `k`-th code held in `data`. Within a group the first seven codes each
/// end in a byte of their own; the eighth is what the seventh byte has left.
pub open spec fn unpacked_code(data: Seq<u8>, k: int) -> u8 {
    let i = 7 * (k / 8) + k % 8;
    if k % 8 == 7 {
        carry_out(data[i - 1], 6u8)
    } else {
        first_code(data[i], carried(data, i), (k % 8) as u8)
    }
}

/// The codes held in `data`, in order.
pub open spec fn unpack_spec(data: Seq<u8>) -> Seq<u8> {
    Seq::new(unpacked_len(data.len()), |k: int| unpacked_code(data, k))
}

/// What the unpacker remembers between two bytes.
pub struct Carry {
    pub low: u8,
    pub bit: u8,
}

/// The state the unpacker is in after it has consumed all of `data`.
pub open spec fn carry_after(data: Seq<u8>) -> Carry {
    Carry { low: carried(data, data.len() as int), bit: (data.len() % 7) as u8 }
}

/// The codes that byte `v` releases when it arrives in state `c`.
pub open spec fn emitted(c: Carry, v: u8) -> Seq<u8> {
    if c.bit == 6 {
        seq![first_code(v, c.low, c.bit), carry_out(v, c.bit)]
    } else {
        seq![first_code(v, c.low, c.bit)]
    }
}

/// The state that follows state `c` once byte `v` has been consumed.
pub open spec fn advance(c: Carry, v: u8) -> Carry {
    if c.bit == 6 {
        Carry { low: 0, bit: 0 }
    } else {
        Carry { low: carry_out(v, c.bit), bit: (c.bit + 1) as u8 }
    }
}

/// Streaming form of the unpacker: feed it the packed bytes one by one.
pub struct BitstreamUnpacker {
    low: u8,
    bit: u8,
}

impl View for BitstreamUnpacker {
    type V = Carry;

    closed spec fn view(&self) -> Carry {
        Carry { low: self.low, bit: self.bit }
    }
}

impl BitstreamUnpacker {
    /// The shift count stays inside one group of seven bytes.
    pub open spec fn wf(&self) -> bool {
        self@.bit < 7
    }

    /// An unpacker that has seen no byte yet.
    pub fn new() -> (u: Self)
        ensures
            u.wf(),
            u@ == carry_after(Seq::<u8>::empty()),
    {
        BitstreamUnpacker { low: 0, bit: 0 }
    }

    /// Consumes one packed byte and returns the code it completes, and the
    /// second code that every seventh byte releases.
    pub fn feed(&mut self, v: u8) -> (r: (u8, Option<u8>))
        requires
            old(self).wf(),
        ensures
            final(self).wf(),
            final(self)@ == advance(old(self)@, v),
            r.0 == first_code(v, old(self)@.low, old(self)@.bit),
            r.1 == (if old(self)@.bit == 6 {
                Some(carry_out(v, 6u8))
            } else {
                None
            }),
    {
        let code: u8 = ((v & (0x7Fu8 >> self.bit)) << self.bit) | self.low;
        let high: u8 = v >> (7u8 - self.bit);
        if self.bit == 6 {
            self.low = 0;
            self.bit = 0;
            (code, Some(high))
        } else {
            self.low = high;
            self.bit = self.bit + 1;
            (code, None)
        }
    }
}

/// Feeding one more byte appends what that byte releases, and leaves the
/// unpacker in the state that the longer buffer determines.
pub proof fn lemma_unpack_push(data: Seq<u8>, v: u8)
    ensures
        unpack_spec(data.push(v)) == unpack_spec(data) + emitted(carry_after(data), v),
        carry_after(data.push(v)) == advance(carry_after(data), v),
{
    let longer = data.push(v);
    let n = data.len() as int;
    let grown = unpack_spec(data) + emitted(carry_after(data), v);
    assert(unpack_spec(longer).len() == grown.len());
    assert forall|k: int| 0 <= k < grown.len() implies unpack_spec(longer)[k] == grown[k] by {
        let i = 7 * (k / 8) + k % 8;
        if k < unpacked_len(data.len()) {
            assert(i - 1 < n);
            if k % 8 != 7 {
                assert(i < n);
            }
        } else {
            assert(longer[n] == v);
        }
    }
    assert(unpack_spec(longer) =~= grown);
}

/// Unpacks a whole buffer. Every code that comes out fits in seven bits.
pub fn unpack(data: &[u8]) -> (codes: Vec<u8>)
    ensures
        codes@ == unpack_spec(data@),
        codes@.len() == unpacked_len(data@.len()),
        data@.len() % 7 == 0 ==> codes@.len() == 8 * (data@.len() / 7),
        seven_bit(codes@),
{
    let mut unpacker = BitstreamUnpacker::new();
    let mut codes: Vec<u8> = Vec::new();
    let mut i: usize = 0;
    assert(codes@ =~= unpack_spec(data@.take(0)));
    while i < data.len()
        invariant
            i <= data.len(),
            unpacker.wf(),
            unpacker@ == carry_after(data@.take(i as int)),
            codes@ == unpack_spec(data@.take(i as int)),
        decreases data.len() - i,
    {
        proof {
            lemma_unpack_push(data@.take(i as int), data@[i as int]);
            assert(data@.take(i as int).push(data@[i as int]) =~= data@.take(i + 1));
        }
        let (code, extra) = unpacker.feed(data[i]);
        codes.push(code);
        if let Some(last) = extra {
            codes.push(last);
        }
        assert(codes@ =~= unpack_spec(data@.take(i + 1)));
        i += 1;
    }
    proof {
        assert(data@.take(i as int) =~= data@);
        lemma_unpacked_seven_bit(data@);
    }
    codes
}

} // verus!
