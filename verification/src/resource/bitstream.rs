//! A bit reader over a byte source, most significant bit first, for the
//! gamma-coded streams of the LZSS format.

use vstd::prelude::*;

verus! {

/// The `n` highest bits of `b`, most significant first.
pub open spec fn top_bits(b: u8, n: nat) -> Seq<bool> {
    Seq::new(n, |i: int| (b >> ((7 - i) as u8)) & 1 == 1)
}

/// The bits of `bits` shifted one by one into a byte from the right; only
/// the last eight survive.
pub open spec fn bits_byte(bits: Seq<bool>) -> u8
    decreases bits.len(),
{
    if bits.len() == 0 {
        0
    } else {
        ((bits_byte(bits.drop_last()) * 2 + if bits.last() {
            1int
        } else {
            0int
        }) % 256) as u8
    }
}

/// What the reader holds: the current byte, shifted so that its next bit
/// is the highest, and how many of its bits are still unread.
pub struct BitReaderView {
    pub byte: u8,
    pub remaining: int,
}

/// A bit reader: each byte taken from the source gives its seven highest
/// bits, most significant first.
pub struct BitstreamReader {
    current_byte: u8,
    bits_remaining: i8,
}

impl View for BitstreamReader {
    type V = BitReaderView;

    closed spec fn view(&self) -> BitReaderView {
        BitReaderView { byte: self.current_byte, remaining: self.bits_remaining as int }
    }
}

impl BitstreamReader {
    /// At most six bits of the current byte are unread.
    pub closed spec fn wf(&self) -> bool {
        0 <= self.bits_remaining <= 6
    }

    /// A reader with no byte taken yet.
    pub fn new() -> (r: Self)
        ensures
            r.wf(),
            r@ == (BitReaderView { byte: 0, remaining: 0 }),
    {
        BitstreamReader { current_byte: 0, bits_remaining: 0 }
    }

    /// The next bit: the highest of the current byte, or, when none is
    /// left, of a byte taken from `byte_source`; `None`, with the reader
    /// unchanged, when the source has no byte.
    pub fn read_bit<F>(&mut self, mut byte_source: F) -> (r: Option<bool>) where
        F: FnMut() -> Option<u8>,

        requires
            old(self).wf(),
            old(self)@.remaining == 0 ==> call_requires(byte_source, ()),
        ensures
            final(self).wf(),
            old(self)@.remaining > 0 ==> {
                &&& r == Some(old(self)@.byte & 0x80 != 0)
                &&& final(self)@ == (BitReaderView {
                    byte: (old(self)@.byte << 1u8) as u8,
                    remaining: old(self)@.remaining - 1,
                })
            },
            old(self)@.remaining == 0 ==> exists|b: Option<u8>|
                #![trigger call_ensures(byte_source, (), b)]
                call_ensures(byte_source, (), b) && match b {
                    None => r is None && final(self)@ == old(self)@,
                    Some(x) => r == Some(x & 0x80 != 0) && final(self)@ == (BitReaderView {
                        byte: (x << 1u8) as u8,
                        remaining: 6,
                    }),
                },
    {
        if self.bits_remaining <= 0 {
            let got = byte_source();
            match got {
                Some(b) => {
                    self.current_byte = b;
                    self.bits_remaining = 7;
                },
                None => {
                    return None;
                },
            }
        }
        let bit = (self.current_byte & 0x80) != 0;
        self.current_byte = self.current_byte << 1;
        self.bits_remaining = self.bits_remaining - 1;
        Some(bit)
    }

    /// Reads `count` bits and shifts them into a byte from the right (only
    /// the last eight survive). The bits still unread in the current byte
    /// come first; `None` when the source runs out.
    pub fn read_bits<F>(&mut self, count: u8, byte_source: &mut F) -> (r: Option<u8>) where
        F: FnMut() -> Option<u8>,

        requires
            old(self).wf(),
            forall|f: F| call_requires(f, ()),
        ensures
            final(self).wf(),
            count <= old(self)@.remaining ==> {
                &&& r == Some(bits_byte(top_bits(old(self)@.byte, count as nat)))
                &&& final(self)@ == (BitReaderView {
                    byte: (old(self)@.byte << count) as u8,
                    remaining: old(self)@.remaining - count,
                })
            },
            r is None ==> count > old(self)@.remaining,
            r matches Some(v) ==> exists|bits: Seq<bool>|
                #![trigger bits_byte(bits)]
                {
                    let k = if count <= old(self)@.remaining {
                        count as nat
                    } else {
                        old(self)@.remaining as nat
                    };
                    &&& bits.len() == count
                    &&& bits.take(k as int) == top_bits(old(self)@.byte, k)
                    &&& v == bits_byte(bits)
                },
    {
        let ghost b0 = self@.byte;
        let ghost r0 = self@.remaining;
        let ghost mut bits: Seq<bool> = Seq::empty();
        let mut value: u8 = 0;
        let mut i: u8 = 0;
        assert(b0 << 0u8 == b0) by (bit_vector);
        assert(bits =~= top_bits(b0, 0));
        while i < count
            invariant
                self.wf(),
                forall|f: F| call_requires(f, ()),
                i <= count,
                bits.len() == i,
                value == bits_byte(bits),
                b0 == old(self)@.byte,
                r0 == old(self)@.remaining,
                0 <= r0 <= 6,
                i <= r0 ==> {
                    &&& bits == top_bits(b0, i as nat)
                    &&& self@ == (BitReaderView { byte: (b0 << i) as u8, remaining: r0 - i })
                },
                i > r0 ==> bits.take(r0) == top_bits(b0, r0 as nat),
            decreases count - i,
        {
            let ghost before = self@;
            let bit = match self.read_bit(&mut *byte_source) {
                Some(b) => b,
                None => {
                    return None;
                },
            };
            proof {
                let nb = bits.push(bit);
                assert(nb.drop_last() =~= bits);
                if i < r0 {
                    let ii = i;
                    assert(((b0 << ii) as u8) & 0x80 != 0 <==> (b0 >> ((7 - ii) as u8)) & 1 == 1)
                        by (bit_vector)
                        requires
                            ii < 7,
                    ;
                    assert((((b0 << ii) as u8) << 1u8) as u8 == (b0 << ((ii + 1) as u8)) as u8)
                        by (bit_vector)
                        requires
                            ii < 7,
                    ;
                    assert(nb =~= top_bits(b0, (i + 1) as nat));
                } else {
                    assert(nb.take(r0) =~= bits.take(r0));
                }
                bits = nb;
            }
            let v = value;
            let d: u8 = if bit {
                1
            } else {
                0
            };
            assert(((v << 1u8) as u8 | d) == ((v * 2 + d) % 256) as u8) by (bit_vector)
                requires
                    d <= 1,
            ;
            value = (value << 1) | d;
            i = i + 1;
        }
        proof {
            if count <= r0 {
                assert(bits.take(count as int) =~= bits);
            }
        }
        Some(value)
    }

}

} // verus!
