use vstd::prelude::*;

verus! {

/// A 1-bit field (a flag) held in a 32-bit word.
///
/// The word never holds a bit above the field's width.
#[derive(Debug, Clone, Copy, PartialEq, Eq, Hash)]
pub struct M1Bit(u32);

impl View for M1Bit {
    type V = u32;

    closed spec fn view(&self) -> u32 {
        self.0
    }
}

impl M1Bit {
    #[verifier::type_invariant]
    spec fn fits(self) -> bool {
        self.0 < 0x2
    }

    /// Keeps the lowest bit of `raw`.
    pub fn new(raw: u32) -> (r: M1Bit)
        ensures
            r@ == raw % 0x2,
    {
        M1Bit(raw % 0x2)
    }

    pub fn value(&self) -> (r: u32)
        ensures
            r == self@,
            r < 0x2,
    {
        proof {
            use_type_invariant(self);
        }
        self.0
    }
}

/// A 4-bit field (a MIDI channel) held in a 32-bit word.
///
/// The word never holds a bit above the field's width.
#[derive(Debug, Clone, Copy, PartialEq, Eq, Hash, Structural)]
pub struct M4Bits(u32);

impl View for M4Bits {
    type V = u32;

    closed spec fn view(&self) -> u32 {
        self.0
    }
}

impl M4Bits {
    #[verifier::type_invariant]
    spec fn fits(self) -> bool {
        self.0 < 0x10
    }

    /// The word that keeps the low bits of `raw`.
    pub closed spec fn spec_new(raw: int) -> M4Bits {
        M4Bits((raw % 0x10) as u32)
    }

    pub proof fn lemma_spec_new(raw: int)
        ensures
            M4Bits::spec_new(raw)@ == raw % 0x10,
    {
    }

    /// Keeps the low four bits of `raw`.
    pub fn new(raw: u32) -> (r: M4Bits)
        ensures
            r@ == raw % 0x10,
            r == M4Bits::spec_new(raw as int),
    {
        M4Bits(raw % 0x10)
    }

    pub fn value(&self) -> (r: u32)
        ensures
            r == self@,
            r < 0x10,
    {
        proof {
            use_type_invariant(self);
        }
        self.0
    }
}

/// A 7-bit field (a MIDI data byte) held in a 32-bit word.
///
/// The word never holds a bit above the field's width.
#[derive(Debug, Clone, Copy, PartialEq, Eq, Hash, Structural)]
pub struct M7Bits(u32);

impl View for M7Bits {
    type V = u32;

    closed spec fn view(&self) -> u32 {
        self.0
    }
}

impl M7Bits {
    #[verifier::type_invariant]
    spec fn fits(self) -> bool {
        self.0 < 0x80
    }

    /// The word that keeps the low bits of `raw`.
    pub closed spec fn spec_new(raw: int) -> M7Bits {
        M7Bits((raw % 0x80) as u32)
    }

    pub proof fn lemma_spec_new(raw: int)
        ensures
            M7Bits::spec_new(raw)@ == raw % 0x80,
    {
    }

    /// Keeps the low seven bits of `raw`.
    pub fn new(raw: u32) -> (r: M7Bits)
        ensures
            r@ == raw % 0x80,
            r == M7Bits::spec_new(raw as int),
    {
        M7Bits(raw % 0x80)
    }

    pub fn value(&self) -> (r: u32)
        ensures
            r == self@,
            r < 0x80,
    {
        proof {
            use_type_invariant(self);
        }
        self.0
    }
}

/// An 8-bit field held in a 32-bit word.
///
/// The word never holds a bit above the field's width.
#[derive(Debug, Clone, Copy, PartialEq, Eq, Hash)]
pub struct M1Byte(u32);

impl View for M1Byte {
    type V = u32;

    closed spec fn view(&self) -> u32 {
        self.0
    }
}

impl M1Byte {
    #[verifier::type_invariant]
    spec fn fits(self) -> bool {
        self.0 < 0x100
    }

    /// Keeps the low eight bits of `raw`.
    pub fn new(raw: u32) -> (r: M1Byte)
        ensures
            r@ == raw % 0x100,
    {
        M1Byte(raw % 0x100)
    }

    pub fn value(&self) -> (r: u32)
        ensures
            r == self@,
            r < 0x100,
    {
        proof {
            use_type_invariant(self);
        }
        self.0
    }
}

/// A 16-bit field held in a 32-bit word.
///
/// The word never holds a bit above the field's width.
#[derive(Debug, Clone, Copy, PartialEq, Eq, Hash)]
pub struct M2Byte(u32);

impl View for M2Byte {
    type V = u32;

    closed spec fn view(&self) -> u32 {
        self.0
    }
}

impl M2Byte {
    #[verifier::type_invariant]
    spec fn fits(self) -> bool {
        self.0 < 0x1_0000
    }

    /// Keeps the low sixteen bits of `raw`.
    pub fn new(raw: u32) -> (r: M2Byte)
        ensures
            r@ == raw % 0x1_0000,
    {
        M2Byte(raw % 0x1_0000)
    }

    pub fn value(&self) -> (r: u32)
        ensures
            r == self@,
            r < 0x1_0000,
    {
        proof {
            use_type_invariant(self);
        }
        self.0
    }
}

/// A 24-bit field (a tempo) held in a 32-bit word.
///
/// The word never holds a bit above the field's width.
#[derive(Debug, Clone, Copy, PartialEq, Eq, Hash)]
pub struct M3Byte(u32);

impl View for M3Byte {
    type V = u32;

    closed spec fn view(&self) -> u32 {
        self.0
    }
}

impl M3Byte {
    #[verifier::type_invariant]
    spec fn fits(self) -> bool {
        self.0 < 0x100_0000
    }

    /// Keeps the low twenty-four bits of `raw`.
    pub fn new(raw: u32) -> (r: M3Byte)
        ensures
            r@ == raw % 0x100_0000,
    {
        M3Byte(raw % 0x100_0000)
    }

    pub fn value(&self) -> (r: u32)
        ensures
            r == self@,
            r < 0x100_0000,
    {
        proof {
            use_type_invariant(self);
        }
        self.0
    }
}
/// A full 32-bit field.
#[derive(Debug, Clone, Copy, PartialEq, Eq, Hash)]
pub struct M4Byte(u32);

impl View for M4Byte {
    type V = u32;

    closed spec fn view(&self) -> u32 {
        self.0
    }
}

impl M4Byte {
    pub fn new(raw: u32) -> (r: M4Byte)
        ensures
            r@ == raw,
    {
        M4Byte(raw)
    }

    pub fn value(&self) -> (r: u32)
        ensures
            r == self@,
    {
        self.0
    }
}

/// The big-endian number that `s` spells, most significant byte first.
pub open spec fn be_value(s: Seq<u8>) -> nat
    decreases s.len(),
{
    if s.len() == 0 {
        0
    } else {
        (be_value(s.drop_last()) * 256 + s.last()) as nat
    }
}

/// Reads the big-endian number in `buf[start..start + n]`.
pub fn read_be(buf: &[u8], start: usize, n: usize) -> (r: u32)
    requires
        n <= 4,
        start + n <= buf@.len(),
    ensures
        r == be_value(buf@.subrange(start as int, start + n)),
{
    let len = buf.len();
    let mut v: u32 = 0;
    let mut i: usize = 0;
    while i < n
        invariant
            len == buf@.len(),
            n <= 4,
            i <= n,
            start + n <= buf@.len(),
            v == be_value(buf@.subrange(start as int, start + i)),
            v < pow256(i as nat),
        decreases n - i,
    {
        let b = buf[start + i];
        proof {
            let s = buf@.subrange(start as int, start + i + 1);
            assert(s.drop_last() =~= buf@.subrange(start as int, start + i));
            assert(pow256((i + 1) as nat) == pow256(i as nat) * 256);
            assert(i < 4);
            assert(pow256(i as nat) <= 0x100_0000) by {
                reveal_with_fuel(pow256, 4);
            }
            assert(v * 256 + b < pow256(i as nat) * 256) by (nonlinear_arith)
                requires
                    v < pow256(i as nat),
                    b < 256,
            ;
        }
        v = v * 256 + b as u32;
        i = i + 1;
    }
    v
}

pub open spec fn pow256(n: nat) -> nat
    decreases n,
{
    if n == 0 {
        1
    } else {
        pow256((n - 1) as nat) * 256
    }
}

impl M2Byte {
    /// The big-endian 16-bit number in the first two bytes of `buf`.
    pub fn from_be_slice(buf: &[u8]) -> (r: M2Byte)
        requires
            buf@.len() >= 2,
        ensures
            r@ == buf@[0] * 256 + buf@[1],
    {
        M2Byte::new(buf[0] as u32 * 256 + buf[1] as u32)
    }
}

impl M3Byte {
    /// The big-endian 24-bit number in the first three bytes of `buf`.
    pub fn from_be_slice(buf: &[u8]) -> (r: M3Byte)
        requires
            buf@.len() >= 3,
        ensures
            r@ == (buf@[0] * 256 + buf@[1]) * 256 + buf@[2],
    {
        M3Byte::new((buf[0] as u32 * 256 + buf[1] as u32) * 256 + buf[2] as u32)
    }
}

impl M4Byte {
    /// The big-endian 32-bit number in the first four bytes of `buf`.
    pub fn from_be_slice(buf: &[u8]) -> (r: M4Byte)
        requires
            buf@.len() >= 4,
        ensures
            r@ == ((buf@[0] * 256 + buf@[1]) * 256 + buf@[2]) * 256 + buf@[3],
    {
        M4Byte::new(((buf[0] as u32 * 256 + buf[1] as u32) * 256 + buf[2] as u32) * 256 + buf[3] as u32)
    }
}

} // verus!

verus! {

/// A word together with the position of its highest set bit; the word `0`
/// is counted as one bit wide.
#[derive(Debug, Clone, Copy, PartialEq, Eq, Hash)]
pub struct MNBits(pub u32, pub u32);

/// The position of the highest set bit of a positive `v`.
pub open spec fn floor_log2(v: nat) -> nat
    decreases v,
{
    if v <= 1 {
        0
    } else {
        floor_log2(v / 2) + 1
    }
}

pub open spec fn pow2(k: nat) -> nat
    decreases k,
{
    if k == 0 {
        1
    } else {
        2 * pow2((k - 1) as nat)
    }
}

impl MNBits {
    pub fn from_word(word: u32) -> (r: MNBits)
        ensures
            r.0 == word,
            word == 0 ==> r.1 == 1,
            word > 0 ==> r.1 == floor_log2(word as nat),
    {
        if word == 0 {
            return MNBits(0, 1);
        }
        let mut v: u32 = word;
        let mut bits: u32 = 0;
        proof {
            reveal_with_fuel(pow2, 33);
            assert(pow2(32) == 0x1_0000_0000);
        }
        while v > 1
            invariant
                v >= 1,
                bits <= 32,
                v < pow2((32 - bits) as nat),
                bits + floor_log2(v as nat) == floor_log2(word as nat),
            decreases v,
        {
            let ghost k = (32 - bits) as nat;
            proof {
                if k == 0 {
                    assert(pow2(0) == 1);
                } else if k == 1 {
                    assert(pow2(1) == 2 * pow2(0));
                }
                assert(k >= 2);
                assert(pow2(k) == 2 * pow2((k - 1) as nat));
            }
            v = v / 2;
            bits = bits + 1;
        }
        MNBits(word, bits)
    }

    pub fn word(&self) -> (r: u32)
        ensures
            r == self.0,
    {
        self.0
    }
}

} // verus!
