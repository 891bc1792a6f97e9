use vstd::prelude::*;

use crate::error::MidiParseErrorKind;

verus! {

/// The number of bytes of the variable-length quantity at the start of `s`,
/// looking from byte `i` on: it ends at the first byte whose top bit is clear,
/// and it may not run past the fourth byte nor past the end of `s`.
pub open spec fn vlq_end(s: Seq<u8>, i: nat) -> Option<nat>
    decreases 4 - i,
{
    if i >= 4 || i >= s.len() {
        None
    } else if s[i as int] < 0x80 {
        Some(i + 1)
    } else {
        vlq_end(s, i + 1)
    }
}

/// The low seven bits of the first `n` bytes of `s`, most significant group first.
pub open spec fn vlq_value(s: Seq<u8>, n: nat) -> nat
    decreases n,
{
    if n == 0 {
        0
    } else {
        vlq_value(s, (n - 1) as nat) * 128 + (s[n - 1] % 128) as nat
    }
}

/// The variable-length quantity at the start of `s`: its value and the number
/// of bytes it takes; `None` where no byte among the first four ends it.
pub open spec fn vlq_decode(s: Seq<u8>) -> Option<(nat, nat)> {
    match vlq_end(s, 0) {
        Some(n) => Some((vlq_value(s, n), n)),
        None => None,
    }
}

/// The fewest bytes that hold `v` seven bits at a time.
pub open spec fn vlq_size(v: nat) -> nat {
    if v < 0x80 {
        1
    } else if v < 0x4000 {
        2
    } else if v < 0x20_0000 {
        3
    } else {
        4
    }
}

/// The shortest encoding of `v` (below 2^28): seven-bit groups, most
/// significant first, each byte but the last with its top bit set.
pub open spec fn vlq_encode(v: nat) -> Seq<u8> {
    if v < 0x80 {
        seq![v as u8]
    } else if v < 0x4000 {
        seq![(0x80 + v / 0x80) as u8, (v % 0x80) as u8]
    } else if v < 0x20_0000 {
        seq![(0x80 + v / 0x4000) as u8, (0x80 + v / 0x80 % 0x80) as u8, (v % 0x80) as u8]
    } else {
        seq![
            (0x80 + v / 0x20_0000) as u8,
            (0x80 + v / 0x4000 % 0x80) as u8,
            (0x80 + v / 0x80 % 0x80) as u8,
            (v % 0x80) as u8,
        ]
    }
}

pub open spec fn pow128(n: nat) -> nat
    decreases n,
{
    if n == 0 {
        1
    } else {
        pow128((n - 1) as nat) * 128
    }
}

/// A variable-length number as read from a file: its value and how many bytes it took.
#[derive(Debug, Clone, Copy, PartialEq, Eq, Hash)]
pub struct MXByte {
    value: u32,
    len: usize,
}

impl View for MXByte {
    type V = (nat, nat);

    closed spec fn view(&self) -> (nat, nat) {
        (self.value as nat, self.len as nat)
    }
}

impl MXByte {
    #[verifier::type_invariant]
    spec fn fits(self) -> bool {
        1 <= self.len <= 4 && self.value < pow128(self.len as nat)
    }

    /// The value, with the length of its shortest encoding.
    pub fn from_value(v: u32) -> (r: MXByte)
        requires
            v < 0x1000_0000,
        ensures
            r@ == (v as nat, vlq_size(v as nat)),
    {
        reveal_with_fuel(pow128, 5);
        let len: usize = if v < 0x80 {
            1
        } else if v < 0x4000 {
            2
        } else if v < 0x20_0000 {
            3
        } else {
            4
        };
        MXByte { value: v, len }
    }

    pub fn value(&self) -> (r: u32)
        ensures
            r == self@.0,
            r < 0x1000_0000,
    {
        proof {
            use_type_invariant(self);
            reveal_with_fuel(pow128, 5);
        }
        self.value
    }

    /// The number of bytes the value took.
    pub fn len(&self) -> (r: usize)
        ensures
            r == self@.1,
            1 <= r <= 4,
    {
        proof {
            use_type_invariant(self);
        }
        self.len
    }
}

/// Reads the variable-length quantity at the start of `buf`.
pub fn from_var_len(buf: &[u8]) -> (r: Result<MXByte, MidiParseErrorKind>)
    ensures
        match vlq_decode(buf@) {
            Some((v, n)) => r == Ok::<MXByte, MidiParseErrorKind>(r->Ok_0) && r->Ok_0@ == (v, n),
            None => r == Err::<MXByte, MidiParseErrorKind>(MidiParseErrorKind::EndOfBuffer),
        },
{
    assert(buf@.subrange(0, buf@.len() as int) =~= buf@);
    read_var_len(buf, 0, buf.len())
}

/// Reads the variable-length quantity that starts at `pos`, looking no further than `end`.
pub fn read_var_len(buf: &[u8], pos: usize, end: usize) -> (r: Result<MXByte, MidiParseErrorKind>)
    requires
        pos <= end <= buf@.len(),
    ensures
        match vlq_decode(buf@.subrange(pos as int, end as int)) {
            Some((v, n)) => r == Ok::<MXByte, MidiParseErrorKind>(r->Ok_0) && r->Ok_0@ == (v, n),
            None => r == Err::<MXByte, MidiParseErrorKind>(MidiParseErrorKind::EndOfBuffer),
        },
{
    let ghost w = buf@.subrange(pos as int, end as int);
    let avail = end - pos;
    let mut v: u32 = 0;
    let mut i: usize = 0;
    while i < 4 && i < avail
        invariant
            pos <= end <= buf@.len(),
            avail == end - pos,
            w == buf@.subrange(pos as int, end as int),
            i <= 4,
            vlq_end(w, 0) == vlq_end(w, i as nat),
            v == vlq_value(w, i as nat),
            v < pow128(i as nat),
        decreases 4 - i,
    {
        let b = buf[pos + i];
        assert(b == w[i as int]);
        proof {
            reveal_with_fuel(pow128, 5);
            assert(v * 128 + b % 128 < pow128(i as nat) * 128) by (nonlinear_arith)
                requires
                    v < pow128(i as nat),
                    b % 128 < 128,
            ;
        }
        v = v * 128 + (b % 128) as u32;
        i = i + 1;
        if b < 0x80 {
            return Ok(MXByte { value: v, len: i });
        }
    }
    Err(MidiParseErrorKind::EndOfBuffer)
}

/// Writes `v` in its shortest variable-length encoding.
pub fn encode_var_len(v: u32) -> (r: Vec<u8>)
    requires
        v < 0x1000_0000,
    ensures
        r@ == vlq_encode(v as nat),
        r@.len() == vlq_size(v as nat),
{
    let r = if v < 0x80 {
        vec![v as u8]
    } else if v < 0x4000 {
        vec![(0x80 + v / 0x80) as u8, (v % 0x80) as u8]
    } else if v < 0x20_0000 {
        vec![(0x80 + v / 0x4000) as u8, (0x80 + v / 0x80 % 0x80) as u8, (v % 0x80) as u8]
    } else {
        vec![
            (0x80 + v / 0x20_0000) as u8,
            (0x80 + v / 0x4000 % 0x80) as u8,
            (0x80 + v / 0x80 % 0x80) as u8,
            (v % 0x80) as u8,
        ]
    };
    assert(r@ =~= vlq_encode(v as nat));
    r
}

/// Decoding the shortest encoding of a number below 2^28 gives the number
/// back, together with the count of bytes written.
pub proof fn lemma_vlq_round_trip(v: nat)
    requires
        v < 0x1000_0000,
    ensures
        vlq_decode(vlq_encode(v)) == Some((v, vlq_size(v))),
        vlq_encode(v).len() == vlq_size(v),
{
    let s = vlq_encode(v);
    reveal_with_fuel(vlq_end, 5);
    reveal_with_fuel(vlq_value, 5);
    if v < 0x80 {
        assert(vlq_value(s, 1) == v);
    } else if v < 0x4000 {
        assert(vlq_value(s, 2) == v);
    } else if v < 0x20_0000 {
        assert(vlq_value(s, 3) == v);
    } else {
        assert(vlq_value(s, 4) == v);
    }
}

} // verus!

verus! {

/// A quantity that is found ends within the bytes looked at.
pub proof fn lemma_vlq_end_within(s: Seq<u8>)
    ensures
        vlq_decode(s) is Some ==> 1 <= vlq_decode(s)->Some_0.1 <= s.len(),
        vlq_decode(s) is Some ==> vlq_decode(s)->Some_0.1 <= 4,
{
    reveal_with_fuel(vlq_end, 5);
}

} // verus!

verus! {

/// A quantity read in the fewest bytes its value needs is exactly the
/// encoding of that value.
pub proof fn lemma_vlq_canonical(s: Seq<u8>)
    requires
        vlq_decode(s) is Some,
        vlq_decode(s)->Some_0.1 == vlq_size(vlq_decode(s)->Some_0.0),
    ensures
        vlq_encode(vlq_decode(s)->Some_0.0) == s.subrange(0, vlq_decode(s)->Some_0.1 as int),
{
    reveal_with_fuel(vlq_end, 5);
    reveal_with_fuel(vlq_value, 5);
    let (v, n) = vlq_decode(s)->Some_0;
    let e = vlq_encode(v);
    if n == 1 {
        assert(e =~= s.subrange(0, 1));
    } else if n == 2 {
        let a = (s[0] % 128) as nat;
        assert(v == a * 128 + s[1]);
        assert(v / 0x80 == a);
        assert(v % 0x80 == s[1]);
        assert(e =~= s.subrange(0, 2));
    } else if n == 3 {
        let a = (s[0] % 128) as nat;
        let b = (s[1] % 128) as nat;
        assert(v == (a * 128 + b) * 128 + s[2]);
        assert(v / 0x4000 == a);
        assert(v / 0x80 == a * 128 + b);
        assert(v / 0x80 % 0x80 == b);
        assert(v % 0x80 == s[2]);
        assert(e =~= s.subrange(0, 3));
    } else {
        let a = (s[0] % 128) as nat;
        let b = (s[1] % 128) as nat;
        let c = (s[2] % 128) as nat;
        assert(v == ((a * 128 + b) * 128 + c) * 128 + s[3]);
        assert(v / 0x20_0000 == a);
        assert(v / 0x4000 == a * 128 + b);
        assert(v / 0x4000 % 0x80 == b);
        assert(v / 0x80 == (a * 128 + b) * 128 + c);
        assert(v / 0x80 % 0x80 == c);
        assert(v % 0x80 == s[3]);
        assert(e =~= s.subrange(0, 4));
    }
}

} // verus!
