use vstd::prelude::*;

use crate::primitive::{be_value, read_be};

verus! {

/// The order in which a number's bytes are stored.
#[derive(Debug, Clone, Copy, PartialEq, Eq, Structural)]
pub enum ByteEncodingFormat {
    /// Most significant byte first.
    BigEndian,
    /// Least significant byte first.
    LittleEndian,
}

/// The encodings a text payload may be read in.
#[derive(Debug, Clone, Copy, PartialEq, Eq, Structural)]
pub enum StringEncoding {
    UTF8,
}

/// The little-endian number that `s` spells, least significant byte first.
pub open spec fn le_value(s: Seq<u8>) -> nat
    decreases s.len(),
{
    if s.len() == 0 {
        0
    } else {
        (le_value(s.drop_first()) * 256 + s[0]) as nat
    }
}

/// The number that up to four bytes spell in the given byte order.
pub fn number(buf: &[u8], format: ByteEncodingFormat) -> (r: u32)
    requires
        buf@.len() <= 4,
    ensures
        format == ByteEncodingFormat::BigEndian ==> r == be_value(buf@),
        format == ByteEncodingFormat::LittleEndian ==> r == le_value(buf@),
{
    assert(buf@.subrange(0, buf@.len() as int) =~= buf@);
    match format {
        ByteEncodingFormat::BigEndian => read_be(buf, 0, buf.len()),
        ByteEncodingFormat::LittleEndian => read_le(buf),
    }
}

fn read_le(buf: &[u8]) -> (r: u32)
    requires
        buf@.len() <= 4,
    ensures
        r == le_value(buf@),
{
    let mut v: u32 = 0;
    let mut i: usize = buf.len();
    while i > 0
        invariant
            i <= buf@.len() <= 4,
            v == le_value(buf@.subrange(i as int, buf@.len() as int)),
            v < crate::primitive::pow256((buf@.len() - i) as nat),
        decreases i,
    {
        let b = buf[i - 1];
        proof {
            let s = buf@.subrange(i - 1, buf@.len() as int);
            assert(s.drop_first() =~= buf@.subrange(i as int, buf@.len() as int));
            let k = (buf@.len() - i) as nat;
            assert(k < 4);
            assert(crate::primitive::pow256(k) <= 0x100_0000) by {
                reveal_with_fuel(crate::primitive::pow256, 4);
            }
            assert(crate::primitive::pow256(k + 1) == crate::primitive::pow256(k) * 256);
            assert(v * 256 + b < crate::primitive::pow256(k) * 256) by (nonlinear_arith)
                requires
                    v < crate::primitive::pow256(k),
                    b < 256,
            ;
        }
        v = v * 256 + b as u32;
        i = i - 1;
    }
    assert(buf@.subrange(0, buf@.len() as int) =~= buf@);
    v
}

/// A mask of the low bits of a byte: `0`, `1`, `3`, ... `0xFF`.
pub open spec fn low_mask(m: u8) -> bool {
    m == 0 || m == 1 || m == 3 || m == 7 || m == 15 || m == 31 || m == 63 || m == 127 || m == 255
}

/// The mask that applies to byte `i`: the only one, or the `i`th.
pub open spec fn mask_at(mask: Seq<u8>, i: int) -> u8 {
    if mask.len() == 1 {
        mask[0]
    } else {
        mask[i]
    }
}

/// The number of values the masked bits of the first `n` bytes can take.
pub open spec fn mask_span(mask: Seq<u8>, n: nat) -> nat
    decreases n,
{
    if n == 0 {
        1
    } else {
        mask_span(mask, (n - 1) as nat) * (mask_at(mask, n - 1) + 1) as nat
    }
}

/// The masked bits of the first `n` bytes side by side, in the given order.
pub open spec fn masked_value(s: Seq<u8>, mask: Seq<u8>, n: nat, format: ByteEncodingFormat) -> nat
    decreases n,
{
    if n == 0 {
        0
    } else {
        let m = mask_at(mask, n - 1);
        let low = (s[n - 1] & m) as nat;
        match format {
            ByteEncodingFormat::BigEndian => masked_value(s, mask, (n - 1) as nat, format) * (m + 1)
                as nat + low,
            ByteEncodingFormat::LittleEndian => masked_value(s, mask, (n - 1) as nat, format) + low
                * mask_span(mask, (n - 1) as nat),
        }
    }
}

proof fn lemma_span_grows(mask: Seq<u8>, i: nat, j: nat)
    requires
        i <= j,
    ensures
        1 <= mask_span(mask, i) <= mask_span(mask, j),
    decreases j,
{
    if j > 0 {
        let i2: nat = if i == j {
            (j - 1) as nat
        } else {
            i
        };
        lemma_span_grows(mask, i2, (j - 1) as nat);
        let a = mask_span(mask, (j - 1) as nat);
        let f = (mask_at(mask, j - 1) + 1) as nat;
        assert(a <= a * f) by (nonlinear_arith)
            requires
                f >= 1,
                a >= 1,
        ;
    }
}

/// The bits that low masks keep from each byte (`byte & mask`), put side by
/// side: the first byte's group most significant, or least, as `format` says.
pub fn masked_number(buf: &[u8], mask: &[u8], format: ByteEncodingFormat) -> (r: u32)
    requires
        mask@.len() == 1 || mask@.len() == buf@.len(),
        forall|i: int| 0 <= i < mask@.len() ==> low_mask(#[trigger] mask@[i]),
        mask_span(mask@, buf@.len()) <= 0x1_0000_0000,
    ensures
        r == masked_value(buf@, mask@, buf@.len(), format),
{
    let mut acc: u64 = 0;
    let mut span: u64 = 1;
    let mut i: usize = 0;
    while i < buf.len()
        invariant
            mask@.len() == 1 || mask@.len() == buf@.len(),
            forall|j: int| 0 <= j < mask@.len() ==> low_mask(#[trigger] mask@[j]),
            mask_span(mask@, buf@.len()) <= 0x1_0000_0000,
            i <= buf@.len(),
            span == mask_span(mask@, i as nat),
            acc == masked_value(buf@, mask@, i as nat, format),
            acc < span,
        decreases buf@.len() - i,
    {
        let m = if mask.len() == 1 {
            mask[0]
        } else {
            mask[i]
        };
        let width = m as u64 + 1;
        let b = buf[i];
        let low = (b & m) as u64;
        proof {
            assert(b & m <= m) by (bit_vector);
            lemma_span_grows(mask@, (i + 1) as nat, buf@.len());
            assert(mask_at(mask@, i as int) == m);
            assert(span * width == mask_span(mask@, (i + 1) as nat));
            assert(acc * width + low < span * width) by (nonlinear_arith)
                requires
                    acc < span,
                    low < width,
            ;
            assert(acc + low * span < span * width) by (nonlinear_arith)
                requires
                    acc < span,
                    low < width,
                    low + 1 <= width,
            ;
        }
        acc = match format {
            ByteEncodingFormat::BigEndian => acc * width + low,
            ByteEncodingFormat::LittleEndian => acc + low * span,
        };
        span = span * width;
        i = i + 1;
    }
    acc as u32
}

/// Each byte of `buf` with the bits of `mask` kept: one mask byte for all,
/// or one per byte.
pub fn masked(buf: &[u8], mask: &[u8]) -> (r: Vec<u8>)
    requires
        mask@.len() == 1 || mask@.len() == buf@.len(),
    ensures
        r@.len() == buf@.len(),
        forall|i: int|
            0 <= i < buf@.len() ==> #[trigger] r@[i] == buf@[i] & (if mask@.len() == 1 {
                mask@[0]
            } else {
                mask@[i]
            }),
{
    let mut out: Vec<u8> = Vec::new();
    let mut i: usize = 0;
    while i < buf.len()
        invariant
            mask@.len() == 1 || mask@.len() == buf@.len(),
            i <= buf@.len(),
            out@.len() == i,
            forall|j: int|
                0 <= j < i ==> #[trigger] out@[j] == buf@[j] & (if mask@.len() == 1 {
                    mask@[0]
                } else {
                    mask@[j]
                }),
        decreases buf@.len() - i,
    {
        let m = if mask.len() == 1 {
            mask[0]
        } else {
            mask[i]
        };
        out.push(buf[i] & m);
        i = i + 1;
    }
    out
}

} // verus!
