use vstd::prelude::*;

use crate::error::MidiParseErrorKind;
use crate::meta_message::{byte_of_signed, signed_of};
use crate::parser_state::{MidiParseError, ParserState};
use crate::primitive::{be_value, read_be};

verus! {

/// How the tracks of a file relate.
#[derive(Debug, Clone, Copy, PartialEq, Eq, Structural)]
pub enum MidiFormat {
    /// Format 0: one track.
    SingleTracksMultiChannel,
    /// Format 1: simultaneous tracks.
    MultiTracks,
    /// Format 2: independent single-track patterns.
    MultiTracksIndependentSingleChannel,
}

/// The timing base of a file.
#[derive(Debug, Clone, Copy, PartialEq, Eq, Structural)]
pub enum MidiDivision {
    /// Ticks per quarter note (fifteen bits).
    MetricTime(u16),
    /// SMPTE frames per second (as a negative code) and ticks per frame.
    SubDivision(i8, u8),
}

/// What the fourteen-byte header of a file says.
#[derive(Debug, Clone, Copy, PartialEq, Eq, Structural)]
pub struct MidiHeader {
    pub format: MidiFormat,
    pub ntrk: u16,
    pub division: MidiDivision,
}

/// The ASCII tag `MThd`.
pub open spec fn header_tag() -> Seq<u8> {
    seq![0x4Du8, 0x54, 0x68, 0x64]
}

/// The format that a 16-bit format field names.
pub open spec fn format_of(v: nat) -> Option<MidiFormat> {
    if v == 0 {
        Some(MidiFormat::SingleTracksMultiChannel)
    } else if v == 1 {
        Some(MidiFormat::MultiTracks)
    } else if v == 2 {
        Some(MidiFormat::MultiTracksIndependentSingleChannel)
    } else {
        None
    }
}

pub open spec fn format_number(f: MidiFormat) -> u8 {
    match f {
        MidiFormat::SingleTracksMultiChannel => 0,
        MidiFormat::MultiTracks => 1,
        MidiFormat::MultiTracksIndependentSingleChannel => 2,
    }
}

/// A frame-rate code that SMPTE timing allows.
pub open spec fn valid_frame_code(c: int) -> bool {
    c == -24 || c == -25 || c == -29 || c == -30
}

/// The division that the two division bytes denote: with the top bit of the
/// first clear, fifteen bits of ticks per quarter note; with it set, the
/// first byte as a signed frame-rate code, which must be a valid one, and the
/// second as ticks per frame.
pub open spec fn division_of(b0: u8, b1: u8) -> Option<MidiDivision> {
    if b0 < 0x80 {
        Some(MidiDivision::MetricTime((b0 * 256 + b1) as u16))
    } else if valid_frame_code(b0 - 256) {
        Some(MidiDivision::SubDivision(signed_of(b0), b1))
    } else {
        None
    }
}

/// The header at the start of `s`, or the first check it fails and the
/// offset of the field that fails it.
pub open spec fn header_of(s: Seq<u8>) -> Result<MidiHeader, (MidiParseErrorKind, int)> {
    if s.len() < 4 {
        Err((MidiParseErrorKind::EndOfBuffer, 0))
    } else if s.subrange(0, 4) != header_tag() {
        Err((MidiParseErrorKind::InvalidHeaderTag, 0))
    } else if s.len() < 8 {
        Err((MidiParseErrorKind::EndOfBuffer, 4))
    } else if be_value(s.subrange(4, 8)) != 6 {
        Err((MidiParseErrorKind::InvalidHeaderLength, 4))
    } else if s.len() < 10 {
        Err((MidiParseErrorKind::EndOfBuffer, 8))
    } else if format_of(be_value(s.subrange(8, 10))) is None {
        Err((MidiParseErrorKind::InvalidFormatField, 8))
    } else if s.len() < 12 {
        Err((MidiParseErrorKind::EndOfBuffer, 10))
    } else if s.len() < 14 {
        Err((MidiParseErrorKind::EndOfBuffer, 12))
    } else if division_of(s[12], s[13]) is None {
        Err((MidiParseErrorKind::InvalidSMPTEFrameRate, 12))
    } else {
        Ok(
            MidiHeader {
                format: format_of(be_value(s.subrange(8, 10)))->Some_0,
                ntrk: be_value(s.subrange(10, 12)) as u16,
                division: division_of(s[12], s[13])->Some_0,
            },
        )
    }
}

/// The two bytes a division is written as.
pub open spec fn division_bytes(d: MidiDivision) -> Seq<u8> {
    match d {
        MidiDivision::MetricTime(v) => seq![(v / 256) as u8, (v % 256) as u8],
        MidiDivision::SubDivision(c, t) => seq![byte_of_signed(c), t],
    }
}

/// The fourteen bytes a header is written as.
pub open spec fn header_bytes(h: MidiHeader) -> Seq<u8> {
    header_tag() + seq![0u8, 0, 0, 6] + seq![0u8, format_number(h.format)] + seq![
        (h.ntrk / 256) as u8,
        (h.ntrk % 256) as u8,
    ] + division_bytes(h.division)
}

proof fn lemma_be2(s: Seq<u8>)
    requires
        s.len() == 2,
    ensures
        be_value(s) == s[0] * 256 + s[1],
{
    reveal_with_fuel(be_value, 3);
    assert(s.drop_last().drop_last() =~= Seq::<u8>::empty());
    assert(s.drop_last() =~= seq![s[0]]);
}

proof fn lemma_be4(s: Seq<u8>)
    requires
        s.len() == 4,
    ensures
        be_value(s) == ((s[0] * 256 + s[1]) * 256 + s[2]) * 256 + s[3],
{
    reveal_with_fuel(be_value, 5);
    assert(s.drop_last().drop_last().drop_last().drop_last() =~= Seq::<u8>::empty());
    assert(s.drop_last().drop_last().drop_last() =~= seq![s[0]]);
    assert(s.drop_last().drop_last() =~= seq![s[0], s[1]]);
    assert(s.drop_last() =~= seq![s[0], s[1], s[2]]);
}

impl MidiDivision {
    /// Ticks per quarter note, for a division given in them.
    pub fn metric_time(&self) -> (r: Option<u16>)
        ensures
            r == match *self {
                MidiDivision::MetricTime(v) => Some(v),
                _ => None::<u16>,
            },
    {
        match self {
            MidiDivision::MetricTime(v) => Some(*v),
            MidiDivision::SubDivision(_, _) => None,
        }
    }
}

impl MidiHeader {
    pub fn format(&self) -> (r: MidiFormat)
        ensures
            r == self.format,
    {
        self.format
    }

    pub fn division(&self) -> (r: MidiDivision)
        ensures
            r == self.division,
    {
        self.division
    }

    /// The number of tracks the header announces.
    pub fn ntrk(&self) -> (r: u16)
        ensures
            r == self.ntrk,
    {
        self.ntrk
    }

    pub fn new(format: MidiFormat, ntrk: u16, division: MidiDivision) -> (r: MidiHeader)
        ensures
            r == (MidiHeader { format, ntrk, division }),
    {
        MidiHeader { format, ntrk, division }
    }

    /// The header that the format, track-count and division fields denote;
    /// `InvalidFormatField` or `InvalidSMPTEFrameRate` where a field names no
    /// value.
    pub fn new_raw(format: &[u8], ntrks: &[u8], division: &[u8]) -> (r: Result<
        MidiHeader,
        MidiParseErrorKind,
    >)
        requires
            format@.len() == 2,
            ntrks@.len() == 2,
            division@.len() == 2,
        ensures
            format_of(be_value(format@)) is None ==> r == Err::<MidiHeader, MidiParseErrorKind>(
                MidiParseErrorKind::InvalidFormatField,
            ),
            format_of(be_value(format@)) is Some && division_of(division@[0], division@[1]) is None
                ==> r == Err::<MidiHeader, MidiParseErrorKind>(
                MidiParseErrorKind::InvalidSMPTEFrameRate,
            ),
            format_of(be_value(format@)) is Some && division_of(division@[0], division@[1]) is Some
                ==> r == Ok::<MidiHeader, MidiParseErrorKind>(
                MidiHeader {
                    format: format_of(be_value(format@))->Some_0,
                    ntrk: be_value(ntrks@) as u16,
                    division: division_of(division@[0], division@[1])->Some_0,
                },
            ),
    {
        let f = match Self::parse_format(format) {
            Some(f) => f,
            None => return Err(MidiParseErrorKind::InvalidFormatField),
        };
        let d = match Self::parse_division(division) {
            Some(d) => d,
            None => return Err(MidiParseErrorKind::InvalidSMPTEFrameRate),
        };
        let n = read_be(ntrks, 0, 2);
        proof {
            assert(ntrks@.subrange(0, 2) =~= ntrks@);
            lemma_be2(ntrks@);
        }
        Ok(MidiHeader::new(f, n as u16, d))
    }

    fn parse_format(format: &[u8]) -> (r: Option<MidiFormat>)
        requires
            format@.len() == 2,
        ensures
            r == format_of(be_value(format@)),
    {
        let v = read_be(format, 0, 2);
        assert(format@.subrange(0, 2) =~= format@);
        if v == 0 {
            Some(MidiFormat::SingleTracksMultiChannel)
        } else if v == 1 {
            Some(MidiFormat::MultiTracks)
        } else if v == 2 {
            Some(MidiFormat::MultiTracksIndependentSingleChannel)
        } else {
            None
        }
    }

    fn parse_division(div: &[u8]) -> (r: Option<MidiDivision>)
        requires
            div@.len() == 2,
        ensures
            r == division_of(div@[0], div@[1]),
    {
        let b0 = div[0];
        let b1 = div[1];
        if b0 < 0x80 {
            Some(MidiDivision::MetricTime(b0 as u16 * 256 + b1 as u16))
        } else {
            let code: i16 = b0 as i16 - 256;
            if code == -24 || code == -25 || code == -29 || code == -30 {
                Some(MidiDivision::SubDivision(code as i8, b1))
            } else {
                None
            }
        }
    }

    /// The fourteen bytes the header is written as.
    pub fn to_bytes(&self) -> (r: Vec<u8>)
        ensures
            r@ == header_bytes(*self),
    {
        let f: u8 = match self.format {
            MidiFormat::SingleTracksMultiChannel => 0,
            MidiFormat::MultiTracks => 1,
            MidiFormat::MultiTracksIndependentSingleChannel => 2,
        };
        let (d0, d1): (u8, u8) = match self.division {
            MidiDivision::MetricTime(v) => ((v / 256) as u8, (v % 256) as u8),
            MidiDivision::SubDivision(c, t) => {
                let b: u8 = if c < 0 {
                    (c as i16 + 256) as u8
                } else {
                    c as u8
                };
                (b, t)
            },
        };
        let r = vec![
            0x4Du8,
            0x54,
            0x68,
            0x64,
            0,
            0,
            0,
            6,
            0,
            f,
            (self.ntrk / 256) as u8,
            (self.ntrk % 256) as u8,
            d0,
            d1,
        ];
        assert(r@ =~= header_bytes(*self));
        r
    }
}

impl Default for MidiHeader {
    /// A single-track file of no tracks, at 480 ticks per quarter note.
    fn default() -> (r: MidiHeader)
        ensures
            r == (MidiHeader {
                format: MidiFormat::SingleTracksMultiChannel,
                ntrk: 0,
                division: MidiDivision::MetricTime(480),
            }),
    {
        MidiHeader {
            format: MidiFormat::SingleTracksMultiChannel,
            ntrk: 0,
            division: MidiDivision::MetricTime(480),
        }
    }
}

/// Decodes the file header.
pub struct MidiHeaderParser;

impl MidiHeaderParser {
    /// Reads the header at the start of `buf`, leaving the cursor after it;
    /// on a failure the cursor is left where it was.
    pub fn parse(buf: &[u8], state: &mut ParserState) -> (r: Result<MidiHeader, MidiParseError>)
        requires
            old(state).pos() == 0,
            old(state).hi() == buf@.len(),
        ensures
            final(state).hi() == old(state).hi(),
            final(state).lo() == old(state).lo(),
            final(state).track_index() == old(state).track_index(),
            match header_of(buf@) {
                Ok(h) => r == Ok::<MidiHeader, MidiParseError>(h) && final(state).pos() == 14,
                Err((k, p)) => r is Err && r->Err_0.kind == k && r->Err_0.state.pos() == p,
            },
            r is Err ==> *final(state) == *old(state),
            r is Err ==> r->Err_0.state.track_index() == old(state).track_index(),
    {
        proof {
            use_type_invariant(&*state);
        }
        let mut cursor = state.at(state.curr());
        let r = Self::read_fields(buf, &mut cursor);
        if r.is_ok() {
            state.forward(14);
        }
        r
    }

    fn read_fields(buf: &[u8], state: &mut ParserState) -> (r: Result<MidiHeader, MidiParseError>)
        requires
            old(state).pos() == 0,
            old(state).hi() == buf@.len(),
        ensures
            r is Err ==> r->Err_0.state.track_index() == old(state).track_index(),
            match header_of(buf@) {
                Ok(h) => r == Ok::<MidiHeader, MidiParseError>(h),
                Err((k, p)) => r is Err && r->Err_0.kind == k && r->Err_0.state.pos() == p,
            },
    {
        proof {
            use_type_invariant(&*state);
        }
        let tag = state.next(buf, 4)?;
        if !(tag[0] == 0x4D && tag[1] == 0x54 && tag[2] == 0x68 && tag[3] == 0x64) {
            proof {
                assert(!(tag@ =~= header_tag()));
            }
            return Err(state.at(0).error(MidiParseErrorKind::InvalidHeaderTag));
        }
        assert(tag@ =~= header_tag());
        let len = state.next(buf, 4)?;
        let length = read_be(len.as_slice(), 0, 4);
        assert(len@.subrange(0, 4) =~= len@);
        if length != 6 {
            return Err(state.at(4).error(MidiParseErrorKind::InvalidHeaderLength));
        }
        let format = state.next(buf, 2)?;
        let f = match Self::format_field(format.as_slice()) {
            Some(f) => f,
            None => {
                return Err(state.at(8).error(MidiParseErrorKind::InvalidFormatField));
            },
        };
        let ntrks = state.next(buf, 2)?;
        let division = state.next(buf, 2)?;
        match MidiHeader::new_raw(format.as_slice(), ntrks.as_slice(), division.as_slice()) {
            Ok(h) => Ok(h),
            Err(k) => Err(state.at(12).error(k)),
        }
    }

    fn format_field(format: &[u8]) -> (r: Option<MidiFormat>)
        requires
            format@.len() == 2,
        ensures
            r == format_of(be_value(format@)),
    {
        MidiHeader::parse_format(format)
    }
}

/// Re-encoding a header that decoded from `s` gives back the first fourteen
/// bytes of `s`.
pub proof fn lemma_header_round_trip(s: Seq<u8>)
    requires
        header_of(s) is Ok,
    ensures
        header_bytes(header_of(s)->Ok_0) == s.subrange(0, 14),
{
    let h = header_of(s)->Ok_0;
    lemma_be4(s.subrange(4, 8));
    lemma_be2(s.subrange(8, 10));
    lemma_be2(s.subrange(10, 12));
    let expect = s.subrange(0, 14);
    let got = header_bytes(h);
    assert(got.len() == 14);
    assert(s.subrange(0, 4) == header_tag());
    assert forall|i: int| 0 <= i < 14 implies got[i] == expect[i] by {
        if i < 4 {
            assert(s.subrange(0, 4)[i] == s[i]);
        }
    }
    assert(got =~= expect);
}

} // verus!
