use vstd::prelude::*;

use crate::primitive::{M3Byte, be_value};

verus! {

/// The text of a text-family meta event, as raw bytes.
#[derive(Debug, Clone, PartialEq, Eq)]
pub struct TextEvent {
    pub text: Vec<u8>,
}

/// The channel that following meta events refer to.
#[derive(Debug, Clone, Copy, PartialEq, Eq, Structural)]
pub struct ChannelPrefix(pub u8);

/// The output port that the track plays on.
#[derive(Debug, Clone, Copy, PartialEq, Eq, Structural)]
pub struct MIDIPort(pub u8);

/// The end of a track.
#[derive(Debug, Clone, Copy, PartialEq, Eq, Structural)]
pub struct EndOfTrack;

/// A tempo: microseconds per quarter note, a 24-bit number.
#[derive(Debug, Clone, Copy, PartialEq, Eq)]
pub struct Tempo(pub M3Byte);

/// The SMPTE time at which a track starts, as its five raw bytes.
#[derive(Debug, Clone, Copy, PartialEq, Eq, Structural)]
pub struct SMPTEOffset(pub u8, pub u8, pub u8, pub u8, pub u8);

/// A time signature: numerator, denominator as a power of two, MIDI clocks
/// per metronome tick, and thirty-second notes per quarter note.
#[derive(Debug, Clone, Copy, PartialEq, Eq, Structural)]
pub struct TimeSignature {
    pub nn: u8,
    pub dd: u8,
    pub cc: u8,
    pub bb: u8,
}

/// A key signature: sharps (positive) or flats (negative), and major (0) or minor (1).
#[derive(Debug, Clone, Copy, PartialEq, Eq, Structural)]
pub struct KeySignature {
    pub sf: i8,
    pub mi: u8,
}

/// A meta event's message, chosen by its subtype byte.
#[derive(Debug, Clone, PartialEq, Eq)]
pub enum MetaMessage {
    Text(TextEvent),
    CopyrightNotice(TextEvent),
    TrackName(TextEvent),
    InstrumentName(TextEvent),
    Lyrics(TextEvent),
    Marker(TextEvent),
    CuePoint(TextEvent),
    ChannelPrefix(ChannelPrefix),
    MIDIPort(MIDIPort),
    EndOfTrack,
    Tempo(Tempo),
    SMPTEOffset(SMPTEOffset),
    TimeSignature(TimeSignature),
    KeySignature(KeySignature),
    /// A subtype that none of the other variants stands for, with its payload.
    Unrecognized(u8, Vec<u8>),
}

/// The payload length that a subtype requires, for those that fix one.
pub open spec fn meta_required_len(subtype: u8) -> Option<nat> {
    if subtype == 0x20 || subtype == 0x21 {
        Some(1)
    } else if subtype == 0x2F {
        Some(0)
    } else if subtype == 0x51 {
        Some(3)
    } else if subtype == 0x54 {
        Some(5)
    } else if subtype == 0x58 {
        Some(4)
    } else if subtype == 0x59 {
        Some(2)
    } else {
        None
    }
}

/// A subtype that one of the named variants stands for.
pub open spec fn is_known_meta(subtype: u8) -> bool {
    (0x01 <= subtype <= 0x07) || meta_required_len(subtype) is Some
}

/// A byte read as a two's-complement signed number.
pub open spec fn signed_of(b: u8) -> i8 {
    (if b < 0x80 {
        b as int
    } else {
        b - 256
    }) as i8
}

/// A signed number written as a two's-complement byte.
pub open spec fn byte_of_signed(v: i8) -> u8 {
    (if v < 0 {
        v + 256
    } else {
        v as int
    }) as u8
}

/// `m` is the message that a meta event of this subtype and payload denotes.
pub open spec fn meta_matches(m: MetaMessage, subtype: u8, p: Seq<u8>) -> bool {
    match m {
        MetaMessage::Text(t) => subtype == 0x01 && t.text@ == p,
        MetaMessage::CopyrightNotice(t) => subtype == 0x02 && t.text@ == p,
        MetaMessage::TrackName(t) => subtype == 0x03 && t.text@ == p,
        MetaMessage::InstrumentName(t) => subtype == 0x04 && t.text@ == p,
        MetaMessage::Lyrics(t) => subtype == 0x05 && t.text@ == p,
        MetaMessage::Marker(t) => subtype == 0x06 && t.text@ == p,
        MetaMessage::CuePoint(t) => subtype == 0x07 && t.text@ == p,
        MetaMessage::ChannelPrefix(c) => subtype == 0x20 && p.len() == 1 && c.0 == p[0],
        MetaMessage::MIDIPort(c) => subtype == 0x21 && p.len() == 1 && c.0 == p[0],
        MetaMessage::EndOfTrack => subtype == 0x2F && p.len() == 0,
        MetaMessage::Tempo(t) => subtype == 0x51 && p.len() == 3 && t.0@ == be_value(p),
        MetaMessage::SMPTEOffset(o) => subtype == 0x54 && p == seq![o.0, o.1, o.2, o.3, o.4],
        MetaMessage::TimeSignature(t) => subtype == 0x58 && p == seq![t.nn, t.dd, t.cc, t.bb],
        MetaMessage::KeySignature(k) => subtype == 0x59 && p.len() == 2 && k.sf == signed_of(
            p[0],
        ) && k.mi == p[1],
        MetaMessage::Unrecognized(s, q) => s == subtype && !is_known_meta(subtype) && q@ == p,
    }
}

/// The subtype byte of a message.
pub open spec fn meta_subtype(m: MetaMessage) -> u8 {
    match m {
        MetaMessage::Text(_) => 0x01,
        MetaMessage::CopyrightNotice(_) => 0x02,
        MetaMessage::TrackName(_) => 0x03,
        MetaMessage::InstrumentName(_) => 0x04,
        MetaMessage::Lyrics(_) => 0x05,
        MetaMessage::Marker(_) => 0x06,
        MetaMessage::CuePoint(_) => 0x07,
        MetaMessage::ChannelPrefix(_) => 0x20,
        MetaMessage::MIDIPort(_) => 0x21,
        MetaMessage::EndOfTrack => 0x2F,
        MetaMessage::Tempo(_) => 0x51,
        MetaMessage::SMPTEOffset(_) => 0x54,
        MetaMessage::TimeSignature(_) => 0x58,
        MetaMessage::KeySignature(_) => 0x59,
        MetaMessage::Unrecognized(s, _) => s,
    }
}

/// The three big-endian bytes of a 24-bit number.
pub open spec fn be3(v: nat) -> Seq<u8> {
    seq![(v / 0x1_0000 % 256) as u8, (v / 0x100 % 256) as u8, (v % 256) as u8]
}

/// The payload that a message writes.
pub open spec fn meta_payload(m: MetaMessage) -> Seq<u8> {
    match m {
        MetaMessage::Text(t) => t.text@,
        MetaMessage::CopyrightNotice(t) => t.text@,
        MetaMessage::TrackName(t) => t.text@,
        MetaMessage::InstrumentName(t) => t.text@,
        MetaMessage::Lyrics(t) => t.text@,
        MetaMessage::Marker(t) => t.text@,
        MetaMessage::CuePoint(t) => t.text@,
        MetaMessage::ChannelPrefix(c) => seq![c.0],
        MetaMessage::MIDIPort(c) => seq![c.0],
        MetaMessage::EndOfTrack => seq![],
        MetaMessage::Tempo(t) => be3(t.0@ as nat),
        MetaMessage::SMPTEOffset(o) => seq![o.0, o.1, o.2, o.3, o.4],
        MetaMessage::TimeSignature(t) => seq![t.nn, t.dd, t.cc, t.bb],
        MetaMessage::KeySignature(k) => seq![byte_of_signed(k.sf), k.mi],
        MetaMessage::Unrecognized(_, q) => q@,
    }
}

fn copy_bytes(buf: &[u8]) -> (r: Vec<u8>)
    ensures
        r@ == buf@,
{
    let mut r: Vec<u8> = Vec::new();
    let mut i: usize = 0;
    while i < buf.len()
        invariant
            i <= buf@.len(),
            r@ == buf@.subrange(0, i as int),
        decreases buf@.len() - i,
    {
        r.push(buf[i]);
        i = i + 1;
        assert(r@ =~= buf@.subrange(0, i as int));
    }
    assert(buf@.subrange(0, buf@.len() as int) =~= buf@);
    r
}

fn signed_byte(b: u8) -> (r: i8)
    ensures
        r == signed_of(b),
{
    if b < 0x80 {
        b as i8
    } else {
        (b as i16 - 256) as i8
    }
}

impl Tempo {
    pub fn new(micro_secs: M3Byte) -> (r: Tempo)
        ensures
            r.0 == micro_secs,
    {
        Tempo(micro_secs)
    }

    /// Microseconds per quarter note.
    pub fn micros(&self) -> (r: u32)
        ensures
            r == self.0@,
            r < 0x100_0000,
    {
        self.0.value()
    }

    /// Whole beats per minute.
    pub fn bpm(&self) -> (r: u32)
        requires
            self.0@ > 0,
        ensures
            r == 60_000_000int / (self.0@ as int),
    {
        60_000_000 / self.0.value()
    }
}

impl KeySignature {
    /// Whether the key is minor.
    pub fn is_minor(&self) -> (r: bool)
        ensures
            r == (self.mi == 1),
    {
        self.mi == 1
    }
}

impl MetaMessage {
    /// Builds the message of this subtype and payload; `None` where the
    /// subtype fixes a payload length that `payload` does not have.
    pub fn decode(subtype: u8, payload: &[u8]) -> (r: Option<MetaMessage>)
        ensures
            match meta_required_len(subtype) {
                Some(n) => n != payload@.len() ==> r is None,
                None => true,
            },
            r is None ==> meta_required_len(subtype) is Some && meta_required_len(subtype)
                != Some(payload@.len()),
            r is Some ==> meta_matches(r->Some_0, subtype, payload@),
    {
        let n = payload.len();
        if 0x01 <= subtype && subtype <= 0x07 {
            let t = TextEvent { text: copy_bytes(payload) };
            let m = if subtype == 0x01 {
                MetaMessage::Text(t)
            } else if subtype == 0x02 {
                MetaMessage::CopyrightNotice(t)
            } else if subtype == 0x03 {
                MetaMessage::TrackName(t)
            } else if subtype == 0x04 {
                MetaMessage::InstrumentName(t)
            } else if subtype == 0x05 {
                MetaMessage::Lyrics(t)
            } else if subtype == 0x06 {
                MetaMessage::Marker(t)
            } else {
                MetaMessage::CuePoint(t)
            };
            Some(m)
        } else if subtype == 0x20 || subtype == 0x21 {
            if n != 1 {
                None
            } else if subtype == 0x20 {
                Some(MetaMessage::ChannelPrefix(ChannelPrefix(payload[0])))
            } else {
                Some(MetaMessage::MIDIPort(MIDIPort(payload[0])))
            }
        } else if subtype == 0x2F {
            if n != 0 {
                None
            } else {
                Some(MetaMessage::EndOfTrack)
            }
        } else if subtype == 0x51 {
            if n != 3 {
                None
            } else {
                Some(Self::get_tempo_from(payload))
            }
        } else if subtype == 0x54 {
            if n != 5 {
                None
            } else {
                let o = SMPTEOffset(payload[0], payload[1], payload[2], payload[3], payload[4]);
                assert(payload@ =~= seq![o.0, o.1, o.2, o.3, o.4]);
                Some(MetaMessage::SMPTEOffset(o))
            }
        } else if subtype == 0x58 {
            if n != 4 {
                None
            } else {
                Some(Self::get_time_signature_from(payload))
            }
        } else if subtype == 0x59 {
            if n != 2 {
                None
            } else {
                Some(Self::get_key_signature_from(payload))
            }
        } else {
            Some(MetaMessage::Unrecognized(subtype, copy_bytes(payload)))
        }
    }

    fn get_tempo_from(buf: &[u8]) -> (r: MetaMessage)
        requires
            buf@.len() == 3,
        ensures
            meta_matches(r, 0x51, buf@),
    {
        let t = M3Byte::from_be_slice(buf);
        proof {
            reveal_with_fuel(be_value, 4);
            assert(buf@.drop_last().drop_last().drop_last() =~= Seq::<u8>::empty());
            assert(buf@.drop_last().drop_last() =~= seq![buf@[0]]);
            assert(buf@.drop_last() =~= seq![buf@[0], buf@[1]]);
        }
        MetaMessage::Tempo(Tempo(t))
    }

    fn get_time_signature_from(buf: &[u8]) -> (r: MetaMessage)
        requires
            buf@.len() == 4,
        ensures
            meta_matches(r, 0x58, buf@),
    {
        let t = TimeSignature { nn: buf[0], dd: buf[1], cc: buf[2], bb: buf[3] };
        assert(buf@ =~= seq![t.nn, t.dd, t.cc, t.bb]);
        MetaMessage::TimeSignature(t)
    }

    fn get_key_signature_from(buf: &[u8]) -> (r: MetaMessage)
        requires
            buf@.len() == 2,
        ensures
            meta_matches(r, 0x59, buf@),
    {
        MetaMessage::KeySignature(KeySignature { sf: signed_byte(buf[0]), mi: buf[1] })
    }

    pub fn subtype(&self) -> (r: u8)
        ensures
            r == meta_subtype(*self),
    {
        match self {
            MetaMessage::Text(_) => 0x01,
            MetaMessage::CopyrightNotice(_) => 0x02,
            MetaMessage::TrackName(_) => 0x03,
            MetaMessage::InstrumentName(_) => 0x04,
            MetaMessage::Lyrics(_) => 0x05,
            MetaMessage::Marker(_) => 0x06,
            MetaMessage::CuePoint(_) => 0x07,
            MetaMessage::ChannelPrefix(_) => 0x20,
            MetaMessage::MIDIPort(_) => 0x21,
            MetaMessage::EndOfTrack => 0x2F,
            MetaMessage::Tempo(_) => 0x51,
            MetaMessage::SMPTEOffset(_) => 0x54,
            MetaMessage::TimeSignature(_) => 0x58,
            MetaMessage::KeySignature(_) => 0x59,
            MetaMessage::Unrecognized(s, _) => *s,
        }
    }

    /// The payload bytes the message writes.
    pub fn payload(&self) -> (r: Vec<u8>)
        ensures
            r@ == meta_payload(*self),
    {
        let r = match self {
            MetaMessage::Text(t) => copy_bytes(t.text.as_slice()),
            MetaMessage::CopyrightNotice(t) => copy_bytes(t.text.as_slice()),
            MetaMessage::TrackName(t) => copy_bytes(t.text.as_slice()),
            MetaMessage::InstrumentName(t) => copy_bytes(t.text.as_slice()),
            MetaMessage::Lyrics(t) => copy_bytes(t.text.as_slice()),
            MetaMessage::Marker(t) => copy_bytes(t.text.as_slice()),
            MetaMessage::CuePoint(t) => copy_bytes(t.text.as_slice()),
            MetaMessage::ChannelPrefix(c) => vec![c.0],
            MetaMessage::MIDIPort(c) => vec![c.0],
            MetaMessage::EndOfTrack => Vec::new(),
            MetaMessage::Tempo(t) => {
                let v = t.micros();
                vec![(v / 0x1_0000 % 256) as u8, (v / 0x100 % 256) as u8, (v % 256) as u8]
            },
            MetaMessage::SMPTEOffset(o) => vec![o.0, o.1, o.2, o.3, o.4],
            MetaMessage::TimeSignature(t) => vec![t.nn, t.dd, t.cc, t.bb],
            MetaMessage::KeySignature(k) => {
                let b: u8 = if k.sf < 0 {
                    (k.sf as i16 + 256) as u8
                } else {
                    k.sf as u8
                };
                vec![b, k.mi]
            },
            MetaMessage::Unrecognized(_, q) => copy_bytes(q.as_slice()),
        };
        assert(r@ =~= meta_payload(*self));
        r
    }

    pub fn get_tempo(&self) -> (r: Option<Tempo>)
        ensures
            r == match *self {
                MetaMessage::Tempo(t) => Some(t),
                _ => None::<Tempo>,
            },
    {
        match self {
            MetaMessage::Tempo(t) => Some(*t),
            _ => None,
        }
    }

    pub fn is_tempo_event(&self) -> (r: bool)
        ensures
            r == (*self is Tempo),
    {
        match self {
            MetaMessage::Tempo(_) => true,
            _ => false,
        }
    }
}

/// A meta message decoded from a subtype and a payload writes back that
/// subtype and exactly that payload.
pub proof fn lemma_meta_round_trip(m: MetaMessage, subtype: u8, p: Seq<u8>)
    requires
        meta_matches(m, subtype, p),
    ensures
        meta_subtype(m) == subtype,
        meta_payload(m) == p,
{
    match m {
        MetaMessage::Tempo(t) => {
            reveal_with_fuel(be_value, 4);
            assert(p.drop_last().drop_last().drop_last() =~= Seq::<u8>::empty());
            assert(p.drop_last().drop_last() =~= seq![p[0]]);
            assert(p.drop_last() =~= seq![p[0], p[1]]);
            assert(be3(t.0@ as nat) =~= p);
        },
        MetaMessage::ChannelPrefix(_) => {
            assert(meta_payload(m) =~= p);
        },
        MetaMessage::MIDIPort(_) => {
            assert(meta_payload(m) =~= p);
        },
        MetaMessage::EndOfTrack => {
            assert(meta_payload(m) =~= p);
        },
        MetaMessage::KeySignature(_) => {
            assert(meta_payload(m) =~= p);
        },
        _ => {},
    }
}

} // verus!
