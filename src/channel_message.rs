use vstd::prelude::*;

use crate::primitive::{M4Bits, M7Bits};

verus! {

/// A key pressed on a channel.
#[derive(Debug, Clone, Copy, PartialEq, Eq, Structural)]
pub struct NoteOn {
    pub channel: M4Bits,
    pub note: M7Bits,
    pub velocity: M7Bits,
}

/// A key released on a channel.
#[derive(Debug, Clone, Copy, PartialEq, Eq, Structural)]
pub struct NoteOff {
    pub channel: M4Bits,
    pub note: M7Bits,
    pub velocity: M7Bits,
}

/// Pressure on one held key.
#[derive(Debug, Clone, Copy, PartialEq, Eq, Structural)]
pub struct AfterTouch {
    pub channel: M4Bits,
    pub note: M7Bits,
    pub amount: M7Bits,
}

/// A controller moved to a value.
#[derive(Debug, Clone, Copy, PartialEq, Eq, Structural)]
pub struct Controller {
    pub channel: M4Bits,
    pub controller_type: M7Bits,
    pub value: M7Bits,
}

/// A change of instrument.
#[derive(Debug, Clone, Copy, PartialEq, Eq, Structural)]
pub struct ProgramChange {
    pub channel: M4Bits,
    pub program_number: M7Bits,
}

/// Pressure on the whole channel.
#[derive(Debug, Clone, Copy, PartialEq, Eq, Structural)]
pub struct ChannelAfterTouch {
    pub channel: M4Bits,
    pub amount: M7Bits,
}

/// A pitch-wheel position, least significant seven bits first.
#[derive(Debug, Clone, Copy, PartialEq, Eq, Structural)]
pub struct PitchBend {
    pub channel: M4Bits,
    pub vlsb: M7Bits,
    pub vmsb: M7Bits,
}

/// A channel-voice message; its kind is the high nibble of its status byte.
#[derive(Debug, Clone, Copy, PartialEq, Eq, Structural)]
pub enum ChannelMessage {
    NoteOn(NoteOn),
    NoteOff(NoteOff),
    AfterTouch(AfterTouch),
    Controller(Controller),
    ProgramChange(ProgramChange),
    ChannelAfterTouch(ChannelAfterTouch),
    PitchBend(PitchBend),
}

/// A status byte of a channel message: `0x80` to `0xEF`.
pub open spec fn is_channel_status(status: u8) -> bool {
    0x80 <= status < 0xF0
}

/// How many data bytes a channel message of kind `nibble` carries.
pub open spec fn channel_arity(nibble: u8) -> nat {
    if nibble == 0xC || nibble == 0xD {
        1
    } else {
        2
    }
}

/// The message that a channel status byte and its data bytes denote: the
/// channel is the status byte's low nibble, each data byte keeps seven bits.
pub open spec fn channel_message_of(status: u8, data: Seq<u8>) -> ChannelMessage {
    let channel = M4Bits::spec_new(status as int);
    let d0 = M7Bits::spec_new(data[0] as int);
    let d1 = M7Bits::spec_new(data[1] as int);
    let nibble = status / 16;
    if nibble == 0x8 {
        ChannelMessage::NoteOff(NoteOff { channel, note: d0, velocity: d1 })
    } else if nibble == 0x9 {
        ChannelMessage::NoteOn(NoteOn { channel, note: d0, velocity: d1 })
    } else if nibble == 0xA {
        ChannelMessage::AfterTouch(AfterTouch { channel, note: d0, amount: d1 })
    } else if nibble == 0xB {
        ChannelMessage::Controller(Controller { channel, controller_type: d0, value: d1 })
    } else if nibble == 0xC {
        ChannelMessage::ProgramChange(ProgramChange { channel, program_number: d0 })
    } else if nibble == 0xD {
        ChannelMessage::ChannelAfterTouch(ChannelAfterTouch { channel, amount: d0 })
    } else {
        ChannelMessage::PitchBend(PitchBend { channel, vlsb: d0, vmsb: d1 })
    }
}

/// The kind nibble of a message.
pub open spec fn channel_kind(m: ChannelMessage) -> u8 {
    match m {
        ChannelMessage::NoteOff(_) => 0x8,
        ChannelMessage::NoteOn(_) => 0x9,
        ChannelMessage::AfterTouch(_) => 0xA,
        ChannelMessage::Controller(_) => 0xB,
        ChannelMessage::ProgramChange(_) => 0xC,
        ChannelMessage::ChannelAfterTouch(_) => 0xD,
        ChannelMessage::PitchBend(_) => 0xE,
    }
}

/// The channel field of a message.
pub open spec fn channel_of(m: ChannelMessage) -> M4Bits {
    match m {
        ChannelMessage::NoteOff(e) => e.channel,
        ChannelMessage::NoteOn(e) => e.channel,
        ChannelMessage::AfterTouch(e) => e.channel,
        ChannelMessage::Controller(e) => e.channel,
        ChannelMessage::ProgramChange(e) => e.channel,
        ChannelMessage::ChannelAfterTouch(e) => e.channel,
        ChannelMessage::PitchBend(e) => e.channel,
    }
}

/// The status byte of a message: kind in the high nibble, channel in the low one.
pub open spec fn channel_status(m: ChannelMessage) -> u8 {
    (channel_kind(m) * 16 + channel_of(m)@) as u8
}

/// The data bytes of a message.
pub open spec fn channel_data(m: ChannelMessage) -> Seq<u8> {
    match m {
        ChannelMessage::NoteOff(e) => seq![e.note@ as u8, e.velocity@ as u8],
        ChannelMessage::NoteOn(e) => seq![e.note@ as u8, e.velocity@ as u8],
        ChannelMessage::AfterTouch(e) => seq![e.note@ as u8, e.amount@ as u8],
        ChannelMessage::Controller(e) => seq![
            e.controller_type@ as u8,
            e.value@ as u8,
        ],
        ChannelMessage::ProgramChange(e) => seq![e.program_number@ as u8],
        ChannelMessage::ChannelAfterTouch(e) => seq![e.amount@ as u8],
        ChannelMessage::PitchBend(e) => seq![e.vlsb@ as u8, e.vmsb@ as u8],
    }
}

/// The bytes of a message with its status byte written out.
pub open spec fn channel_bytes(m: ChannelMessage) -> Seq<u8> {
    seq![channel_status(m)] + channel_data(m)
}

/// A NoteOn of velocity zero releases the note, as a NoteOff does.
pub open spec fn spec_is_note_off(m: ChannelMessage) -> bool {
    match m {
        ChannelMessage::NoteOff(_) => true,
        ChannelMessage::NoteOn(e) => e.velocity@ == 0,
        _ => false,
    }
}

/// A NoteOn of positive velocity.
pub open spec fn spec_is_note_on(m: ChannelMessage) -> bool {
    match m {
        ChannelMessage::NoteOn(e) => e.velocity@ != 0,
        _ => false,
    }
}

fn data7(b: u8) -> (r: M7Bits)
    ensures
        r == M7Bits::spec_new(b as int),
        r@ == b % 128,
{
    M7Bits::new(b as u32)
}

fn byte7(w: M7Bits) -> (r: u8)
    ensures
        r == w@,
        r < 0x80,
{
    w.value() as u8
}

impl ChannelMessage {
    /// Builds the message that `status` and `data` denote; `None` where `status`
    /// is no channel status or `data` has not the number of bytes its kind carries.
    pub fn decode(status: u8, data: &[u8]) -> (r: Option<ChannelMessage>)
        ensures
            r == (if is_channel_status(status) && data@.len() == channel_arity(status / 16) {
                Some(channel_message_of(status, data@))
            } else {
                None
            }),
    {
        if status < 0x80 || status >= 0xF0 {
            return None;
        }
        let nibble = status / 16;
        let arity: usize = if nibble == 0xC || nibble == 0xD {
            1
        } else {
            2
        };
        if data.len() != arity {
            return None;
        }
        let channel = M4Bits::new(status as u32);
        let d0 = data7(data[0]);
        let d1 = if arity == 2 {
            data7(data[1])
        } else {
            data7(0)
        };
        let m = if nibble == 0x8 {
            ChannelMessage::NoteOff(NoteOff { channel, note: d0, velocity: d1 })
        } else if nibble == 0x9 {
            ChannelMessage::NoteOn(NoteOn { channel, note: d0, velocity: d1 })
        } else if nibble == 0xA {
            ChannelMessage::AfterTouch(AfterTouch { channel, note: d0, amount: d1 })
        } else if nibble == 0xB {
            ChannelMessage::Controller(Controller { channel, controller_type: d0, value: d1 })
        } else if nibble == 0xC {
            ChannelMessage::ProgramChange(ProgramChange { channel, program_number: d0 })
        } else if nibble == 0xD {
            ChannelMessage::ChannelAfterTouch(ChannelAfterTouch { channel, amount: d0 })
        } else {
            ChannelMessage::PitchBend(PitchBend { channel, vlsb: d0, vmsb: d1 })
        };
        Some(m)
    }

    /// The status byte: kind in the high nibble, channel in the low one.
    pub fn event_byte(&self) -> (r: u8)
        ensures
            r == channel_status(*self),
    {
        let kind: u8 = match self {
            ChannelMessage::NoteOff(_) => 0x8,
            ChannelMessage::NoteOn(_) => 0x9,
            ChannelMessage::AfterTouch(_) => 0xA,
            ChannelMessage::Controller(_) => 0xB,
            ChannelMessage::ProgramChange(_) => 0xC,
            ChannelMessage::ChannelAfterTouch(_) => 0xD,
            ChannelMessage::PitchBend(_) => 0xE,
        };
        kind * 16 + self.event_channel()
    }

    /// The channel, below 16.
    pub fn event_channel(&self) -> (r: u8)
        ensures
            r == channel_of(*self)@,
            r < 16,
    {
        let c = match self {
            ChannelMessage::NoteOff(e) => e.channel,
            ChannelMessage::NoteOn(e) => e.channel,
            ChannelMessage::AfterTouch(e) => e.channel,
            ChannelMessage::Controller(e) => e.channel,
            ChannelMessage::ProgramChange(e) => e.channel,
            ChannelMessage::ChannelAfterTouch(e) => e.channel,
            ChannelMessage::PitchBend(e) => e.channel,
        };
        c.value() as u8
    }

    pub fn is_note_on_off_event(&self) -> (r: bool)
        ensures
            r == (self is NoteOn || self is NoteOff),
    {
        match self {
            ChannelMessage::NoteOn(_) | ChannelMessage::NoteOff(_) => true,
            _ => false,
        }
    }

    /// A NoteOn of positive velocity.
    pub fn is_note_on_event(&self) -> (r: bool)
        ensures
            r == spec_is_note_on(*self),
    {
        match self {
            ChannelMessage::NoteOn(e) => e.velocity.value() != 0,
            _ => false,
        }
    }

    /// A NoteOff, or a NoteOn of velocity zero.
    pub fn is_note_off_event(&self) -> (r: bool)
        ensures
            r == spec_is_note_off(*self),
    {
        match self {
            ChannelMessage::NoteOff(_) => true,
            ChannelMessage::NoteOn(e) => e.velocity.value() == 0,
            _ => false,
        }
    }

    /// The note of a NoteOn or NoteOff, below 0x80.
    pub fn get_note_number(&self) -> (r: Option<u8>)
        ensures
            r == match *self {
                ChannelMessage::NoteOn(e) => Some(e.note@ as u8),
                ChannelMessage::NoteOff(e) => Some(e.note@ as u8),
                _ => None::<u8>,
            },
            r is Some ==> r->Some_0 < 0x80,
    {
        match self {
            ChannelMessage::NoteOn(e) => Some(byte7(e.note)),
            ChannelMessage::NoteOff(e) => Some(byte7(e.note)),
            _ => None,
        }
    }

    /// Whether `byte` is the status byte of a channel message.
    pub fn is_channel_event(byte: u8) -> (r: bool)
        ensures
            r == is_channel_status(byte),
    {
        0x80 <= byte && byte < 0xF0
    }

    /// Whether `byte` is the status byte of a controller message.
    pub fn is_controller_event(byte: u8) -> (r: bool)
        ensures
            r == (byte / 16 == 0xB),
    {
        byte / 16 == 0xB
    }

    /// The message's bytes, status byte first.
    pub fn to_bytes(&self) -> (r: Vec<u8>)
        ensures
            r@ == channel_bytes(*self),
    {
        let status = self.event_byte();
        let r = match self {
            ChannelMessage::NoteOff(e) => vec![status, byte7(e.note), byte7(e.velocity)],
            ChannelMessage::NoteOn(e) => vec![status, byte7(e.note), byte7(e.velocity)],
            ChannelMessage::AfterTouch(e) => vec![status, byte7(e.note), byte7(e.amount)],
            ChannelMessage::Controller(e) => vec![
                status,
                byte7(e.controller_type),
                byte7(e.value),
            ],
            ChannelMessage::ProgramChange(e) => vec![status, byte7(e.program_number)],
            ChannelMessage::ChannelAfterTouch(e) => vec![status, byte7(e.amount)],
            ChannelMessage::PitchBend(e) => vec![status, byte7(e.vlsb), byte7(e.vmsb)],
        };
        assert(r@ =~= channel_bytes(*self));
        r
    }
}

impl NoteOn {
    /// Keeps four bits of `channel` and seven of each data byte.
    pub fn new(channel: u8, note: u8, velocity: u8) -> (r: NoteOn)
        ensures
            r.channel@ == channel % 16,
            r.note@ == note % 128,
            r.velocity@ == velocity % 128,
    {
        NoteOn { channel: M4Bits::new(channel as u32), note: data7(note), velocity: data7(velocity) }
    }
}

impl NoteOff {
    /// Keeps four bits of `channel` and seven of each data byte.
    pub fn new(channel: u8, note: u8, velocity: u8) -> (r: NoteOff)
        ensures
            r.channel@ == channel % 16,
            r.note@ == note % 128,
            r.velocity@ == velocity % 128,
    {
        NoteOff { channel: M4Bits::new(channel as u32), note: data7(note), velocity: data7(velocity) }
    }
}

impl AfterTouch {
    /// Keeps four bits of `channel` and seven of each data byte.
    pub fn new(channel: u8, note: u8, amount: u8) -> (r: AfterTouch)
        ensures
            r.channel@ == channel % 16,
            r.note@ == note % 128,
            r.amount@ == amount % 128,
    {
        AfterTouch { channel: M4Bits::new(channel as u32), note: data7(note), amount: data7(amount) }
    }
}

impl Controller {
    /// Keeps four bits of `channel` and seven of each data byte.
    pub fn new(channel: u8, controller_type: u8, value: u8) -> (r: Controller)
        ensures
            r.channel@ == channel % 16,
            r.controller_type@ == controller_type % 128,
            r.value@ == value % 128,
    {
        Controller {
            channel: M4Bits::new(channel as u32),
            controller_type: data7(controller_type),
            value: data7(value),
        }
    }
}

impl ProgramChange {
    /// Keeps four bits of `channel` and seven of the program number.
    pub fn new(channel: u8, program_number: u8) -> (r: ProgramChange)
        ensures
            r.channel@ == channel % 16,
            r.program_number@ == program_number % 128,
    {
        ProgramChange { channel: M4Bits::new(channel as u32), program_number: data7(program_number) }
    }
}

impl ChannelAfterTouch {
    /// Keeps four bits of `channel` and seven of the amount.
    pub fn new(channel: u8, amount: u8) -> (r: ChannelAfterTouch)
        ensures
            r.channel@ == channel % 16,
            r.amount@ == amount % 128,
    {
        ChannelAfterTouch { channel: M4Bits::new(channel as u32), amount: data7(amount) }
    }
}

impl PitchBend {
    /// Keeps four bits of `channel` and seven of each data byte.
    pub fn new(channel: u8, vlsb: u8, vmsb: u8) -> (r: PitchBend)
        ensures
            r.channel@ == channel % 16,
            r.vlsb@ == vlsb % 128,
            r.vmsb@ == vmsb % 128,
    {
        PitchBend { channel: M4Bits::new(channel as u32), vlsb: data7(vlsb), vmsb: data7(vmsb) }
    }
}

/// A channel message decoded from a status byte and seven-bit data bytes
/// writes back exactly those bytes.
pub proof fn lemma_channel_round_trip(status: u8, data: Seq<u8>)
    requires
        is_channel_status(status),
        data.len() == channel_arity(status / 16),
        forall|i: int| 0 <= i < data.len() ==> data[i] < 0x80,
    ensures
        channel_bytes(channel_message_of(status, data)) == seq![status] + data,
{
    let m = channel_message_of(status, data);
    M4Bits::lemma_spec_new(status as int);
    M7Bits::lemma_spec_new(data[0] as int);
    if data.len() == 2 {
        M7Bits::lemma_spec_new(data[1] as int);
    }
    assert(channel_status(m) == status);
    assert(channel_data(m) =~= data);
}

} // verus!
