use vstd::prelude::*;

use crate::channel_message::{
    ChannelMessage, channel_arity, channel_bytes, channel_message_of, is_channel_status,
    spec_is_note_off, spec_is_note_on,
};
use crate::meta_message::{
    MetaMessage, Tempo, meta_matches, meta_payload, meta_required_len, meta_subtype,
};
use crate::vlq::{MXByte, encode_var_len, vlq_encode, vlq_size};

verus! {

/// The ticks since the previous event, as read from the file.
#[derive(Debug, Clone, Copy, PartialEq, Eq)]
pub struct DeltaTime(pub MXByte);

impl DeltaTime {
    /// The number of bytes the delta took in the file.
    pub fn len(&self) -> (r: usize)
        ensures
            r == self.0@.1,
    {
        self.0.len()
    }

    pub fn ticks(&self) -> (r: u32)
        ensures
            r == self.0@.0,
            r < 0x1000_0000,
    {
        self.0.value()
    }

    /// A delta of `ticks`, written in the fewest bytes.
    pub fn from_ticks(ticks: u32) -> (r: DeltaTime)
        requires
            ticks < 0x1000_0000,
        ensures
            r.0@ == (ticks as nat, vlq_size(ticks as nat)),
    {
        DeltaTime(MXByte::from_value(ticks))
    }
}

/// A system-exclusive or escape message: its status byte and opaque payload.
#[derive(Debug, Clone, PartialEq, Eq)]
pub struct SysEvent {
    pub status: u8,
    pub data: Vec<u8>,
}

/// The message of an event.
#[derive(Debug, Clone, PartialEq, Eq)]
pub enum MidiMessage {
    ChannelMessage(ChannelMessage),
    MetaMessage(MetaMessage),
    SysMessage(SysEvent),
}

/// The family that a status byte opens.
#[derive(Debug, Clone, Copy, PartialEq, Eq, Structural)]
pub enum MidiMessageType {
    Channel,
    Meta,
    Sys,
}

/// The family that `byte` opens, if it is a status byte of one.
pub open spec fn spec_event_type(byte: u8) -> Option<MidiMessageType> {
    if is_channel_status(byte) {
        Some(MidiMessageType::Channel)
    } else if byte == 0xFF {
        Some(MidiMessageType::Meta)
    } else if byte == 0xF0 || byte == 0xF7 {
        Some(MidiMessageType::Sys)
    } else {
        None
    }
}

/// A payload length that a variable-length quantity can write.
pub open spec fn message_writable(m: MidiMessage) -> bool {
    match m {
        MidiMessage::ChannelMessage(_) => true,
        MidiMessage::MetaMessage(mm) => meta_payload(mm).len() < 0x1000_0000,
        MidiMessage::SysMessage(s) => s.data@.len() < 0x1000_0000,
    }
}

/// The bytes of a message with its status byte written out.
pub open spec fn message_bytes(m: MidiMessage) -> Seq<u8> {
    match m {
        MidiMessage::ChannelMessage(c) => channel_bytes(c),
        MidiMessage::MetaMessage(mm) => seq![0xFFu8, meta_subtype(mm)] + vlq_encode(
            meta_payload(mm).len(),
        ) + meta_payload(mm),
        MidiMessage::SysMessage(s) => seq![s.status] + vlq_encode(s.data@.len()) + s.data@,
    }
}

fn append(r: &mut Vec<u8>, tail: Vec<u8>)
    ensures
        final(r)@ == old(r)@ + tail@,
{
    let mut t = tail;
    r.append(&mut t);
}

impl MidiMessage {
    pub fn event_type(byte: u8) -> (r: Option<MidiMessageType>)
        ensures
            r == spec_event_type(byte),
    {
        if 0x80 <= byte && byte < 0xF0 {
            Some(MidiMessageType::Channel)
        } else if byte == 0xFF {
            Some(MidiMessageType::Meta)
        } else if byte == 0xF0 || byte == 0xF7 {
            Some(MidiMessageType::Sys)
        } else {
            None
        }
    }

    /// The message that a status byte and the bytes after it denote: for a
    /// channel status, its data bytes; for `0xFF`, the subtype and then the
    /// payload; for `0xF0` or `0xF7`, the payload. `None` where the status
    /// opens no message or the bytes do not fit its kind.
    pub fn decode(status: u8, rest: &[u8]) -> (r: Option<MidiMessage>)
        ensures
            spec_event_type(status) is None ==> r is None,
            is_channel_status(status) ==> r == (if rest@.len() == channel_arity(status / 16) {
                Some(MidiMessage::ChannelMessage(channel_message_of(status, rest@)))
            } else {
                None
            }),
            status == 0xFF ==> (r is None <==> (rest@.len() == 0 || (meta_required_len(rest@[0]) is Some
                && meta_required_len(rest@[0]) != Some((rest@.len() - 1) as nat)))),
            status == 0xFF && r is Some ==> r->Some_0 is MetaMessage && meta_matches(
                r->Some_0->MetaMessage_0,
                rest@[0],
                rest@.subrange(1, rest@.len() as int),
            ),
            (status == 0xF0 || status == 0xF7) ==> r is Some && r->Some_0 is SysMessage
                && r->Some_0->SysMessage_0.status == status && r->Some_0->SysMessage_0.data@
                == rest@,
    {
        if 0x80 <= status && status < 0xF0 {
            match ChannelMessage::decode(status, rest) {
                Some(c) => Some(MidiMessage::ChannelMessage(c)),
                None => None,
            }
        } else if status == 0xFF {
            if rest.len() == 0 {
                return None;
            }
            let (head, payload) = rest.split_at(1);
            match MetaMessage::decode(head[0], payload) {
                Some(m) => Some(MidiMessage::MetaMessage(m)),
                None => None,
            }
        } else if status == 0xF0 || status == 0xF7 {
            let mut data: Vec<u8> = Vec::new();
            let mut i: usize = 0;
            while i < rest.len()
                invariant
                    i <= rest@.len(),
                    data@ == rest@.subrange(0, i as int),
                decreases rest@.len() - i,
            {
                data.push(rest[i]);
                i = i + 1;
                assert(data@ =~= rest@.subrange(0, i as int));
            }
            assert(rest@.subrange(0, rest@.len() as int) =~= rest@);
            Some(MidiMessage::SysMessage(SysEvent { status, data }))
        } else {
            None
        }
    }

    /// The message's bytes, status byte first.
    pub fn to_bytes(&self) -> (r: Vec<u8>)
        requires
            message_writable(*self),
        ensures
            r@ == message_bytes(*self),
    {
        match self {
            MidiMessage::ChannelMessage(c) => c.to_bytes(),
            MidiMessage::MetaMessage(m) => {
                let payload = m.payload();
                let mut r = vec![0xFFu8, m.subtype()];
                append(&mut r, encode_var_len(payload.len() as u32));
                append(&mut r, payload);
                r
            },
            MidiMessage::SysMessage(s) => {
                let mut r = vec![s.status];
                append(&mut r, encode_var_len(s.data.len() as u32));
                append(&mut r, s.data.clone());
                r
            },
        }
    }
}

/// One message with the delta-time that precedes it.
#[derive(Debug, Clone, PartialEq, Eq)]
pub struct MidiEvent {
    pub delta_time: DeltaTime,
    pub message: MidiMessage,
}

impl MidiEvent {
    pub fn new(delta_time: DeltaTime, message: MidiMessage) -> (r: MidiEvent)
        ensures
            r == (MidiEvent { delta_time, message }),
    {
        MidiEvent { delta_time, message }
    }

    pub fn event_type(byte: u8) -> (r: Option<MidiMessageType>)
        ensures
            r == spec_event_type(byte),
    {
        MidiMessage::event_type(byte)
    }

    /// Whether `byte` is the status byte of a channel message.
    pub fn is_channel_byte(byte: u8) -> (r: bool)
        ensures
            r == is_channel_status(byte),
    {
        0x80 <= byte && byte < 0xF0
    }

    pub fn is_meta_byte(byte: u8) -> (r: bool)
        ensures
            r == (byte == 0xFF),
    {
        byte == 0xFF
    }

    pub fn is_sys_byte(byte: u8) -> (r: bool)
        ensures
            r == (byte == 0xF0 || byte == 0xF7),
    {
        byte == 0xF7 || byte == 0xF0
    }

    pub fn is_channel_event(&self) -> (r: bool)
        ensures
            r == (self.message is ChannelMessage),
    {
        match self.message {
            MidiMessage::ChannelMessage(_) => true,
            _ => false,
        }
    }

    pub fn is_note_on_off_event(&self) -> (r: bool)
        ensures
            r == match self.message {
                MidiMessage::ChannelMessage(c) => c is NoteOn || c is NoteOff,
                _ => false,
            },
    {
        match &self.message {
            MidiMessage::ChannelMessage(event) => event.is_note_on_off_event(),
            _ => false,
        }
    }

    pub fn is_note_on_event(&self) -> (r: bool)
        ensures
            r == match self.message {
                MidiMessage::ChannelMessage(c) => spec_is_note_on(c),
                _ => false,
            },
    {
        match &self.message {
            MidiMessage::ChannelMessage(event) => event.is_note_on_event(),
            _ => false,
        }
    }

    pub fn is_note_off_event(&self) -> (r: bool)
        ensures
            r == match self.message {
                MidiMessage::ChannelMessage(c) => spec_is_note_off(c),
                _ => false,
            },
    {
        match &self.message {
            MidiMessage::ChannelMessage(event) => event.is_note_off_event(),
            _ => false,
        }
    }

    pub fn delta_time(&self) -> (r: &DeltaTime)
        ensures
            *r == self.delta_time,
    {
        &self.delta_time
    }

    pub fn message(&self) -> (r: &MidiMessage)
        ensures
            *r == self.message,
    {
        &self.message
    }

    pub fn is_tempo_event(&self) -> (r: bool)
        ensures
            r == match self.message {
                MidiMessage::MetaMessage(m) => m is Tempo,
                _ => false,
            },
    {
        match &self.message {
            MidiMessage::MetaMessage(event) => event.is_tempo_event(),
            _ => false,
        }
    }

    pub fn get_tempo(&self) -> (r: Option<Tempo>)
        ensures
            r == event_tempo(*self),
    {
        match &self.message {
            MidiMessage::MetaMessage(msg) => msg.get_tempo(),
            _ => None,
        }
    }

    pub fn get_note_number(&self) -> (r: Option<u8>)
        ensures
            r == match self.message {
                MidiMessage::ChannelMessage(ChannelMessage::NoteOn(e)) => Some(e.note@ as u8),
                MidiMessage::ChannelMessage(ChannelMessage::NoteOff(e)) => Some(e.note@ as u8),
                _ => None::<u8>,
            },
            r is Some ==> r->Some_0 < 0x80,
    {
        match &self.message {
            MidiMessage::ChannelMessage(event) => event.get_note_number(),
            _ => None,
        }
    }

    /// The status byte the event's message is written with.
    pub fn event_byte(&self) -> (r: u8)
        ensures
            r == message_bytes(self.message)[0],
    {
        match &self.message {
            MidiMessage::ChannelMessage(event) => event.event_byte(),
            MidiMessage::MetaMessage(_) => 0xFF,
            MidiMessage::SysMessage(s) => s.status,
        }
    }

    /// The event's bytes: its delta-time in the fewest bytes, then its message
    /// with the status byte written out.
    pub fn to_bytes(&self) -> (r: Vec<u8>)
        requires
            message_writable(self.message),
        ensures
            r@ == vlq_encode(self.delta_time.0@.0) + message_bytes(self.message),
    {
        let mut r = encode_var_len(self.delta_time.ticks());
        append(&mut r, self.message.to_bytes());
        r
    }
}

/// The tempo that an event sets, if it is a tempo event.
pub open spec fn event_tempo(e: MidiEvent) -> Option<Tempo> {
    match e.message {
        MidiMessage::MetaMessage(MetaMessage::Tempo(t)) => Some(t),
        _ => None,
    }
}

} // verus!
