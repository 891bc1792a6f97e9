use vstd::prelude::*;

use crate::channel_message::{
    ChannelMessage, channel_arity, channel_message_of, is_channel_status, lemma_channel_round_trip,
};
use crate::error::MidiParseErrorKind;
use crate::meta_message::{MetaMessage, lemma_meta_round_trip, meta_matches, meta_required_len};
use crate::midi_event::{DeltaTime, MidiEvent, MidiMessage, SysEvent, message_bytes};
use crate::parser_state::{MidiParseError, ParserState};
use crate::schema::EventSchema;
use crate::vlq::{lemma_vlq_canonical, lemma_vlq_end_within, vlq_decode, vlq_encode, vlq_size};

verus! {

/// Where one event lies in a buffer: its delta-time and how many bytes that
/// took, the status byte it runs under (written out or carried over), the
/// meta subtype (for a meta event), the range of its data or payload bytes,
/// which is also where it ends, and the running status after it.
pub struct EventFrame {
    pub delta: nat,
    pub delta_len: nat,
    pub status: u8,
    pub subtype: u8,
    pub data_start: int,
    pub data_end: int,
    pub running: Option<u8>,
}

/// A payload length that both the schema and the message kind allow for this subtype.
pub open spec fn meta_len_ok(sc: &EventSchema, subtype: u8, len: nat) -> bool {
    (sc.spec_meta_len(subtype) is None || sc.spec_meta_len(subtype)->Some_0 == len) && (
    meta_required_len(subtype) is None || meta_required_len(subtype)->Some_0 == len)
}

/// The data bytes of a channel message of status `st` whose data starts at `q`.
pub open spec fn channel_body(s: Seq<u8>, st: u8, q: int, end: int, sc: &EventSchema) -> Result<
    (int, int),
    (MidiParseErrorKind, int),
> {
    let n = sc.spec_channel_len(st / 16);
    if n == 0 {
        Err((MidiParseErrorKind::InvalidEventByte, q))
    } else if n != channel_arity(st / 16) {
        Err((MidiParseErrorKind::InvalidPayloadLength, q))
    } else if q + n > end {
        Err((MidiParseErrorKind::EndOfBuffer, q))
    } else {
        Ok((q, q + n))
    }
}

/// The subtype and payload range of a meta event whose subtype byte is at `q`:
/// the subtype, a variable-length payload length, then the payload.
pub open spec fn meta_body(s: Seq<u8>, q: int, end: int, sc: &EventSchema) -> Result<
    (u8, int, int),
    (MidiParseErrorKind, int),
> {
    if q >= end {
        Err((MidiParseErrorKind::EndOfBuffer, q))
    } else {
        match vlq_decode(s.subrange(q + 1, end)) {
            None => Err((MidiParseErrorKind::EndOfBuffer, q + 1)),
            Some((len, ll)) => {
                if !meta_len_ok(sc, s[q], len) {
                    Err((MidiParseErrorKind::InvalidPayloadLength, q + 1))
                } else if q + 1 + ll + len > end {
                    Err((MidiParseErrorKind::EndOfBuffer, q + 1 + ll))
                } else {
                    Ok((s[q], q + 1 + ll, q + 1 + ll + len))
                }
            },
        }
    }
}

/// The payload range of a system event whose length starts at `q`.
pub open spec fn sys_body(s: Seq<u8>, q: int, end: int) -> Result<(int, int), (MidiParseErrorKind, int)> {
    match vlq_decode(s.subrange(q, end)) {
        None => Err((MidiParseErrorKind::EndOfBuffer, q)),
        Some((len, ll)) => {
            if q + ll + len > end {
                Err((MidiParseErrorKind::EndOfBuffer, q + ll))
            } else {
                Ok((q + ll, q + ll + len))
            }
        },
    }
}

/// The event that starts at `pos`, reading no further than `end`, under
/// running status `run`; or the failure and the offset of the field it is
/// found at. A data byte where a status byte may stand continues the running
/// status; channel status bytes set it, meta and system ones leave it be.
pub open spec fn event_frame(
    s: Seq<u8>,
    pos: int,
    end: int,
    run: Option<u8>,
    sc: &EventSchema,
) -> Result<EventFrame, (MidiParseErrorKind, int)> {
    match vlq_decode(s.subrange(pos, end)) {
        None => Err((MidiParseErrorKind::EndOfBuffer, pos)),
        Some((delta, dl)) => {
            let p = pos + dl;
            if p >= end {
                Err((MidiParseErrorKind::EndOfBuffer, p))
            } else if s[p] < 0x80 {
                match run {
                    None => Err((MidiParseErrorKind::InvalidEventByte, p)),
                    Some(st) => match channel_body(s, st, p, end, sc) {
                        Ok((a, z)) => Ok(
                            EventFrame {
                                delta,
                                delta_len: dl,
                                status: st,
                                subtype: 0,
                                data_start: a,
                                data_end: z,
                                running: run,
                            },
                        ),
                        Err(e) => Err(e),
                    },
                }
            } else if is_channel_status(s[p]) {
                match channel_body(s, s[p], p + 1, end, sc) {
                    Ok((a, z)) => Ok(
                        EventFrame {
                            delta,
                            delta_len: dl,
                            status: s[p],
                            subtype: 0,
                            data_start: a,
                            data_end: z,
                            running: Some(s[p]),
                        },
                    ),
                    Err(e) => Err(e),
                }
            } else if s[p] == 0xFF {
                match meta_body(s, p + 1, end, sc) {
                    Ok((sub, a, z)) => Ok(
                        EventFrame {
                            delta,
                            delta_len: dl,
                            status: 0xFF,
                            subtype: sub,
                            data_start: a,
                            data_end: z,
                            running: run,
                        },
                    ),
                    Err(e) => Err(e),
                }
            } else if s[p] == 0xF0 || s[p] == 0xF7 {
                match sys_body(s, p + 1, end) {
                    Ok((a, z)) => Ok(
                        EventFrame {
                            delta,
                            delta_len: dl,
                            status: s[p],
                            subtype: 0,
                            data_start: a,
                            data_end: z,
                            running: run,
                        },
                    ),
                    Err(e) => Err(e),
                }
            } else {
                Err((MidiParseErrorKind::InvalidEventByte, p))
            }
        },
    }
}

/// `m` is the message that frame `f` of `s` holds.
pub open spec fn message_matches(m: MidiMessage, f: EventFrame, s: Seq<u8>) -> bool {
    let data = s.subrange(f.data_start, f.data_end);
    if is_channel_status(f.status) {
        m == MidiMessage::ChannelMessage(channel_message_of(f.status, data))
    } else if f.status == 0xFF {
        m is MetaMessage && meta_matches(m->MetaMessage_0, f.subtype, data)
    } else {
        m is SysMessage && m->SysMessage_0.status == f.status && m->SysMessage_0.data@ == data
    }
}

/// `e` is the event that frame `f` of `s` holds.
pub open spec fn event_matches(e: MidiEvent, f: EventFrame, s: Seq<u8>) -> bool {
    e.delta_time.0@ == (f.delta, f.delta_len) && message_matches(e.message, f, s)
}

/// A failure of kind `k` found at offset `p`.
pub open spec fn failed<T>(r: Result<T, MidiParseError>, k: MidiParseErrorKind, p: int) -> bool {
    r is Err && r->Err_0.kind == k && r->Err_0.state.pos() == p
}

fn required_meta_len(subtype: u8) -> (r: Option<u32>)
    ensures
        match meta_required_len(subtype) {
            Some(n) => r == Some(n as u32),
            None => r is None,
        },
{
    if subtype == 0x20 || subtype == 0x21 {
        Some(1)
    } else if subtype == 0x2F {
        Some(0)
    } else if subtype == 0x51 {
        Some(3)
    } else if subtype == 0x54 {
        Some(5)
    } else if subtype == 0x58 {
        Some(4)
    } else if subtype == 0x59 {
        Some(2)
    } else {
        None
    }
}

/// Decodes the events of a track, one at a time, against a schema.
pub struct MidiEventParser<'a> {
    pub schema: &'a EventSchema,
}

impl<'a> MidiEventParser<'a> {
    pub fn new(schema: &'a EventSchema) -> (r: MidiEventParser<'a>)
        ensures
            r.schema == schema,
    {
        MidiEventParser { schema }
    }

    /// Reads the data bytes of a channel message of status `status`, which
    /// start at the cursor.
    pub fn parse_channel_event(&self, buf: &[u8], state: &mut ParserState, status: u8) -> (r:
        Result<ChannelMessage, MidiParseError>)
        requires
            is_channel_status(status),
            old(state).hi() <= buf@.len(),
        ensures
            final(state).lo() == old(state).lo(),
            final(state).hi() == old(state).hi(),
            final(state).track_index() == old(state).track_index(),
            r is Err ==> r->Err_0.state.track_index() == old(state).track_index(),
            match channel_body(buf@, status, old(state).pos(), old(state).hi(), self.schema) {
                Ok((a, z)) => r == Ok::<ChannelMessage, MidiParseError>(
                    channel_message_of(status, buf@.subrange(a, z)),
                ) && final(state).pos() == z,
                Err((k, p)) => failed(r, k, p),
            },
    {
        proof {
            use_type_invariant(&*state);
        }
        let nibble = status / 16;
        let n = self.schema.channel_length(nibble);
        if n == 0 {
            return Err(state.error(MidiParseErrorKind::InvalidEventByte));
        }
        let arity: u8 = if nibble == 0xC || nibble == 0xD {
            1
        } else {
            2
        };
        if n != arity {
            return Err(state.error(MidiParseErrorKind::InvalidPayloadLength));
        }
        let data = state.next(buf, n as usize)?;
        match ChannelMessage::decode(status, data.as_slice()) {
            Some(m) => Ok(m),
            None => Err(state.error(MidiParseErrorKind::InvalidPayloadLength)),
        }
    }

    /// Reads a meta event from its subtype byte, which is at the cursor.
    pub fn parse_meta_event(&self, buf: &[u8], state: &mut ParserState) -> (r: Result<
        MetaMessage,
        MidiParseError,
    >)
        requires
            old(state).hi() <= buf@.len(),
        ensures
            final(state).lo() == old(state).lo(),
            final(state).hi() == old(state).hi(),
            final(state).track_index() == old(state).track_index(),
            r is Err ==> r->Err_0.state.track_index() == old(state).track_index(),
            match meta_body(buf@, old(state).pos(), old(state).hi(), self.schema) {
                Ok((sub, a, z)) => r is Ok && meta_matches(r->Ok_0, sub, buf@.subrange(a, z))
                    && final(state).pos() == z,
                Err((k, p)) => failed(r, k, p),
            },
    {
        proof {
            use_type_invariant(&*state);
        }
        let subtype = state.byte(buf)?;
        state.forward(1);
        let len_at = state.at(state.curr());
        let l = state.mxbyte(buf)?;
        let len = l.value();
        let fits = match self.schema.meta_length(subtype) {
            Some(x) => x as u32 == len,
            None => true,
        } && match required_meta_len(subtype) {
            Some(x) => x == len,
            None => true,
        };
        if !fits {
            return Err(len_at.error(MidiParseErrorKind::InvalidPayloadLength));
        }
        let payload = state.next(buf, len as usize)?;
        match MetaMessage::decode(subtype, payload.as_slice()) {
            Some(m) => Ok(m),
            None => Err(len_at.error(MidiParseErrorKind::InvalidPayloadLength)),
        }
    }

    /// Reads the payload of a system event of status `status`: its length is at the cursor.
    pub fn parse_sys_event(&self, buf: &[u8], state: &mut ParserState, status: u8) -> (r: Result<
        SysEvent,
        MidiParseError,
    >)
        requires
            old(state).hi() <= buf@.len(),
        ensures
            final(state).lo() == old(state).lo(),
            final(state).hi() == old(state).hi(),
            final(state).track_index() == old(state).track_index(),
            r is Err ==> r->Err_0.state.track_index() == old(state).track_index(),
            match sys_body(buf@, old(state).pos(), old(state).hi()) {
                Ok((a, z)) => r is Ok && r->Ok_0.status == status && r->Ok_0.data@ == buf@.subrange(
                    a,
                    z,
                ) && final(state).pos() == z,
                Err((k, p)) => failed(r, k, p),
            },
    {
        proof {
            use_type_invariant(&*state);
        }
        let l = state.mxbyte(buf)?;
        let data = state.next(buf, l.value() as usize)?;
        Ok(SysEvent { status, data })
    }

    /// Reads the event at the cursor under running status `running`, and
    /// gives it with the running status that follows it.
    pub fn parse_event(&self, buf: &[u8], state: &mut ParserState, running: Option<u8>) -> (r:
        Result<(MidiEvent, Option<u8>), MidiParseError>)
        requires
            old(state).hi() <= buf@.len(),
            running is Some ==> is_channel_status(running->Some_0),
        ensures
            final(state).lo() == old(state).lo(),
            final(state).hi() == old(state).hi(),
            final(state).track_index() == old(state).track_index(),
            r is Err ==> r->Err_0.state.track_index() == old(state).track_index(),
            r is Ok ==> (r->Ok_0.1 is Some ==> is_channel_status(r->Ok_0.1->Some_0)),
            match event_frame(buf@, old(state).pos(), old(state).hi(), running, self.schema) {
                Ok(f) => r is Ok && event_matches(r->Ok_0.0, f, buf@) && r->Ok_0.1 == f.running
                    && final(state).pos() == f.data_end,
                Err((k, p)) => failed(r, k, p),
            },
    {
        proof {
            use_type_invariant(&*state);
        }
        let delta = DeltaTime(state.mxbyte(buf)?);
        let b = state.byte(buf)?;
        if b < 0x80 {
            match running {
                None => Err(state.error(MidiParseErrorKind::InvalidEventByte)),
                Some(st) => {
                    let m = self.parse_channel_event(buf, state, st)?;
                    Ok((MidiEvent::new(delta, MidiMessage::ChannelMessage(m)), running))
                },
            }
        } else if b < 0xF0 {
            state.forward(1);
            let m = self.parse_channel_event(buf, state, b)?;
            Ok((MidiEvent::new(delta, MidiMessage::ChannelMessage(m)), Some(b)))
        } else if b == 0xFF {
            state.forward(1);
            let m = self.parse_meta_event(buf, state)?;
            Ok((MidiEvent::new(delta, MidiMessage::MetaMessage(m)), running))
        } else if b == 0xF0 || b == 0xF7 {
            state.forward(1);
            let m = self.parse_sys_event(buf, state, b)?;
            Ok((MidiEvent::new(delta, MidiMessage::SysMessage(m)), running))
        } else {
            Err(state.error(MidiParseErrorKind::InvalidEventByte))
        }
    }
}

} // verus!

verus! {

/// Frame `f` of `s`, starting at `pos`, was written the plain way: its status
/// byte written out, its data bytes with the top bit clear, and each of its
/// variable-length numbers in the fewest bytes.
pub open spec fn frame_is_plain(s: Seq<u8>, pos: int, f: EventFrame) -> bool {
    let p = pos + f.delta_len;
    let len = (f.data_end - f.data_start) as nat;
    &&& f.delta_len == vlq_size(f.delta)
    &&& s[p] >= 0x80
    &&& is_channel_status(f.status) ==> forall|i: int|
        f.data_start <= i < f.data_end ==> #[trigger] s[i] < 0x80
    &&& f.status == 0xFF ==> f.data_start - (p + 2) == vlq_size(len)
    &&& (f.status == 0xF0 || f.status == 0xF7) ==> f.data_start - (p + 1) == vlq_size(len)
}

/// An event decoded from a plainly written frame writes back exactly the bytes
/// it was decoded from.
#[verifier::rlimit(40)]
pub proof fn lemma_event_round_trip(
    s: Seq<u8>,
    pos: int,
    end: int,
    run: Option<u8>,
    sc: &EventSchema,
    e: MidiEvent,
)
    requires
        0 <= pos <= end <= s.len(),
        event_frame(s, pos, end, run, sc) is Ok,
        event_matches(e, event_frame(s, pos, end, run, sc)->Ok_0, s),
        frame_is_plain(s, pos, event_frame(s, pos, end, run, sc)->Ok_0),
    ensures
        vlq_encode(e.delta_time.0@.0) + message_bytes(e.message) == s.subrange(
            pos,
            event_frame(s, pos, end, run, sc)->Ok_0.data_end,
        ),
{
    let f = event_frame(s, pos, end, run, sc)->Ok_0;
    let w = s.subrange(pos, end);
    lemma_vlq_end_within(w);
    lemma_vlq_canonical(w);
    let dl = f.delta_len;
    let p = pos + dl;
    assert(w.subrange(0, dl as int) =~= s.subrange(pos, p));
    let data = s.subrange(f.data_start, f.data_end);
    let tail = s.subrange(p, f.data_end);
    if is_channel_status(s[p]) {
        lemma_channel_round_trip(s[p], data);
        assert(message_bytes(e.message) =~= tail);
    } else if s[p] == 0xFF {
        let m = e.message->MetaMessage_0;
        lemma_meta_round_trip(m, f.subtype, data);
        let lw = s.subrange(p + 2, end);
        lemma_vlq_end_within(lw);
        lemma_vlq_canonical(lw);
        let ll = (f.data_start - (p + 2)) as int;
        assert(lw.subrange(0, ll) =~= s.subrange(p + 2, f.data_start));
        assert(message_bytes(e.message) =~= tail);
    } else {
        let lw = s.subrange(p + 1, end);
        lemma_vlq_end_within(lw);
        lemma_vlq_canonical(lw);
        let ll = (f.data_start - (p + 1)) as int;
        assert(lw.subrange(0, ll) =~= s.subrange(p + 1, f.data_start));
        assert(message_bytes(e.message) =~= tail);
    }
    assert(s.subrange(pos, p) + tail =~= s.subrange(pos, f.data_end));
}

} // verus!
