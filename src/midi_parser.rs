use vstd::prelude::*;

use crate::channel_message::is_channel_status;
use crate::error::MidiParseErrorKind;
use crate::event_parser::{
    EventFrame, MidiEventParser, event_frame, event_matches, failed, frame_is_plain,
    lemma_event_round_trip,
};
use crate::midi_event::{MidiEvent, message_bytes};
use crate::midi_header::{MidiHeader, MidiHeaderParser, header_of};
use crate::midi_track::{Midi, MidiTrack};
use crate::parser_state::{MidiParseError, ParserState};
use crate::primitive::{be_value, read_be};
use crate::schema::EventSchema;
use crate::vlq::{lemma_vlq_end_within, vlq_decode, vlq_encode};

verus! {

/// The events of the track that fills `[pos, end)`, under running status
/// `run`, or the first failure. Each event starts where the one before it
/// ended, and the last must end exactly at `end`.
pub open spec fn track_frames(
    s: Seq<u8>,
    pos: int,
    end: int,
    run: Option<u8>,
    sc: &EventSchema,
) -> Result<Seq<EventFrame>, (MidiParseErrorKind, int)>
    decreases end - pos,
{
    if pos >= end {
        Ok(seq![])
    } else {
        match event_frame(s, pos, end, run, sc) {
            Err(e) => Err(e),
            Ok(f) => {
                if f.data_end <= pos {
                    // an event takes at least two bytes: this branch is never taken
                    Ok(seq![])
                } else {
                    match track_frames(s, f.data_end, end, f.running, sc) {
                        Ok(fs) => Ok(seq![f] + fs),
                        Err(e) => Err(e),
                    }
                }
            },
        }
    }
}

/// `events` are the events that `frames` of `s` hold, one for one.
pub open spec fn frames_match(events: Seq<MidiEvent>, frames: Seq<EventFrame>, s: Seq<u8>) -> bool {
    events.len() == frames.len() && forall|i: int|
        0 <= i < events.len() ==> event_matches(#[trigger] events[i], frames[i], s)
}

/// `r` with `done` put before the events it holds.
pub open spec fn after<T>(done: Seq<T>, r: Result<Seq<T>, (MidiParseErrorKind, int)>) -> Result<
    Seq<T>,
    (MidiParseErrorKind, int),
> {
    match r {
        Ok(rest) => Ok(done + rest),
        Err(e) => Err(e),
    }
}

/// The ASCII tag `MTrk`.
pub open spec fn track_tag() -> Seq<u8> {
    seq![0x4Du8, 0x54, 0x72, 0x6B]
}

/// The payload range of the chunk whose header is at `pos`: a four-byte
/// `MTrk` tag, then a big-endian 32-bit length.
pub open spec fn chunk_at(s: Seq<u8>, pos: int) -> Result<(int, int), (MidiParseErrorKind, int)> {
    if pos + 4 > s.len() {
        Err((MidiParseErrorKind::EndOfBuffer, pos))
    } else if s.subrange(pos, pos + 4) != track_tag() {
        Err((MidiParseErrorKind::InvalidChunkTag, pos))
    } else if pos + 8 > s.len() {
        Err((MidiParseErrorKind::EndOfBuffer, pos + 4))
    } else if pos + 8 + be_value(s.subrange(pos + 4, pos + 8)) > s.len() {
        Err((MidiParseErrorKind::EndOfBuffer, pos + 8))
    } else {
        Ok((pos + 8, pos + 8 + be_value(s.subrange(pos + 4, pos + 8))))
    }
}

/// The payload ranges of the chunks from `pos` to the end of `s`.
pub open spec fn chunk_spans(s: Seq<u8>, pos: int) -> Result<
    Seq<(int, int)>,
    (MidiParseErrorKind, int),
>
    decreases s.len() - pos,
{
    if pos >= s.len() {
        Ok(seq![])
    } else {
        match chunk_at(s, pos) {
            Err(e) => Err(e),
            Ok((a, z)) => after(seq![(a, z)], chunk_spans(s, z)),
        }
    }
}

/// The events of each track from `pos` to the end of `s`: each chunk is
/// decoded, with running status reset, before the next one is read.
pub open spec fn tracks_from(s: Seq<u8>, pos: int, sc: &EventSchema) -> Result<
    Seq<Seq<EventFrame>>,
    (MidiParseErrorKind, int),
>
    decreases s.len() - pos,
{
    if pos >= s.len() {
        Ok(seq![])
    } else {
        match chunk_at(s, pos) {
            Err(e) => Err(e),
            Ok((a, z)) => match track_frames(s, a, z, None, sc) {
                Err(e) => Err(e),
                Ok(fs) => after(seq![fs], tracks_from(s, z, sc)),
            },
        }
    }
}

/// The index, counting from `i`, of the track whose events fail to decode,
/// where decoding from `pos` on fails inside a track rather than at a chunk header.
pub open spec fn failing_track(s: Seq<u8>, pos: int, sc: &EventSchema, i: nat) -> Option<nat>
    decreases s.len() - pos,
{
    if pos >= s.len() {
        None
    } else {
        match chunk_at(s, pos) {
            Err(_) => None,
            Ok((a, z)) => match track_frames(s, a, z, None, sc) {
                Err(_) => Some(i),
                Ok(_) => failing_track(s, z, sc, i + 1),
            },
        }
    }
}

/// Where the first failure of the file `s` lies: in which track, if in one.
pub open spec fn failure_track(s: Seq<u8>, sc: &EventSchema) -> Option<nat> {
    if header_of(s) is Err {
        None
    } else {
        failing_track(s, 14, sc, 0)
    }
}

/// The header and the events of each track of the file `s`, or the first failure.
pub open spec fn midi_of(s: Seq<u8>, sc: &EventSchema) -> Result<
    (MidiHeader, Seq<Seq<EventFrame>>),
    (MidiParseErrorKind, int),
> {
    match header_of(s) {
        Err(e) => Err(e),
        Ok(h) => match tracks_from(s, 14, sc) {
            Ok(ts) => Ok((h, ts)),
            Err(e) => Err(e),
        },
    }
}

/// An event ends after the byte it starts at.
pub proof fn lemma_frame_advances(
    s: Seq<u8>,
    pos: int,
    end: int,
    run: Option<u8>,
    sc: &EventSchema,
)
    requires
        0 <= pos <= end <= s.len(),
        event_frame(s, pos, end, run, sc) is Ok,
    ensures
        pos < event_frame(s, pos, end, run, sc)->Ok_0.data_end <= end,
{
    lemma_vlq_end_within(s.subrange(pos, end));
    let dl = vlq_decode(s.subrange(pos, end))->Some_0.1;
    let p = pos + dl;
    if s[p] < 0x80 {
    } else if is_channel_status(s[p]) {
    } else if s[p] == 0xFF {
        lemma_vlq_end_within(s.subrange(p + 2, end));
    } else {
        lemma_vlq_end_within(s.subrange(p + 1, end));
    }
}

/// Reads the chunk header at the cursor; gives the chunk's payload range.
fn read_chunk(buf: &[u8], state: &ParserState) -> (r: Result<(usize, usize), MidiParseError>)
    requires
        state.hi() == buf@.len(),
    ensures
        r is Err ==> r->Err_0.state.track_index() == state.track_index(),
        match chunk_at(buf@, state.pos()) {
            Ok((a, z)) => r is Ok && r->Ok_0.0 == a && r->Ok_0.1 == z,
            Err((k, p)) => failed(r, k, p),
        },
{
    proof {
        use_type_invariant(state);
    }
    let pos = state.curr();
    let len = buf.len();
    if len - pos < 4 {
        return Err(state.error(MidiParseErrorKind::EndOfBuffer));
    }
    if !(buf[pos] == 0x4D && buf[pos + 1] == 0x54 && buf[pos + 2] == 0x72 && buf[pos + 3] == 0x6B) {
        proof {
            assert(!(buf@.subrange(pos as int, pos + 4) =~= track_tag())) by {
                if buf@.subrange(pos as int, pos + 4) =~= track_tag() {
                    assert(buf@.subrange(pos as int, pos + 4)[1] == buf@[pos + 1]);
                    assert(buf@.subrange(pos as int, pos + 4)[2] == buf@[pos + 2]);
                    assert(buf@.subrange(pos as int, pos + 4)[3] == buf@[pos + 3]);
                    assert(buf@.subrange(pos as int, pos + 4)[0] == buf@[pos + 0]);
                }
            }
        }
        return Err(state.error(MidiParseErrorKind::InvalidChunkTag));
    }
    assert(buf@.subrange(pos as int, pos + 4) =~= track_tag());
    if len - pos < 8 {
        return Err(state.at(pos + 4).error(MidiParseErrorKind::EndOfBuffer));
    }
    let length = read_be(buf, pos + 4, 4);
    if length as usize > len - pos - 8 {
        return Err(state.at(pos + 8).error(MidiParseErrorKind::EndOfBuffer));
    }
    Ok((pos + 8, pos + 8 + length as usize))
}

/// Decodes the events of one track chunk.
#[derive(Debug)]
pub struct MidiTrackParser {
    pub midi_header: MidiHeader,
    pub state: ParserState,
}

impl MidiTrackParser {
    pub fn new(midi_header: MidiHeader, state: ParserState) -> (r: MidiTrackParser)
        ensures
            r.midi_header == midi_header,
            r.state.pos() == state.pos(),
            r.state.lo() == state.lo(),
            r.state.hi() == state.hi(),
            r.state.track_index() == state.track_index(),
    {
        MidiTrackParser { midi_header, state }
    }

    /// Decodes the events from the cursor to the end of the chunk, with no
    /// running status at the start.
    pub fn parse(&mut self, buf: &[u8], schema: &EventSchema) -> (r: Result<MidiTrack, MidiParseError>)
        requires
            old(self).state.hi() <= buf@.len(),
        ensures
            r is Err ==> r->Err_0.state.track_index() == old(self).state.track_index(),
            match track_frames(buf@, old(self).state.pos(), old(self).state.hi(), None, schema) {
                Ok(fs) => r is Ok && frames_match(r->Ok_0.events@, fs, buf@),
                Err((k, p)) => failed(r, k, p),
            },
    {
        let parser = MidiEventParser::new(schema);
        let mut track = MidiTrack::new();
        let mut running: Option<u8> = None;
        let ghost s = buf@;
        let ghost start = self.state.pos();
        let ghost end = self.state.hi();
        let ghost mut done: Seq<EventFrame> = seq![];
        proof {
            assert(done + track_frames(s, start, end, None, schema)->Ok_0 =~= track_frames(
                s,
                start,
                end,
                None,
                schema,
            )->Ok_0);
        }
        loop
            invariant
                s == buf@,
                parser.schema == schema,
                self.state.track_index() == old(self).state.track_index(),
                start == old(self).state.pos(),
                end == old(self).state.hi(),
                self.state.hi() == end,
                end <= buf@.len(),
                running is Some ==> is_channel_status(running->Some_0),
                frames_match(track.events@, done, s),
                track_frames(s, start, end, None, schema) == after(
                    done,
                    track_frames(s, self.state.pos(), end, running, schema),
                ),
            decreases end - self.state.pos(),
        {
            proof {
                use_type_invariant(&self.state);
            }
            if self.state.curr() >= self.state.end() {
                assert(done + seq![] =~= done);
                return Ok(track);
            }
            let ghost pos = self.state.pos();
            let res = parser.parse_event(buf, &mut self.state, running);
            let (event, next_running) = match res {
                Ok(v) => v,
                Err(e) => {
                    proof {
                        let err = event_frame(s, pos, end, running, schema)->Err_0;
                        assert(track_frames(s, pos, end, running, schema) == Err::<
                            Seq<EventFrame>,
                            (MidiParseErrorKind, int),
                        >(err));
                    }
                    return Err(e);
                },
            };
            proof {
                let f = event_frame(s, pos, end, running, schema)->Ok_0;
                lemma_frame_advances(s, pos, end, running, schema);
                let rest = track_frames(s, f.data_end, end, f.running, schema);
                assert(track_frames(s, pos, end, running, schema) == after(seq![f], rest));
                match rest {
                    Ok(fs) => {
                        assert(done + (seq![f] + fs) =~= done.push(f) + fs);
                    },
                    Err(_) => {},
                }
                done = done.push(f);
            }
            track.add_event(event);
            running = next_running;
        }
    }
}

/// Reads the chunk headers of a file.
#[derive(Debug, Clone)]
pub struct MidiTrackHeaderParser;

impl MidiTrackHeaderParser {
    /// Walks the chunks from the cursor to the end of the buffer and gives a
    /// track parser for each: its cursor's range starts at the chunk's header
    /// and ends with its payload, the cursor stands at the payload, and it is
    /// labelled with the track's index.
    pub fn parse(buf: &[u8], midi_header: MidiHeader, state: ParserState) -> (r: Result<
        Vec<MidiTrackParser>,
        MidiParseError,
    >)
        requires
            state.hi() == buf@.len(),
        ensures
            match chunk_spans(buf@, state.pos()) {
                Ok(spans) => r is Ok && r->Ok_0@.len() == spans.len() && forall|i: int|
                    0 <= i < spans.len() ==> (#[trigger] r->Ok_0@[i]).state.pos() == spans[i].0
                        && r->Ok_0@[i].state.lo() == spans[i].0 - 8 && r->Ok_0@[i].state.hi()
                        == spans[i].1 && r->Ok_0@[i].state.track_index() == Some(i as nat)
                        && r->Ok_0@[i].midi_header == midi_header,
                Err((k, p)) => failed(r, k, p),
            },
            r is Err ==> r->Err_0.state.track_index() == state.track_index(),
    {
        proof {
            use_type_invariant(&state);
        }
        let mut cursor = state.at(state.curr());
        let mut parsers: Vec<MidiTrackParser> = Vec::new();
        let ghost s = buf@;
        let ghost start = cursor.pos();
        let ghost mut done: Seq<(int, int)> = seq![];
        proof {
            assert(done + chunk_spans(s, start)->Ok_0 =~= chunk_spans(s, start)->Ok_0);
        }
        loop
            invariant
                s == buf@,
                start == state.pos(),
                cursor.hi() == buf@.len(),
                parsers@.len() == done.len(),
                forall|i: int|
                    0 <= i < done.len() ==> (#[trigger] parsers@[i]).state.pos() == done[i].0
                        && parsers@[i].state.lo() == done[i].0 - 8 && parsers@[i].state.hi()
                        == done[i].1 && parsers@[i].state.track_index() == Some(i as nat)
                        && parsers@[i].midi_header == midi_header,
                cursor.track_index() == state.track_index(),
                chunk_spans(s, start) == after(done, chunk_spans(s, cursor.pos())),
            decreases buf@.len() - cursor.pos(),
        {
            proof {
                use_type_invariant(&cursor);
            }
            if cursor.curr() >= cursor.end() {
                assert(done + seq![] =~= done);
                return Ok(parsers);
            }
            let ghost pos = cursor.pos();
            let (a, z) = match read_chunk(buf, &cursor) {
                Ok(v) => v,
                Err(e) => {
                    proof {
                        let err = chunk_at(s, pos)->Err_0;
                        assert(chunk_spans(s, pos) == Err::<Seq<(int, int)>, (MidiParseErrorKind, int)>(err));
                    }
                    return Err(e);
                },
            };
            proof {
                assert(chunk_spans(s, pos) == after(seq![(a as int, z as int)], chunk_spans(s, z as int)));
                let rest = chunk_spans(s, z as int);
                match rest {
                    Ok(fs) => {
                        assert(done + (seq![(a as int, z as int)] + fs) =~= done.push(
                            (a as int, z as int),
                        ) + fs);
                    },
                    Err(_) => {},
                }
                done = done.push((a as int, z as int));
            }
            let mut track_state = ParserState::for_track(parsers.len(), a - 8, z);
            track_state.forward(8);
            parsers.push(MidiTrackParser::new(midi_header, track_state));
            cursor = cursor.at(z);
        }
    }
}

/// Decodes whole files.
pub struct MidiParser;

impl MidiParser {
    /// Decodes the header, then each track chunk in turn. A failure carries
    /// its kind, its byte offset, and the index of the track it lies in, if any.
    pub fn parse(buf: &[u8], schema: &EventSchema) -> (r: Result<Midi, MidiParseError>)
        ensures
            r is Err ==> r->Err_0.state.track_index() == failure_track(buf@, schema),
            match midi_of(buf@, schema) {
                Ok((h, ts)) => r is Ok && r->Ok_0.header == h && r->Ok_0.tracks@.len() == ts.len()
                    && forall|i: int|
                    0 <= i < ts.len() ==> frames_match(
                        (#[trigger] r->Ok_0.tracks@[i]).events@,
                        ts[i],
                        buf@,
                    ),
                Err((k, p)) => failed(r, k, p),
            },
    {
        let mut state = ParserState::new(String::from_str("midi"), 0, buf.len());
        let header = MidiHeaderParser::parse(buf, &mut state)?;
        let mut midi = Midi::new(header);
        let ghost s = buf@;
        let ghost mut done: Seq<Seq<EventFrame>> = seq![];
        proof {
            assert(done + tracks_from(s, 14, schema)->Ok_0 =~= tracks_from(s, 14, schema)->Ok_0);
        }
        loop
            invariant
                s == buf@,
                header_of(s) == Ok::<MidiHeader, (MidiParseErrorKind, int)>(header),
                midi.header == header,
                state.hi() == buf@.len(),
                midi.tracks@.len() == done.len(),
                forall|i: int|
                    0 <= i < done.len() ==> frames_match(
                        (#[trigger] midi.tracks@[i]).events@,
                        done[i],
                        s,
                    ),
                tracks_from(s, 14, schema) == after(done, tracks_from(s, state.pos(), schema)),
                state.track_index() is None,
                failure_track(s, schema) == failing_track(s, state.pos(), schema, done.len()),
                done.len() == midi.tracks@.len(),
            decreases buf@.len() - state.pos(),
        {
            proof {
                use_type_invariant(&state);
            }
            if state.curr() >= state.end() {
                assert(done + seq![] =~= done);
                return Ok(midi);
            }
            let ghost pos = state.pos();
            let (a, z) = match read_chunk(buf, &state) {
                Ok(v) => v,
                Err(e) => {
                    proof {
                        let err = chunk_at(s, pos)->Err_0;
                        assert(tracks_from(s, pos, schema) == Err::<Seq<Seq<EventFrame>>, (MidiParseErrorKind, int)>(err));
                    }
                    return Err(e);
                },
            };
            let mut track_state = ParserState::for_track(midi.tracks.len(), a - 8, z);
            track_state.forward(8);
            let mut track_parser = MidiTrackParser::new(header, track_state);
            let track = match track_parser.parse(buf, schema) {
                Ok(t) => t,
                Err(e) => {
                    proof {
                        let err = track_frames(s, a as int, z as int, None, schema)->Err_0;
                        assert(tracks_from(s, pos, schema) == Err::<Seq<Seq<EventFrame>>, (MidiParseErrorKind, int)>(err));
                    }
                    return Err(e);
                },
            };
            proof {
                assert(tracks_from(s, pos, schema) == after(
                    seq![track_frames(s, a as int, z as int, None, schema)->Ok_0],
                    tracks_from(s, z as int, schema),
                ));
                let fs = track_frames(s, a as int, z as int, None, schema)->Ok_0;
                let rest = tracks_from(s, z as int, schema);
                match rest {
                    Ok(ts) => {
                        assert(done + (seq![fs] + ts) =~= done.push(fs) + ts);
                    },
                    Err(_) => {},
                }
                done = done.push(fs);
            }
            midi.add_track(track);
            state = state.at(z);
        }
    }
}

} // verus!

verus! {

/// The bytes of events written one after another, each with its status byte.
pub open spec fn events_bytes(events: Seq<MidiEvent>) -> Seq<u8>
    decreases events.len(),
{
    if events.len() == 0 {
        seq![]
    } else {
        vlq_encode(events[0].delta_time.0@.0) + message_bytes(events[0].message) + events_bytes(
            events.drop_first(),
        )
    }
}

/// Every event of the track that fills `[pos, end)` was written the plain way.
pub open spec fn track_is_plain(
    s: Seq<u8>,
    pos: int,
    end: int,
    run: Option<u8>,
    sc: &EventSchema,
) -> bool
    decreases end - pos,
{
    if pos >= end {
        true
    } else {
        match event_frame(s, pos, end, run, sc) {
            Err(_) => true,
            Ok(f) => {
                if f.data_end <= pos {
                    true
                } else {
                    frame_is_plain(s, pos, f) && track_is_plain(s, f.data_end, end, f.running, sc)
                }
            },
        }
    }
}

/// A track decoded from plainly written events writes back exactly its chunk's bytes.
pub proof fn lemma_track_round_trip(
    s: Seq<u8>,
    pos: int,
    end: int,
    run: Option<u8>,
    sc: &EventSchema,
    events: Seq<MidiEvent>,
)
    requires
        0 <= pos <= end <= s.len(),
        track_frames(s, pos, end, run, sc) is Ok,
        frames_match(events, track_frames(s, pos, end, run, sc)->Ok_0, s),
        track_is_plain(s, pos, end, run, sc),
    ensures
        events_bytes(events) == s.subrange(pos, end),
    decreases end - pos,
{
    if pos >= end {
        assert(s.subrange(pos, end) =~= Seq::<u8>::empty());
    } else {
        let f = event_frame(s, pos, end, run, sc)->Ok_0;
        lemma_frame_advances(s, pos, end, run, sc);
        let rest = track_frames(s, f.data_end, end, f.running, sc)->Ok_0;
        let fs = track_frames(s, pos, end, run, sc)->Ok_0;
        assert(fs == seq![f] + rest);
        assert(fs[0] == f);
        assert(event_matches(events[0], f, s));
        lemma_event_round_trip(s, pos, end, run, sc, events[0]);
        let tail = events.drop_first();
        assert forall|i: int| 0 <= i < tail.len() implies event_matches(
            #[trigger] tail[i],
            rest[i],
            s,
        ) by {
            assert(tail[i] == events[i + 1]);
            assert(rest[i] == fs[i + 1]);
        }
        lemma_track_round_trip(s, f.data_end, end, f.running, sc, tail);
        assert(s.subrange(pos, f.data_end) + s.subrange(f.data_end, end) =~= s.subrange(pos, end));
    }
}

} // verus!
