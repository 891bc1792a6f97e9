use vstd::prelude::*;

use crate::channel_message::{ChannelMessage, channel_of, spec_is_note_off, spec_is_note_on};
use crate::error::MidiParseErrorKind;
use crate::midi_event::{MidiEvent, MidiMessage, event_tempo};
use crate::midi_header::{MidiDivision, MidiFormat, MidiHeader};
use crate::midi_track::{Midi, MidiTrack};

verus! {

/// The tempo in effect before any tempo event: 500,000 microseconds per
/// quarter note, which is 120 beats per minute.
pub const DEFAULT_TEMPO: u32 = 500_000;

/// The tempo in effect after the first `n` events, in microseconds per quarter note.
pub open spec fn tempo_after(events: Seq<MidiEvent>, n: nat) -> nat
    decreases n,
{
    if n == 0 {
        DEFAULT_TEMPO as nat
    } else {
        match event_tempo(events[n - 1]) {
            Some(t) => t.0@ as nat,
            None => tempo_after(events, (n - 1) as nat),
        }
    }
}

/// The time at which the `n`th event (counting from one) occurs, in
/// microseconds times ticks per quarter note: each delta counts at the tempo
/// in effect before its event, so a tempo event's new tempo applies from the
/// next event on. Divided by ticks per quarter note and by a million, it is
/// the time in seconds.
pub open spec fn elapsed(events: Seq<MidiEvent>, n: nat) -> nat
    decreases n,
{
    if n == 0 {
        0
    } else {
        elapsed(events, (n - 1) as nat) + events[n - 1].delta_time.0@.0 * tempo_after(
            events,
            (n - 1) as nat,
        )
    }
}

/// A message with the time at which it occurs, in microseconds times the
/// track's ticks per quarter note.
#[derive(Debug, Clone, PartialEq, Eq)]
pub struct AbsoluteMidiEvent {
    pub time: u128,
    pub message: MidiMessage,
}

impl AbsoluteMidiEvent {
    pub fn new(time: u128, message: MidiMessage) -> (r: AbsoluteMidiEvent)
        ensures
            r == (AbsoluteMidiEvent { time, message }),
    {
        AbsoluteMidiEvent { time, message }
    }

    /// The time in whole microseconds, for a track of `time_div` ticks per quarter note.
    pub fn micros(&self, time_div: u16) -> (r: u128)
        requires
            time_div > 0,
        ensures
            r == self.time / (time_div as u128),
    {
        self.time / time_div as u128
    }
}

/// The events of a track with the times at which they occur.
#[derive(Debug, Clone, PartialEq, Eq)]
pub struct AbsoluteMidiTrack {
    pub events: Vec<AbsoluteMidiEvent>,
    pub time_div: u16,
}

/// The events of a track with the times at which they occur.
pub open spec fn timed_events(events: Seq<MidiEvent>) -> Seq<AbsoluteMidiEvent> {
    Seq::new(
        events.len(),
        |i: int| AbsoluteMidiEvent { time: elapsed(events, (i + 1) as nat) as u128, message: events[i].message },
    )
}

/// Times that never decrease along the sequence.
pub open spec fn times_ordered(events: Seq<AbsoluteMidiEvent>) -> bool {
    forall|i: int, j: int| 0 <= i <= j < events.len() ==> events[i].time <= events[j].time
}

/// Elapsed time never decreases from one event to a later one.
pub proof fn lemma_elapsed_monotone(events: Seq<MidiEvent>, i: nat, j: nat)
    requires
        i <= j,
    ensures
        elapsed(events, i) <= elapsed(events, j),
    decreases j - i,
{
    if i < j {
        lemma_elapsed_monotone(events, i, (j - 1) as nat);
        assert(events[j - 1].delta_time.0@.0 * tempo_after(events, (j - 1) as nat) >= 0)
            by (nonlinear_arith);
    }
}

/// The time of each event of `track`: the `k`th is `elapsed` over the first `k + 1` events.
pub fn event_times(track: &MidiTrack) -> (r: Vec<u128>)
    ensures
        r@.len() == track.events@.len(),
        forall|k: int| 0 <= k < r@.len() ==> #[trigger] r@[k] == elapsed(track.events@, (k + 1) as nat),
{
    let mut times: Vec<u128> = Vec::new();
    let mut tempo: u32 = DEFAULT_TEMPO;
    let mut time: u128 = 0;
    let mut i: usize = 0;
    let n = track.events.len();
    let ghost evs = track.events@;
    while i < n
        invariant
            evs == track.events@,
            n == evs.len(),
            i <= n,
            times@.len() == i,
            tempo == tempo_after(evs, i as nat),
            tempo < 0x100_0000,
            time == elapsed(evs, i as nat),
            time <= i * 0x10_0000_0000_0000,
            forall|k: int| 0 <= k < i ==> #[trigger] times@[k] == elapsed(evs, (k + 1) as nat),
        decreases n - i,
    {
        let event = &track.events[i];
        let ticks = event.delta_time.ticks();
        proof {
            assert(ticks * tempo <= 0x10_0000_0000_0000) by (nonlinear_arith)
                requires
                    ticks < 0x1000_0000,
                    tempo < 0x100_0000,
            ;
            assert(i < 0x1_0000_0000_0000_0000);
            assert((i + 1) * 0x10_0000_0000_0000 < 0x1_0000_0000_0000_0000_0000_0000_0000_0000)
                by (nonlinear_arith)
                requires
                    i < 0x1_0000_0000_0000_0000,
            ;
        }
        time = time + ticks as u128 * tempo as u128;
        times.push(time);
        match event.get_tempo() {
            Some(t) => {
                tempo = t.micros();
            },
            None => {},
        }
        i = i + 1;
    }
    times
}

impl AbsoluteMidiTrack {
    pub fn add_event(&mut self, event: AbsoluteMidiEvent)
        ensures
            final(self).events@ == old(self).events@.push(event),
            final(self).time_div == old(self).time_div,
    {
        self.events.push(event);
    }

    /// Times each event of `track`, counting ticks at `division` ticks per
    /// quarter note and at the tempo in effect; `MissingTempoMap` where the
    /// division is not in ticks per quarter note, or is zero.
    pub fn from_track(track: MidiTrack, division: MidiDivision) -> (r: Result<
        AbsoluteMidiTrack,
        MidiParseErrorKind,
    >)
        ensures
            match division {
                MidiDivision::MetricTime(tpq) if tpq > 0 => r is Ok && r->Ok_0.time_div == tpq
                    && r->Ok_0.events@ == timed_events(track.events@) && times_ordered(
                    r->Ok_0.events@,
                ),
                _ => r == Err::<AbsoluteMidiTrack, MidiParseErrorKind>(
                    MidiParseErrorKind::MissingTempoMap,
                ),
            },
    {
        let tpq = match division {
            MidiDivision::MetricTime(v) => v,
            MidiDivision::SubDivision(_, _) => {
                return Err(MidiParseErrorKind::MissingTempoMap);
            },
        };
        if tpq == 0 {
            return Err(MidiParseErrorKind::MissingTempoMap);
        }
        let times = event_times(&track);
        let ghost evs = track.events@;
        let n = track.events.len();
        let mut rest = track.events;
        let mut reversed: Vec<MidiEvent> = Vec::new();
        while rest.len() > 0
            invariant
                rest@.len() + reversed@.len() == n,
                n == evs.len(),
                forall|k: int| 0 <= k < rest@.len() ==> #[trigger] rest@[k] == evs[k],
                forall|k: int|
                    0 <= k < reversed@.len() ==> #[trigger] reversed@[k] == evs[n - 1 - k],
            decreases rest@.len(),
        {
            match rest.pop() {
                Some(e) => reversed.push(e),
                None => {},
            }
        }
        let mut out = AbsoluteMidiTrack { events: Vec::new(), time_div: tpq };
        while reversed.len() > 0
            invariant
                out.events@.len() + reversed@.len() == n,
                n == evs.len(),
                times@.len() == n,
                out.time_div == tpq,
                forall|k: int|
                    0 <= k < reversed@.len() ==> #[trigger] reversed@[k] == evs[n - 1 - k],
                forall|k: int|
                    0 <= k < out.events@.len() ==> (#[trigger] out.events@[k]).time == times@[k]
                        && out.events@[k].message == evs[k].message,
            decreases reversed@.len(),
        {
            let k = out.events.len();
            match reversed.pop() {
                Some(e) => out.add_event(AbsoluteMidiEvent::new(times[k], e.message)),
                None => {},
            }
        }
        proof {
            assert forall|a: int, b: int|
                0 <= a <= b < out.events@.len() implies out.events@[a].time
                <= out.events@[b].time by {
                lemma_elapsed_monotone(evs, (a + 1) as nat, (b + 1) as nat);
            }
            assert(out.events@ =~= timed_events(evs));
        }
        Ok(out)
    }

    /// The notes of the track, paired as `pair_notes` does.
    pub fn notes(&self) -> (r: Vec<Note>)
        ensures
            r@ == paired_notes(self.events@),
    {
        pair_notes(self.events.as_slice())
    }
}

/// A sounded note: pitch, the velocity it was struck with, and its start and end times.
#[derive(Debug, Clone, Copy, PartialEq, Eq, Structural)]
pub struct Note {
    pub pitch: u8,
    pub velocity: u8,
    pub start_time: u128,
    pub end_time: u128,
}

/// Every note that the pairing completes ends no earlier than it starts,
/// where the events' times never decrease.
pub proof fn lemma_notes_end_after_start(events: Seq<AbsoluteMidiEvent>)
    requires
        times_ordered(events),
    ensures
        forall|i: int|
            0 <= i < paired_notes(events).len() ==> (#[trigger] paired_notes(events)[i]).start_time
                <= paired_notes(events)[i].end_time,
{
    lemma_pairing_ordered(events, events.len());
}

proof fn lemma_pairing_ordered(events: Seq<AbsoluteMidiEvent>, n: nat)
    requires
        times_ordered(events),
        n <= events.len(),
    ensures
        forall|i: int|
            0 <= i < pairing(events, n).1.len() ==> (#[trigger] pairing(events, n).1[i]).start_time
                <= pairing(events, n).1[i].end_time,
        forall|k: int, j: int|
            pairing(events, n).0.contains_key(k) && n <= j < events.len() ==> (
            #[trigger] pairing(events, n).0[k]).0 <= (#[trigger] events[j]).time,
        n > 0 ==> forall|k: int|
            #[trigger] pairing(events, n).0.contains_key(k) ==> pairing(events, n).0[k].0 <= events[n
                - 1].time,
    decreases n,
{
    if n > 0 {
        lemma_pairing_ordered(events, (n - 1) as nat);
        let before = pairing(events, (n - 1) as nat);
        let e = events[n - 1];
        assert forall|k: int| #[trigger] before.0.contains_key(k) implies before.0[k].0 <= e.time by {
            assert(n - 1 <= n - 1 < events.len());
            assert(before.0[k].0 <= events[n - 1].time);
        }
    }
}

impl Note {
    /// The note that a NoteOn or NoteOff describes, between the given times.
    pub fn from_message(message: ChannelMessage, start_time: u128, end_time: u128) -> (r: Option<Note>)
        ensures
            (message is NoteOn || message is NoteOff) ==> r == Some(
                Note {
                    pitch: note_pitch(message),
                    velocity: note_velocity(message),
                    start_time,
                    end_time,
                },
            ),
            !(message is NoteOn || message is NoteOff) ==> r is None,
    {
        match message {
            ChannelMessage::NoteOn(e) => Some(Note::new(e.note.value() as u8, e.velocity.value() as u8, start_time, end_time)),
            ChannelMessage::NoteOff(e) => Some(Note::new(e.note.value() as u8, e.velocity.value() as u8, start_time, end_time)),
            _ => None,
        }
    }

    pub fn new(pitch: u8, velocity: u8, start_time: u128, end_time: u128) -> (r: Note)
        ensures
            r == (Note { pitch, velocity, start_time, end_time }),
    {
        Note { pitch, velocity, start_time, end_time }
    }
}

/// The notes of one track, with the track's ticks per quarter note.
#[derive(Debug, Clone, PartialEq, Eq)]
pub struct NoteSeq {
    pub notes: Vec<Note>,
    pub time_div: u16,
}

impl NoteSeq {
    /// Times the events of `track` by the header's division and pairs its notes.
    pub fn from_track(header: &MidiHeader, track: MidiTrack) -> (r: Result<NoteSeq, MidiParseErrorKind>)
        ensures
            match header.division {
                MidiDivision::MetricTime(tpq) if tpq > 0 => r is Ok && r->Ok_0.time_div == tpq
                    && r->Ok_0.notes@ == paired_notes(timed_events(track.events@)) && forall|i: int|
                    0 <= i < r->Ok_0.notes@.len() ==> (#[trigger] r->Ok_0.notes@[i]).start_time
                        <= r->Ok_0.notes@[i].end_time,
                _ => r == Err::<NoteSeq, MidiParseErrorKind>(MidiParseErrorKind::MissingTempoMap),
            },
    {
        let abs = AbsoluteMidiTrack::from_track(track, header.division)?;
        proof {
            lemma_notes_end_after_start(abs.events@);
        }
        Ok(NoteSeq { notes: abs.notes(), time_div: abs.time_div })
    }
}

/// The notes of every track of a file, in track order.
#[derive(Debug, Clone, PartialEq, Eq)]
pub struct TrackSeq {
    pub tracks: Vec<NoteSeq>,
    pub time_div: u16,
    pub format: MidiFormat,
}

impl TrackSeq {
    /// Times and pairs the notes of each track of `midi`, each track on its own tempo.
    pub fn from_midi(midi: Midi) -> (r: Result<TrackSeq, MidiParseErrorKind>)
        ensures
            match midi.header.division {
                MidiDivision::MetricTime(tpq) if tpq > 0 => r is Ok && r->Ok_0.time_div == tpq
                    && r->Ok_0.format == midi.header.format && r->Ok_0.tracks@.len()
                    == midi.tracks@.len() && forall|i: int|
                    0 <= i < midi.tracks@.len() ==> (#[trigger] r->Ok_0.tracks@[i]).notes@
                        == paired_notes(timed_events(midi.tracks@[i].events@)),
                _ => r == Err::<TrackSeq, MidiParseErrorKind>(MidiParseErrorKind::MissingTempoMap),
            },
    {
        let header = midi.header;
        let tpq = match header.division {
            MidiDivision::MetricTime(v) => v,
            MidiDivision::SubDivision(_, _) => {
                return Err(MidiParseErrorKind::MissingTempoMap);
            },
        };
        if tpq == 0 {
            return Err(MidiParseErrorKind::MissingTempoMap);
        }
        let ghost ts = midi.tracks@;
        let n = midi.tracks.len();
        let mut rest = midi.tracks;
        let mut reversed: Vec<MidiTrack> = Vec::new();
        while rest.len() > 0
            invariant
                rest@.len() + reversed@.len() == n,
                n == ts.len(),
                forall|k: int| 0 <= k < rest@.len() ==> #[trigger] rest@[k] == ts[k],
                forall|k: int| 0 <= k < reversed@.len() ==> #[trigger] reversed@[k] == ts[n - 1 - k],
            decreases rest@.len(),
        {
            match rest.pop() {
                Some(t) => reversed.push(t),
                None => {},
            }
        }
        let mut out = TrackSeq { tracks: Vec::new(), time_div: tpq, format: header.format };
        while reversed.len() > 0
            invariant
                out.tracks@.len() + reversed@.len() == n,
                n == ts.len(),
                header.division == MidiDivision::MetricTime(tpq),
                tpq > 0,
                out.time_div == tpq,
                out.format == header.format,
                forall|k: int| 0 <= k < reversed@.len() ==> #[trigger] reversed@[k] == ts[n - 1 - k],
                forall|k: int|
                    0 <= k < out.tracks@.len() ==> (#[trigger] out.tracks@[k]).notes@ == paired_notes(
                        timed_events(ts[k].events@),
                    ),
            decreases reversed@.len(),
        {
            match reversed.pop() {
                Some(t) => {
                    match NoteSeq::from_track(&header, t) {
                        Ok(seq) => out.tracks.push(seq),
                        Err(e) => {
                            return Err(e);
                        },
                    }
                },
                None => {},
            }
        }
        Ok(out)
    }
}

/// The pitch of a NoteOn or NoteOff.
pub open spec fn note_pitch(c: ChannelMessage) -> u8 {
    match c {
        ChannelMessage::NoteOn(e) => e.note@ as u8,
        ChannelMessage::NoteOff(e) => e.note@ as u8,
        _ => 0,
    }
}

/// The velocity of a NoteOn or NoteOff.
pub open spec fn note_velocity(c: ChannelMessage) -> u8 {
    match c {
        ChannelMessage::NoteOn(e) => e.velocity@ as u8,
        ChannelMessage::NoteOff(e) => e.velocity@ as u8,
        _ => 0,
    }
}

/// The (channel, pitch) pair a note message refers to, as one number below 2048.
pub open spec fn note_key(c: ChannelMessage) -> int {
    channel_of(c)@ * 128 + note_pitch(c)
}

/// Notes struck and not yet released, by key: start time and velocity; and
/// the notes completed so far.
pub type PairingState = (Map<int, (u128, u8)>, Seq<Note>);

/// One event's effect on the pairing: a NoteOn of positive velocity (re)opens
/// its key, dropping a note left open there; a release closes the open note
/// of its key into a Note, or does nothing where none is open.
pub open spec fn pair_step(st: PairingState, e: AbsoluteMidiEvent) -> PairingState {
    match e.message {
        MidiMessage::ChannelMessage(c) => {
            let k = note_key(c);
            if spec_is_note_on(c) {
                (st.0.insert(k, (e.time, note_velocity(c))), st.1)
            } else if spec_is_note_off(c) && st.0.contains_key(k) {
                (
                    st.0.remove(k),
                    st.1.push(
                        Note {
                            pitch: note_pitch(c),
                            velocity: st.0[k].1,
                            start_time: st.0[k].0,
                            end_time: e.time,
                        },
                    ),
                )
            } else {
                st
            }
        },
        _ => st,
    }
}

/// The pairing after the first `n` events.
pub open spec fn pairing(events: Seq<AbsoluteMidiEvent>, n: nat) -> PairingState
    decreases n,
{
    if n == 0 {
        (Map::empty(), seq![])
    } else {
        pair_step(pairing(events, (n - 1) as nat), events[n - 1])
    }
}

/// The notes completed over a whole track, in the order they end; notes
/// still open at the end of the track are dropped.
pub open spec fn paired_notes(events: Seq<AbsoluteMidiEvent>) -> Seq<Note> {
    pairing(events, events.len()).1
}

fn key_of(c: &ChannelMessage) -> (r: usize)
    requires
        c is NoteOn || c is NoteOff,
    ensures
        r == note_key(*c),
        r < 2048,
{
    let ch = c.event_channel();
    let pitch = match c {
        ChannelMessage::NoteOn(e) => e.note.value() as u8,
        ChannelMessage::NoteOff(e) => e.note.value() as u8,
        _ => 0,
    };
    ch as usize * 128 + pitch as usize
}

/// Pairs each release with the note open on its channel and pitch.
pub fn pair_notes(events: &[AbsoluteMidiEvent]) -> (r: Vec<Note>)
    ensures
        r@ == paired_notes(events@),
{
    let mut pending: Vec<Option<(u128, u8)>> = Vec::new();
    let mut k: usize = 0;
    while k < 2048
        invariant
            k <= 2048,
            pending@.len() == k,
            forall|j: int| 0 <= j < k ==> pending@[j] is None,
        decreases 2048 - k,
    {
        pending.push(None);
        k = k + 1;
    }
    let mut notes: Vec<Note> = Vec::new();
    let mut i: usize = 0;
    while i < events.len()
        invariant
            i <= events@.len(),
            pending@.len() == 2048,
            notes@ == pairing(events@, i as nat).1,
            forall|j: int| #[trigger]
                pairing(events@, i as nat).0.contains_key(j) ==> 0 <= j < 2048,
            forall|j: int|
                0 <= j < 2048 ==> #[trigger] pending@[j] == (if pairing(
                    events@,
                    i as nat,
                ).0.contains_key(j) {
                    Some(pairing(events@, i as nat).0[j])
                } else {
                    None
                }),
        decreases events@.len() - i,
    {
        let e = &events[i];
        let ghost before = pairing(events@, i as nat);
        match &e.message {
            MidiMessage::ChannelMessage(c) => {
                if c.is_note_on_event() {
                    let key = key_of(c);
                    let v = match c {
                        ChannelMessage::NoteOn(n) => n.velocity.value() as u8,
                        _ => 0,
                    };
                    pending.set(key, Some((e.time, v)));
                } else if c.is_note_off_event() {
                    let key = key_of(c);
                    match pending[key] {
                        Some((start, velocity)) => {
                            let pitch = match c {
                                ChannelMessage::NoteOn(n) => n.note.value() as u8,
                                ChannelMessage::NoteOff(n) => n.note.value() as u8,
                                _ => 0,
                            };
                            notes.push(Note::new(pitch, velocity, start, e.time));
                            pending.set(key, None);
                        },
                        None => {},
                    }
                }
            },
            _ => {},
        }
        i = i + 1;
        proof {
            let after = pairing(events@, i as nat);
            assert(after == pair_step(before, events@[i - 1]));
        }
    }
    notes
}

} // verus!
