use vstd::prelude::*;

use crate::midi_event::{MidiEvent, event_tempo};
use crate::midi_header::MidiHeader;
use crate::meta_message::Tempo;

verus! {

/// The events of one `MTrk` chunk, in file order.
#[derive(Debug, Clone, PartialEq, Eq)]
pub struct MidiTrack {
    pub events: Vec<MidiEvent>,
}

/// The index of the first tempo event at or after `from`, if any.
pub open spec fn first_tempo_from(events: Seq<MidiEvent>, from: int) -> Option<int>
    decreases events.len() - from,
{
    if from >= events.len() || from < 0 {
        None
    } else if event_tempo(events[from]) is Some {
        Some(from)
    } else {
        first_tempo_from(events, from + 1)
    }
}

impl MidiTrack {
    /// A track with no events.
    pub fn new() -> (r: MidiTrack)
        ensures
            r.events@.len() == 0,
    {
        MidiTrack { events: Vec::new() }
    }

    /// Adds an event at the end of the track.
    pub fn add_event(&mut self, event: MidiEvent)
        ensures
            final(self).events@ == old(self).events@.push(event),
    {
        self.events.push(event);
    }

    /// A cursor at the track's first event.
    pub fn iter(&self) -> (r: MidiTrackIter<'_>)
        ensures
            r.events@ == self.events@,
            r.top == 0,
    {
        MidiTrackIter { events: self.events.as_slice(), top: 0 }
    }

    pub fn len(&self) -> (r: usize)
        ensures
            r == self.events@.len(),
    {
        self.events.len()
    }
}

/// A cursor over the events of a track.
pub struct MidiTrackIter<'a> {
    pub events: &'a [MidiEvent],
    pub top: usize,
}

impl<'a> MidiTrackIter<'a> {
    /// The event at the cursor, moving the cursor on; `None` past the last event.
    pub fn next_event(&mut self) -> (r: Option<&'a MidiEvent>)
        ensures
            final(self).events@ == old(self).events@,
            old(self).top < old(self).events@.len() ==> r == Some(&old(self).events@[old(
                self,
            ).top as int]) && final(self).top == old(self).top + 1,
            old(self).top >= old(self).events@.len() ==> r is None && final(self).top == old(
                self,
            ).top,
    {
        if self.top < self.events.len() {
            let e = &self.events[self.top];
            self.top = self.top + 1;
            Some(e)
        } else {
            None
        }
    }

    /// The tempo of the first tempo event at or after the cursor.
    pub fn get_tempo(&self) -> (r: Option<Tempo>)
        ensures
            r == match first_tempo_from(self.events@, self.top as int) {
                Some(i) => event_tempo(self.events@[i]),
                None => None::<Tempo>,
            },
    {
        let mut i = self.top;
        while i < self.events.len()
            invariant
                self.top <= i,
                first_tempo_from(self.events@, self.top as int) == first_tempo_from(
                    self.events@,
                    i as int,
                ),
            decreases self.events@.len() - i,
        {
            let t = self.events[i].get_tempo();
            if t.is_some() {
                return t;
            }
            i = i + 1;
        }
        None
    }
}

/// A decoded file: its header and its tracks in file order.
#[derive(Debug, Clone, PartialEq, Eq)]
pub struct Midi {
    pub header: MidiHeader,
    pub tracks: Vec<MidiTrack>,
}

impl Midi {
    pub fn new(header: MidiHeader) -> (r: Midi)
        ensures
            r.header == header,
            r.tracks@.len() == 0,
    {
        Midi { header, tracks: Vec::new() }
    }

    pub fn add_header(&mut self, header: MidiHeader)
        ensures
            final(self).header == header,
            final(self).tracks@ == old(self).tracks@,
    {
        self.header = header;
    }

    pub fn header(&self) -> (r: &MidiHeader)
        ensures
            *r == self.header,
    {
        &self.header
    }

    /// Adds a track after the others.
    pub fn add_track(&mut self, track: MidiTrack)
        ensures
            final(self).header == old(self).header,
            final(self).tracks@ == old(self).tracks@.push(track),
    {
        self.tracks.push(track);
    }

    pub fn tracks(&self) -> (r: &Vec<MidiTrack>)
        ensures
            *r == self.tracks,
    {
        &self.tracks
    }

    /// The track at `index`, if there is one.
    pub fn track(&self, index: usize) -> (r: Option<&MidiTrack>)
        ensures
            index < self.tracks@.len() ==> r == Some(&self.tracks@[index as int]),
            index >= self.tracks@.len() ==> r is None,
    {
        if index < self.tracks.len() {
            Some(&self.tracks[index])
        } else {
            None
        }
    }

    /// Whether the file holds as many tracks as its header announces.
    pub fn track_count_matches(&self) -> (r: bool)
        ensures
            r == (self.tracks@.len() == self.header.ntrk),
    {
        self.tracks.len() == self.header.ntrk as usize
    }
}

} // verus!
