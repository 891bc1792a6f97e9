use rmidirs::channel_message::{ChannelMessage, NoteOff, NoteOn};
use rmidirs::error::MidiParseErrorKind;
use rmidirs::meta_message::{MetaMessage, Tempo};
use rmidirs::midi_event::{DeltaTime, MidiEvent, MidiMessage};
use rmidirs::midi_header::MidiDivision;
use rmidirs::midi_track::MidiTrack;
use rmidirs::primitive::M3Byte;
use rmidirs::timeline::{pair_notes, AbsoluteMidiEvent, AbsoluteMidiTrack, Note};

fn note_on(ch: u8, pitch: u8, vel: u8) -> MidiMessage {
    MidiMessage::ChannelMessage(ChannelMessage::NoteOn(NoteOn::new(ch, pitch, vel)))
}

fn note_off(ch: u8, pitch: u8) -> MidiMessage {
    MidiMessage::ChannelMessage(ChannelMessage::NoteOff(NoteOff::new(ch, pitch, 0)))
}

fn tempo(micros: u32) -> MidiMessage {
    MidiMessage::MetaMessage(MetaMessage::Tempo(Tempo::new(M3Byte::new(micros))))
}

fn track(events: Vec<(u32, MidiMessage)>) -> MidiTrack {
    let mut t = MidiTrack::new();
    for (d, m) in events {
        t.add_event(MidiEvent::new(DeltaTime::from_ticks(d), m));
    }
    t
}

fn seconds(e: &AbsoluteMidiEvent, tpq: u16) -> f64 {
    e.time as f64 / tpq as f64 / 1_000_000.0
}

#[test]
fn one_quarter_at_default_tempo_is_half_a_second() {
    let t = track(vec![(480, note_on(0, 60, 100))]);
    let abs = AbsoluteMidiTrack::from_track(t, MidiDivision::MetricTime(480)).unwrap();
    assert_eq!(abs.events[0].time, 480 * 500_000);
    assert_eq!(abs.events[0].micros(480), 500_000);
    assert_eq!(seconds(&abs.events[0], 480), 0.5);
}

#[test]
fn tempo_change_applies_from_next_event() {
    let t = track(vec![(480, tempo(1_000_000)), (480, note_on(0, 60, 1)), (240, note_off(0, 60))]);
    let abs = AbsoluteMidiTrack::from_track(t, MidiDivision::MetricTime(480)).unwrap();
    let us: Vec<u128> = abs.events.iter().map(|e| e.micros(480)).collect();
    assert_eq!(us, vec![500_000, 1_500_000, 2_000_000]);
}

#[test]
fn smpte_division_has_no_tempo_map() {
    let t = track(vec![(10, note_on(0, 60, 1))]);
    assert_eq!(
        AbsoluteMidiTrack::from_track(t, MidiDivision::SubDivision(-25, 40)).err(),
        Some(MidiParseErrorKind::MissingTempoMap)
    );
    let t = track(vec![(10, note_on(0, 60, 1))]);
    assert_eq!(
        AbsoluteMidiTrack::from_track(t, MidiDivision::MetricTime(0)).err(),
        Some(MidiParseErrorKind::MissingTempoMap)
    );
}

#[test]
fn note_on_then_off_pairs() {
    let events = vec![
        AbsoluteMidiEvent::new(0, note_on(0, 60, 100)),
        AbsoluteMidiEvent::new(1_500_000, note_off(0, 60)),
    ];
    assert_eq!(pair_notes(&events), vec![Note::new(60, 100, 0, 1_500_000)]);
}

#[test]
fn unmatched_trailing_note_on_is_dropped() {
    let events = vec![AbsoluteMidiEvent::new(0, note_on(0, 60, 100))];
    assert!(pair_notes(&events).is_empty());
}

#[test]
fn velocity_zero_releases_and_orphans_are_ignored() {
    let events = vec![
        AbsoluteMidiEvent::new(5, note_off(2, 61)),
        AbsoluteMidiEvent::new(10, note_on(1, 61, 90)),
        AbsoluteMidiEvent::new(20, note_on(2, 61, 70)),
        AbsoluteMidiEvent::new(30, note_on(1, 61, 0)),
        AbsoluteMidiEvent::new(40, note_off(2, 61)),
    ];
    assert_eq!(pair_notes(&events), vec![Note::new(61, 90, 10, 30), Note::new(61, 70, 20, 40)]);
}

#[test]
fn restruck_note_drops_earlier_one() {
    let events = vec![
        AbsoluteMidiEvent::new(0, note_on(0, 64, 50)),
        AbsoluteMidiEvent::new(10, note_on(0, 64, 60)),
        AbsoluteMidiEvent::new(20, note_off(0, 64)),
    ];
    assert_eq!(pair_notes(&events), vec![Note::new(64, 60, 10, 20)]);
}

#[test]
fn track_notes_from_decoded_times() {
    let t = track(vec![(0, note_on(0, 60, 100)), (720, note_off(0, 60))]);
    let abs = AbsoluteMidiTrack::from_track(t, MidiDivision::MetricTime(480)).unwrap();
    let notes = abs.notes();
    assert_eq!(notes.len(), 1);
    assert_eq!(notes[0].start_time, 0);
    assert_eq!(notes[0].end_time / 480, 750_000);
}
