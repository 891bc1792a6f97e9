use rmidirs::channel_message::{ChannelMessage, Controller, NoteOn};
use rmidirs::error::MidiParseErrorKind;
use rmidirs::functions::{masked, masked_number, number, ByteEncodingFormat};
use rmidirs::meta_message::{MetaMessage, Tempo};
use rmidirs::midi_event::{DeltaTime, MidiEvent, MidiMessage};
use rmidirs::midi_header::{MidiDivision, MidiFormat, MidiHeader};
use rmidirs::midi_track::{Midi, MidiTrack};
use rmidirs::primitive::{M3Byte, MNBits};
use rmidirs::reader::{Buffer, FileSrcType, Local, MidiFileReader};
use rmidirs::schema::EventSchema;
use rmidirs::timeline::{Note, NoteSeq, TrackSeq};

fn small_file() -> Vec<u8> {
    let mut out = vec![b'M', b'T', b'h', b'd', 0, 0, 0, 6, 0, 0, 0, 1, 0x01, 0xE0];
    let track = [0x00, 0x90, 60, 100, 0x83, 0x60, 0x80, 60, 0x40, 0x00, 0xFF, 0x2F, 0x00];
    out.extend_from_slice(b"MTrk");
    out.extend_from_slice(&(track.len() as u32).to_be_bytes());
    out.extend_from_slice(&track);
    out
}

#[test]
fn numbers_in_both_orders() {
    assert_eq!(number(&[0x01, 0x02], ByteEncodingFormat::BigEndian), 0x0102);
    assert_eq!(number(&[0x01, 0x02], ByteEncodingFormat::LittleEndian), 0x0201);
    assert_eq!(number(&[0, 0, 0, 6], ByteEncodingFormat::BigEndian), 6);
    assert_eq!(number(&[0xEF, 0xBE, 0xAD, 0xDE], ByteEncodingFormat::LittleEndian), 0xDEAD_BEEF);
    assert_eq!(number(&[], ByteEncodingFormat::BigEndian), 0);
}

#[test]
fn masks_apply_per_byte() {
    assert_eq!(masked(&[0xFF, 0x81], &[0x7F]), vec![0x7F, 0x01]);
    assert_eq!(masked(&[0xFF, 0xFF], &[0x7F, 0x0F]), vec![0x7F, 0x0F]);
}

#[test]
fn message_dispatch_by_status() {
    assert_eq!(
        MidiMessage::decode(0xB1, &[7, 100]),
        Some(MidiMessage::ChannelMessage(ChannelMessage::Controller(Controller::new(1, 7, 100))))
    );
    assert_eq!(MidiMessage::decode(0xFF, &[0x2F]), Some(MidiMessage::MetaMessage(MetaMessage::EndOfTrack)));
    assert_eq!(MidiMessage::decode(0xFF, &[0x51, 1]), None);
    assert_eq!(MidiMessage::decode(0xFF, &[]), None);
    match MidiMessage::decode(0xF7, &[1, 2]) {
        Some(MidiMessage::SysMessage(s)) => assert_eq!((s.status, s.data), (0xF7, vec![1, 2])),
        other => panic!("unexpected {:?}", other),
    }
    assert_eq!(MidiMessage::decode(0x10, &[1, 2]), None);
}

#[test]
fn default_header() {
    let h = MidiHeader::default();
    assert_eq!(h.format, MidiFormat::SingleTracksMultiChannel);
    assert_eq!(h.ntrk, 0);
    assert_eq!(h.division, MidiDivision::MetricTime(480));
}

#[test]
fn buffers_hold_their_bytes() {
    let bytes = small_file();
    let b = MidiFileReader::buffer(&bytes);
    assert_eq!(b.src, FileSrcType::Buffer);
    assert_eq!(b.len(), bytes.len());
    assert_eq!(b.bytes(), &bytes[..]);
    let l = Local::from_local(String::from("a.mid"), bytes.clone());
    assert_eq!(l.0.src, FileSrcType::Local);
    assert_eq!(l.0.path, Some(String::from("a.mid")));
    let w = Buffer::from_web(String::from("http://host/a.mid"), bytes.clone());
    assert_eq!(w.length, bytes.len());
    let midi = b.parse(&EventSchema::standard()).ok().unwrap();
    assert_eq!(midi.tracks[0].events.len(), 3);
}

#[test]
fn track_seq_pairs_notes_of_every_track() {
    let midi = Buffer::from_buf(&small_file()).parse(&EventSchema::standard()).ok().unwrap();
    let seq = TrackSeq::from_midi(midi).unwrap();
    assert_eq!(seq.time_div, 480);
    assert_eq!(seq.format, MidiFormat::SingleTracksMultiChannel);
    assert_eq!(seq.tracks.len(), 1);
    assert_eq!(seq.tracks[0].notes, vec![Note::new(60, 100, 0, 480 * 500_000)]);
}

#[test]
fn note_seq_needs_metric_division() {
    let h = MidiHeader::new(MidiFormat::SingleTracksMultiChannel, 1, MidiDivision::SubDivision(-30, 80));
    assert_eq!(NoteSeq::from_track(&h, MidiTrack::new()).err(), Some(MidiParseErrorKind::MissingTempoMap));
    let mut midi = Midi::new(h);
    midi.add_track(MidiTrack::new());
    assert_eq!(TrackSeq::from_midi(midi).err(), Some(MidiParseErrorKind::MissingTempoMap));
}

#[test]
fn note_from_message() {
    let on = ChannelMessage::NoteOn(NoteOn::new(2, 61, 33));
    assert_eq!(Note::from_message(on, 5, 9), Some(Note::new(61, 33, 5, 9)));
    let cc = ChannelMessage::Controller(Controller::new(0, 1, 2));
    assert_eq!(Note::from_message(cc, 5, 9), None);
}

#[test]
fn track_cursor_finds_tempo() {
    let mut t = MidiTrack::new();
    t.add_event(MidiEvent::new(DeltaTime::from_ticks(0), MidiMessage::MetaMessage(MetaMessage::EndOfTrack)));
    t.add_event(MidiEvent::new(
        DeltaTime::from_ticks(0),
        MidiMessage::MetaMessage(MetaMessage::Tempo(Tempo::new(M3Byte::new(400_000)))),
    ));
    let mut it = t.iter();
    assert_eq!(it.get_tempo().map(|x| x.micros()), Some(400_000));
    assert!(it.next_event().is_some());
    assert!(it.next_event().unwrap().is_tempo_event());
    assert!(it.next_event().is_none());
    assert_eq!(it.get_tempo(), None);
}

#[test]
fn error_kind_names() {
    assert_eq!(MidiParseErrorKind::InvalidChunkTag.name(), "InvalidChunkTag");
    assert_eq!(MidiParseErrorKind::MissingTempoMap.name(), "MissingTempoMap");
}

#[test]
fn masked_numbers_pack_low_bits() {
    assert_eq!(masked_number(&[0x81, 0xE0], &[0x7F, 0xFF], ByteEncodingFormat::BigEndian), 480);
    assert_eq!(masked_number(&[0xFF, 0xFF], &[0x7F], ByteEncodingFormat::BigEndian), 0x3FFF);
    assert_eq!(masked_number(&[0x0F, 0x01], &[0x0F], ByteEncodingFormat::LittleEndian), 0x1F);
    assert_eq!(masked_number(&[0x12, 0x34, 0x56, 0x78], &[0xFF], ByteEncodingFormat::BigEndian), 0x1234_5678);
}

#[test]
fn highest_set_bit() {
    assert_eq!(MNBits::from_word(0), MNBits(0, 1));
    assert_eq!(MNBits::from_word(1), MNBits(1, 0));
    assert_eq!(MNBits::from_word(480), MNBits(480, 8));
    assert_eq!(MNBits::from_word(u32::MAX).1, 31);
    assert_eq!(MNBits::from_word(7).word(), 7);
}
