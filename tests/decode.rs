use rmidirs::channel_message::{ChannelMessage, NoteOn};
use rmidirs::error::MidiParseErrorKind;
use rmidirs::meta_message::MetaMessage;
use rmidirs::midi_event::MidiMessage;
use rmidirs::midi_header::{MidiDivision, MidiFormat, MidiHeader, MidiHeaderParser};
use rmidirs::midi_parser::{MidiParser, MidiTrackHeaderParser, MidiTrackParser};
use rmidirs::midi_track::Midi;
use rmidirs::parser_state::ParserState;
use rmidirs::schema::EventSchema;

fn header(format: u8, ntrk: u8, d0: u8, d1: u8) -> Vec<u8> {
    vec![b'M', b'T', b'h', b'd', 0, 0, 0, 6, 0, format, 0, ntrk, d0, d1]
}

fn file(tracks: &[&[u8]]) -> Vec<u8> {
    let mut out = header(1, tracks.len() as u8, 0x01, 0xE0);
    for t in tracks {
        out.extend_from_slice(b"MTrk");
        out.extend_from_slice(&(t.len() as u32).to_be_bytes());
        out.extend_from_slice(t);
    }
    out
}

fn parse(buf: &[u8]) -> Result<Midi, (MidiParseErrorKind, usize)> {
    MidiParser::parse(buf, &EventSchema::standard()).map_err(|e| (e.kind(), e.position()))
}

#[test]
fn header_decodes() {
    let buf = header(1, 2, 0x01, 0xE0);
    let mut state = ParserState::new(String::from("h"), 0, buf.len());
    let h = MidiHeaderParser::parse(&buf, &mut state).ok().unwrap();
    assert_eq!(h, MidiHeader::new(MidiFormat::MultiTracks, 2, MidiDivision::MetricTime(480)));
    assert_eq!(state.curr(), 14);
    assert_eq!(h.division().metric_time(), Some(480));
}

#[test]
fn header_round_trip() {
    for bytes in [header(0, 1, 0x00, 0x60), header(2, 5, 0x7F, 0xFF), header(1, 3, 0xE8, 40), header(1, 3, 0xE2, 80)] {
        let mut state = ParserState::new(String::from("h"), 0, bytes.len());
        let h = MidiHeaderParser::parse(&bytes, &mut state).ok().unwrap();
        assert_eq!(h.to_bytes(), bytes);
    }
}

#[test]
fn smpte_division_decodes() {
    let buf = header(0, 1, 0xE7, 40);
    let mut state = ParserState::new(String::from("h"), 0, buf.len());
    let h = MidiHeaderParser::parse(&buf, &mut state).ok().unwrap();
    assert_eq!(h.division, MidiDivision::SubDivision(-25, 40));
    assert_eq!(h.division.metric_time(), None);
}

#[test]
fn malformed_header_tag_fails() {
    let buf = b"MThx".to_vec();
    assert_eq!(parse(&buf).err(), Some((MidiParseErrorKind::InvalidHeaderTag, 0)));
    let mut longer = header(0, 1, 0, 96);
    longer[3] = b'x';
    assert_eq!(parse(&longer).err(), Some((MidiParseErrorKind::InvalidHeaderTag, 0)));
}

#[test]
fn header_field_errors() {
    let mut bad_len = header(0, 1, 0, 96);
    bad_len[7] = 7;
    assert_eq!(parse(&bad_len).err(), Some((MidiParseErrorKind::InvalidHeaderLength, 4)));
    assert_eq!(parse(&header(3, 1, 0, 96)).err(), Some((MidiParseErrorKind::InvalidFormatField, 8)));
    assert_eq!(parse(&header(0, 1, 0xE9, 96)).err(), Some((MidiParseErrorKind::InvalidSMPTEFrameRate, 12)));
    assert_eq!(parse(&header(0, 1, 0, 96)[..11]).err(), Some((MidiParseErrorKind::EndOfBuffer, 10)));
    assert_eq!(parse(b"MT").err(), Some((MidiParseErrorKind::EndOfBuffer, 0)));
}

#[test]
fn header_new_raw() {
    let h = MidiHeader::new_raw(&[0, 2], &[0, 4], &[0x00, 0x60]).unwrap();
    assert_eq!(h.format(), MidiFormat::MultiTracksIndependentSingleChannel);
    assert_eq!(h.ntrk(), 4);
    assert_eq!(MidiHeader::new_raw(&[0, 9], &[0, 4], &[0, 0x60]), Err(MidiParseErrorKind::InvalidFormatField));
}

#[test]
fn running_status_continues_note_on() {
    let buf = file(&[&[0x00, 0x90, 0x40, 0x7F, 0x00, 0x40, 0x00]]);
    let midi = parse(&buf).ok().unwrap();
    let events = &midi.tracks[0].events;
    assert_eq!(events.len(), 2);
    assert_eq!(
        events[0].message,
        MidiMessage::ChannelMessage(ChannelMessage::NoteOn(NoteOn::new(0, 0x40, 0x7F)))
    );
    assert_eq!(
        events[1].message,
        MidiMessage::ChannelMessage(ChannelMessage::NoteOn(NoteOn::new(0, 0x40, 0)))
    );
    assert!(events[1].is_note_off_event());
    assert!(midi.track_count_matches());
}

#[test]
fn running_status_survives_meta_events() {
    let buf = file(&[&[0x00, 0x91, 0x3C, 0x40, 0x00, 0xFF, 0x01, 0x01, b'a', 0x00, 0x3C, 0x00]]);
    let midi = parse(&buf).ok().unwrap();
    let events = &midi.tracks[0].events;
    assert_eq!(events.len(), 3);
    assert_eq!(
        events[2].message,
        MidiMessage::ChannelMessage(ChannelMessage::NoteOn(NoteOn::new(1, 0x3C, 0)))
    );
}

#[test]
fn data_byte_without_running_status_fails() {
    let buf = file(&[&[0x00, 0x40, 0x7F]]);
    assert_eq!(parse(&buf).err(), Some((MidiParseErrorKind::InvalidEventByte, 23)));
}

#[test]
fn undefined_status_byte_fails() {
    let buf = file(&[&[0x00, 0xF4]]);
    assert_eq!(parse(&buf).err(), Some((MidiParseErrorKind::InvalidEventByte, 23)));
}

#[test]
fn unknown_meta_subtype_is_kept() {
    let buf = file(&[&[0x00, 0xFF, 0x7A, 0x02, 0xAA, 0xBB, 0x10, 0x90, 0x3C, 0x40, 0x00, 0xFF, 0x2F, 0x00]]);
    let midi = parse(&buf).ok().unwrap();
    let events = &midi.tracks[0].events;
    assert_eq!(events.len(), 3);
    assert_eq!(events[0].message, MidiMessage::MetaMessage(MetaMessage::Unrecognized(0x7A, vec![0xAA, 0xBB])));
    assert_eq!(events[1].delta_time.ticks(), 0x10);
    assert_eq!(events[2].message, MidiMessage::MetaMessage(MetaMessage::EndOfTrack));
}

#[test]
fn meta_length_mismatch_fails() {
    let buf = file(&[&[0x00, 0xFF, 0x51, 0x02, 0x07, 0xA1]]);
    assert_eq!(parse(&buf).err(), Some((MidiParseErrorKind::InvalidPayloadLength, 25)));
}

#[test]
fn sys_event_is_kept_opaque() {
    let buf = file(&[&[0x00, 0xF0, 0x03, 0x7E, 0x7F, 0xF7]]);
    let midi = parse(&buf).ok().unwrap();
    match &midi.tracks[0].events[0].message {
        MidiMessage::SysMessage(s) => {
            assert_eq!(s.status, 0xF0);
            assert_eq!(s.data, vec![0x7E, 0x7F, 0xF7]);
        }
        other => panic!("unexpected {:?}", other),
    }
}

#[test]
fn event_running_past_chunk_fails() {
    let buf = file(&[&[0x00, 0x90, 0x3C]]);
    assert_eq!(parse(&buf).err(), Some((MidiParseErrorKind::EndOfBuffer, 24)));
}

#[test]
fn unknown_chunk_tag_fails() {
    let mut buf = header(0, 1, 0, 96);
    buf.extend_from_slice(b"XFIH");
    buf.extend_from_slice(&[0, 0, 0, 0]);
    assert_eq!(parse(&buf).err(), Some((MidiParseErrorKind::InvalidChunkTag, 14)));
}

#[test]
fn chunk_longer_than_file_fails() {
    let mut buf = header(0, 1, 0, 96);
    buf.extend_from_slice(b"MTrk");
    buf.extend_from_slice(&[0, 0, 0, 9, 0x00, 0xFF]);
    assert_eq!(parse(&buf).err(), Some((MidiParseErrorKind::EndOfBuffer, 22)));
}

#[test]
fn several_tracks_in_order() {
    let buf = file(&[&[0x00, 0xFF, 0x2F, 0x00], &[0x05, 0xC2, 0x07, 0x00, 0xFF, 0x2F, 0x00]]);
    let midi = parse(&buf).ok().unwrap();
    assert_eq!(midi.tracks.len(), 2);
    assert_eq!(midi.tracks[0].len(), 1);
    assert_eq!(midi.tracks[1].len(), 2);
    assert_eq!(midi.tracks[1].events[0].delta_time.ticks(), 5);
    assert!(midi.track(2).is_none());
}

#[test]
fn track_count_mismatch_is_reported_not_fatal() {
    let mut buf = file(&[&[0x00, 0xFF, 0x2F, 0x00]]);
    buf[11] = 3;
    let midi = parse(&buf).ok().unwrap();
    assert!(!midi.track_count_matches());
}

#[test]
fn chunk_scanner_gives_payload_ranges() {
    let buf = file(&[&[0x00, 0xFF, 0x2F, 0x00], &[0x00, 0xFF, 0x2F, 0x00]]);
    let h = MidiHeader::new(MidiFormat::MultiTracks, 2, MidiDivision::MetricTime(480));
    let state = ParserState::new(String::from("tracks"), 14, buf.len());
    let parsers = MidiTrackHeaderParser::parse(&buf, h, state).ok().unwrap();
    assert_eq!(parsers.len(), 2);
    assert_eq!((parsers[0].state.start(), parsers[0].state.curr(), parsers[0].state.end()), (14, 22, 26));
    assert_eq!((parsers[1].state.start(), parsers[1].state.curr(), parsers[1].state.end()), (26, 34, 38));
    assert_eq!((parsers[0].state.track(), parsers[1].state.track()), (Some(0), Some(1)));
    let mut p: MidiTrackParser = MidiTrackParser::new(h, ParserState::new(String::from("t"), 34, 38));
    let track = p.parse(&buf, &EventSchema::standard()).ok().unwrap();
    assert_eq!(track.events[0].message, MidiMessage::MetaMessage(MetaMessage::EndOfTrack));
}

#[test]
fn custom_schema_changes_channel_lengths() {
    let mut channel = vec![0u8; 16];
    channel[0x9] = 2;
    let schema = EventSchema::new(channel, vec![None; 256]).unwrap();
    let ok = file(&[&[0x00, 0x90, 0x3C, 0x40]]);
    assert!(MidiParser::parse(&ok, &schema).is_ok());
    let bad = file(&[&[0x00, 0x80, 0x3C, 0x40]]);
    let e = MidiParser::parse(&bad, &schema).err().unwrap();
    assert_eq!((e.kind(), e.position()), (MidiParseErrorKind::InvalidEventByte, 24));
    let mut wrong = vec![0u8; 16];
    wrong[0x9] = 1;
    let schema = EventSchema::new(wrong, vec![None; 256]).unwrap();
    let e = MidiParser::parse(&ok, &schema).err().unwrap();
    assert_eq!(e.kind(), MidiParseErrorKind::InvalidPayloadLength);
    assert!(EventSchema::new(vec![0; 15], vec![None; 256]).is_none());
}

#[test]
fn parser_state_moves() {
    let buf = [1u8, 2, 3, 4, 5];
    let mut s = ParserState::new(String::from("s"), 1, 4);
    assert_eq!(s.byte(&buf).ok(), Some(2));
    assert_eq!(s.next(&buf, 2).ok(), Some(vec![2, 3]));
    assert_eq!(s.retake(&buf, 2), vec![2, 3]);
    assert_eq!(s.take(&buf, 1).ok(), Some(vec![4]));
    assert!(s.next(&buf, 2).is_err());
    assert_eq!(s.curr(), 3);
    s.back(2);
    assert_eq!(s.curr(), 1);
    s.forward(3);
    assert!(s.byte(&buf).is_err());
    assert_eq!((s.start(), s.end()), (1, 4));
    assert_eq!(s.with_name(String::from("t")).name(), "t");
}

#[test]
fn plain_events_write_back_their_bytes() {
    let track: &[u8] = &[
        0x00, 0x90, 0x3C, 0x40, 0x81, 0x00, 0x80, 0x3C, 0x00, 0x00, 0xFF, 0x51, 0x03, 0x07, 0xA1, 0x20, 0x00, 0xF0,
        0x02, 0x7E, 0xF7, 0x00, 0xFF, 0x2F, 0x00,
    ];
    let buf = file(&[track]);
    let midi = parse(&buf).ok().unwrap();
    let mut written = Vec::new();
    for e in &midi.tracks[0].events {
        written.extend(e.to_bytes());
    }
    assert_eq!(written, track.to_vec());
}

#[test]
fn header_failure_leaves_cursor_in_place() {
    let mut buf = header(0, 1, 0x01, 0xE0);
    buf[3] = b'x';
    let mut state = ParserState::new(String::from("midi"), 0, buf.len());
    let e = MidiHeaderParser::parse(&buf, &mut state).err().unwrap();
    assert_eq!(e.kind(), MidiParseErrorKind::InvalidHeaderTag);
    assert_eq!(state.curr(), 0);
    let mut bad_format = header(7, 1, 0x01, 0xE0);
    bad_format[9] = 7;
    let mut state = ParserState::new(String::from("midi"), 0, bad_format.len());
    assert!(MidiHeaderParser::parse(&bad_format, &mut state).is_err());
    assert_eq!((state.curr(), state.start(), state.end()), (0, 0, 14));
}

#[test]
fn errors_name_the_failing_track() {
    let buf = file(&[&[0x00, 0xFF, 0x2F, 0x00], &[0x00, 0x40]]);
    let e = MidiParser::parse(&buf, &EventSchema::standard()).err().unwrap();
    assert_eq!(e.kind(), MidiParseErrorKind::InvalidEventByte);
    assert_eq!(e.state.track(), Some(1));
    assert_eq!(e.state.name(), "track");
    let e = MidiParser::parse(&header(3, 1, 0, 96), &EventSchema::standard()).err().unwrap();
    assert_eq!(e.state.track(), None);
    let mut bad_chunk = header(0, 1, 0, 96);
    bad_chunk.extend_from_slice(b"XFIH\0\0\0\0");
    let e = MidiParser::parse(&bad_chunk, &EventSchema::standard()).err().unwrap();
    assert_eq!(e.state.track(), None);
}

#[test]
fn channel_fields_are_masked() {
    let m = ChannelMessage::NoteOn(NoteOn::new(0x13, 200, 0x85));
    assert_eq!(m.get_note_number(), Some(200 - 128));
    assert_eq!(m.event_channel(), 3);
    assert_eq!(m.to_bytes(), vec![0x93, 72, 5]);
}
