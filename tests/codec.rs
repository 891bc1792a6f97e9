use rmidirs::channel_message::{ChannelMessage, NoteOff, NoteOn};
use rmidirs::error::MidiParseErrorKind;
use rmidirs::meta_message::{KeySignature, MetaMessage, Tempo};
use rmidirs::midi_event::{DeltaTime, MidiEvent, MidiMessage, MidiMessageType};
use rmidirs::primitive::{M1Bit, M1Byte, M2Byte, M3Byte, M4Bits, M4Byte, M7Bits};
use rmidirs::vlq::{encode_var_len, from_var_len, MXByte};

fn decode(bytes: &[u8]) -> (u32, usize) {
    let m = from_var_len(bytes).ok().unwrap();
    (m.value(), m.len())
}

#[test]
fn vlq_table_decodes() {
    assert_eq!(decode(&[0x40]), (0x40, 1));
    assert_eq!(decode(&[0x7F]), (0x7F, 1));
    assert_eq!(decode(&[0x81, 0x00]), (0x80, 2));
    assert_eq!(decode(&[0xC0, 0x00]), (0x2000, 2));
    assert_eq!(decode(&[0xFF, 0x7F]), (0x3FFF, 2));
    assert_eq!(decode(&[0x81, 0x80, 0x00]), (0x4000, 3));
    assert_eq!(decode(&[0xFF, 0xFF, 0x7F]), (0x1FFFFF, 3));
    assert_eq!(decode(&[0xC0, 0x80, 0x00]), (0x100000, 3));
    assert_eq!(decode(&[0x81, 0x80, 0x80, 0x00]), (0x200000, 4));
}

#[test]
fn vlq_table_encodes() {
    assert_eq!(encode_var_len(0x40), vec![0x40]);
    assert_eq!(encode_var_len(0x7F), vec![0x7F]);
    assert_eq!(encode_var_len(0x80), vec![0x81, 0x00]);
    assert_eq!(encode_var_len(0x2000), vec![0xC0, 0x00]);
    assert_eq!(encode_var_len(0x3FFF), vec![0xFF, 0x7F]);
    assert_eq!(encode_var_len(0x4000), vec![0x81, 0x80, 0x00]);
    assert_eq!(encode_var_len(0x1FFFFF), vec![0xFF, 0xFF, 0x7F]);
    assert_eq!(encode_var_len(0x0FFF_FFFF), vec![0xFF, 0xFF, 0xFF, 0x7F]);
}

#[test]
fn vlq_round_trips_on_samples() {
    for v in [0u32, 1, 127, 128, 300, 16383, 16384, 2097151, 2097152, 0x0FFF_FFFF] {
        let bytes = encode_var_len(v);
        assert_eq!(decode(&bytes), (v, bytes.len()));
    }
}

#[test]
fn vlq_stops_at_first_clear_byte() {
    assert_eq!(decode(&[0x81, 0x00, 0x55]), (0x80, 2));
}

#[test]
fn vlq_too_long_fails() {
    assert_eq!(from_var_len(&[0x80, 0x80, 0x80, 0x80, 0x00]).err(), Some(MidiParseErrorKind::EndOfBuffer));
}

#[test]
fn vlq_truncated_fails() {
    assert_eq!(from_var_len(&[0x81, 0x80]).err(), Some(MidiParseErrorKind::EndOfBuffer));
    assert_eq!(from_var_len(&[]).err(), Some(MidiParseErrorKind::EndOfBuffer));
}

#[test]
fn mxbyte_from_value_takes_fewest_bytes() {
    assert_eq!(MXByte::from_value(0).len(), 1);
    assert_eq!(MXByte::from_value(0x80).len(), 2);
    assert_eq!(MXByte::from_value(0x4000).len(), 3);
    assert_eq!(MXByte::from_value(0x200000).len(), 4);
    assert_eq!(MXByte::from_value(0x200000).value(), 0x200000);
}

#[test]
fn masked_words_keep_their_width() {
    assert_eq!(M1Bit::new(3).value(), 1);
    assert_eq!(M4Bits::new(0x1F).value(), 0xF);
    assert_eq!(M7Bits::new(0xFF).value(), 0x7F);
    assert_eq!(M1Byte::new(0x1FF).value(), 0xFF);
    assert_eq!(M2Byte::new(0x12345).value(), 0x2345);
    assert_eq!(M3Byte::new(0x1234_5678).value(), 0x34_5678);
    assert_eq!(M4Byte::new(0xDEAD_BEEF).value(), 0xDEAD_BEEF);
    assert_eq!(M2Byte::from_be_slice(&[0x01, 0xE0]).value(), 480);
    assert_eq!(M3Byte::from_be_slice(&[0x07, 0xA1, 0x20]).value(), 500_000);
    assert_eq!(M4Byte::from_be_slice(&[0, 0, 0, 6]).value(), 6);
}

#[test]
fn channel_message_decodes_and_masks() {
    let m = ChannelMessage::decode(0x93, &[0xBC, 0x64]).unwrap();
    assert_eq!(m, ChannelMessage::NoteOn(NoteOn::new(3, 0x3C, 0x64)));
    assert_eq!(m.event_byte(), 0x93);
    assert_eq!(m.event_channel(), 3);
    assert!(ChannelMessage::decode(0x93, &[0x3C]).is_none());
    assert!(ChannelMessage::decode(0xF0, &[0x3C, 0x01]).is_none());
    let p = ChannelMessage::decode(0xC5, &[0x10]).unwrap();
    assert_eq!(p.to_bytes(), vec![0xC5, 0x10]);
}

#[test]
fn note_off_predicates() {
    let on = ChannelMessage::NoteOn(NoteOn::new(0, 60, 100));
    let silent = ChannelMessage::NoteOn(NoteOn::new(0, 60, 0));
    let off = ChannelMessage::NoteOff(NoteOff::new(0, 60, 64));
    assert!(on.is_note_on_event() && !on.is_note_off_event());
    assert!(silent.is_note_off_event() && !silent.is_note_on_event());
    assert!(off.is_note_off_event() && !off.is_note_on_event());
    assert!(silent.is_note_on_off_event());
    assert_eq!(off.get_note_number(), Some(60));
    assert!(ChannelMessage::is_channel_event(0x80));
    assert!(!ChannelMessage::is_channel_event(0xF0));
    assert!(ChannelMessage::is_controller_event(0xB7));
}

#[test]
fn channel_round_trip_bytes() {
    for bytes in [vec![0x80u8, 0x3C, 0x40], vec![0xA1, 1, 2], vec![0xB2, 7, 100], vec![0xD4, 9], vec![0xEF, 0x00, 0x40]] {
        let m = ChannelMessage::decode(bytes[0], &bytes[1..]).unwrap();
        assert_eq!(m.to_bytes(), bytes);
    }
}

#[test]
fn meta_decodes_each_fixed_kind() {
    assert_eq!(
        MetaMessage::decode(0x51, &[0x07, 0xA1, 0x20]).unwrap().get_tempo().unwrap().micros(),
        500_000
    );
    assert!(MetaMessage::decode(0x51, &[0x07, 0xA1]).is_none());
    assert_eq!(MetaMessage::decode(0x2F, &[]), Some(MetaMessage::EndOfTrack));
    assert!(MetaMessage::decode(0x2F, &[1]).is_none());
    match MetaMessage::decode(0x59, &[0xFD, 1]).unwrap() {
        MetaMessage::KeySignature(KeySignature { sf, mi }) => {
            assert_eq!(sf, -3);
            assert_eq!(mi, 1);
        }
        other => panic!("unexpected {:?}", other),
    }
    match MetaMessage::decode(0x03, b"Piano").unwrap() {
        MetaMessage::TrackName(t) => assert_eq!(t.text, b"Piano".to_vec()),
        other => panic!("unexpected {:?}", other),
    }
    assert_eq!(
        MetaMessage::decode(0x7A, &[1, 2, 3]),
        Some(MetaMessage::Unrecognized(0x7A, vec![1, 2, 3]))
    );
}

#[test]
fn meta_round_trip_payloads() {
    for (sub, payload) in [
        (0x51u8, vec![0x0Fu8, 0x42, 0x40]),
        (0x58, vec![6, 3, 24, 8]),
        (0x59, vec![0xFE, 0]),
        (0x54, vec![1, 2, 3, 4, 5]),
        (0x21, vec![2]),
        (0x01, b"hello".to_vec()),
        (0x7A, vec![9, 9]),
    ] {
        let m = MetaMessage::decode(sub, &payload).unwrap();
        assert_eq!(m.subtype(), sub);
        assert_eq!(m.payload(), payload);
    }
}

#[test]
fn tempo_bpm() {
    let t = Tempo::new(M3Byte::new(500_000));
    assert_eq!(t.bpm(), 120);
    assert_eq!(Tempo::new(M3Byte::new(600_000)).bpm(), 100);
}

#[test]
fn event_bytes_write_status_and_delta() {
    let e = MidiEvent::new(
        DeltaTime::from_ticks(0x80),
        MidiMessage::ChannelMessage(ChannelMessage::NoteOn(NoteOn::new(1, 64, 90))),
    );
    assert_eq!(e.to_bytes(), vec![0x81, 0x00, 0x91, 64, 90]);
    assert_eq!(e.event_byte(), 0x91);
    assert!(e.is_note_on_event());
    let meta = MidiEvent::new(
        DeltaTime::from_ticks(0),
        MidiMessage::MetaMessage(MetaMessage::Unrecognized(0x7A, vec![5, 6])),
    );
    assert_eq!(meta.to_bytes(), vec![0x00, 0xFF, 0x7A, 0x02, 5, 6]);
    assert_eq!(MidiEvent::event_type(0xFF), Some(MidiMessageType::Meta));
    assert_eq!(MidiEvent::event_type(0xF7), Some(MidiMessageType::Sys));
    assert_eq!(MidiEvent::event_type(0x85), Some(MidiMessageType::Channel));
    assert_eq!(MidiEvent::event_type(0xF3), None);
    assert!(MidiEvent::is_meta_byte(0xFF) && MidiEvent::is_sys_byte(0xF0) && MidiEvent::is_channel_byte(0xEF));
}
