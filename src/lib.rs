//! Decoding of Standard MIDI Files: masked fixed-width fields, variable-length
//! quantities, the file header, track chunks, running-status events, and the
//! timing and pairing of notes.

pub mod error;
pub mod primitive;
pub mod vlq;
pub mod functions;
pub mod channel_message;
pub mod meta_message;
pub mod midi_event;
pub mod schema;
pub mod parser_state;
pub mod midi_header;
pub mod event_parser;
pub mod midi_track;
pub mod midi_parser;
pub mod timeline;
pub mod reader;
