use vstd::prelude::*;

verus! {

/// What went wrong while decoding a file.
#[derive(Debug, Clone, Copy, PartialEq, Eq, Structural)]
pub enum MidiParseErrorKind {
    /// Bytes that the next field needs lie past the end of the buffer or chunk,
    /// or a variable-length number runs over four bytes.
    EndOfBuffer,
    /// The file does not start with `MThd`.
    InvalidHeaderTag,
    /// The header's declared length is not 6.
    InvalidHeaderLength,
    /// The header's format field is not 0, 1 or 2.
    InvalidFormatField,
    /// An SMPTE division whose frame rate is not -24, -25, -29 or -30.
    InvalidSMPTEFrameRate,
    /// A chunk after the header is not tagged `MTrk`.
    InvalidChunkTag,
    /// A status byte that names no message, or a data byte with no running status.
    InvalidEventByte,
    /// A message whose payload length disagrees with the length its kind requires.
    InvalidPayloadLength,
    /// Time conversion asked of a file whose division is not in ticks per quarter note.
    MissingTempoMap,
}

impl MidiParseErrorKind {
    /// The variant's name.
    pub fn name(&self) -> (r: &'static str) {
        match self {
            MidiParseErrorKind::EndOfBuffer => "EndOfBuffer",
            MidiParseErrorKind::InvalidHeaderTag => "InvalidHeaderTag",
            MidiParseErrorKind::InvalidHeaderLength => "InvalidHeaderLength",
            MidiParseErrorKind::InvalidFormatField => "InvalidFormatField",
            MidiParseErrorKind::InvalidSMPTEFrameRate => "InvalidSMPTEFrameRate",
            MidiParseErrorKind::InvalidChunkTag => "InvalidChunkTag",
            MidiParseErrorKind::InvalidEventByte => "InvalidEventByte",
            MidiParseErrorKind::InvalidPayloadLength => "InvalidPayloadLength",
            MidiParseErrorKind::MissingTempoMap => "MissingTempoMap",
        }
    }
}

} // verus!
