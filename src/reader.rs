use vstd::prelude::*;

use crate::midi_parser::{MidiParser, failure_track, frames_match, midi_of};
use crate::midi_track::Midi;
use crate::parser_state::MidiParseError;
use crate::schema::EventSchema;
use crate::event_parser::failed;

verus! {

/// Where a file's bytes came from.
#[derive(Debug, Clone, Copy, PartialEq, Eq, Structural)]
pub enum FileSrcType {
    Local,
    Web,
    Buffer,
}

/// The bytes of a file held in memory, with where they came from.
#[derive(Debug, Clone)]
pub struct Buffer {
    pub src: FileSrcType,
    pub path: Option<String>,
    pub contents: Vec<u8>,
    pub length: usize,
}

/// A buffer read from the local file system.
#[derive(Debug, Clone)]
pub struct Local(pub Buffer);

/// Makes buffers from bytes.
pub struct MidiFileReader;

impl MidiFileReader {
    /// A buffer holding a copy of `contents`.
    pub fn buffer(contents: &[u8]) -> (r: Buffer)
        ensures
            r.contents@ == contents@,
            r.src == FileSrcType::Buffer,
    {
        Buffer::from_buf(contents)
    }
}

impl Buffer {
    /// The number of bytes held.
    pub fn len(&self) -> (r: usize)
        ensures
            r == self.contents@.len(),
    {
        self.contents.len()
    }

    /// A buffer holding a copy of `contents`.
    pub fn from_buf(contents: &[u8]) -> (r: Buffer)
        ensures
            r.contents@ == contents@,
            r.length == contents@.len(),
            r.src == FileSrcType::Buffer,
            r.path is None,
    {
        let mut copy: Vec<u8> = Vec::new();
        let mut i: usize = 0;
        while i < contents.len()
            invariant
                i <= contents@.len(),
                copy@ == contents@.subrange(0, i as int),
            decreases contents@.len() - i,
        {
            copy.push(contents[i]);
            i = i + 1;
            assert(copy@ =~= contents@.subrange(0, i as int));
        }
        assert(contents@.subrange(0, contents@.len() as int) =~= contents@);
        Buffer { src: FileSrcType::Buffer, path: None, length: contents.len(), contents: copy }
    }

    /// A buffer of bytes read from the file at `path`.
    pub fn from_local(path: String, contents: Vec<u8>) -> (r: Buffer)
        ensures
            r.contents@ == contents@,
            r.length == contents@.len(),
            r.src == FileSrcType::Local,
    {
        let length = contents.len();
        Buffer { src: FileSrcType::Local, path: Some(path), contents, length }
    }

    /// A buffer of bytes fetched from `path`.
    pub fn from_web(path: String, contents: Vec<u8>) -> (r: Buffer)
        ensures
            r.contents@ == contents@,
            r.length == contents@.len(),
            r.src == FileSrcType::Web,
    {
        let length = contents.len();
        Buffer { src: FileSrcType::Web, path: Some(path), contents, length }
    }

    pub fn bytes(&self) -> (r: &[u8])
        ensures
            r@ == self.contents@,
    {
        self.contents.as_slice()
    }

    /// Decodes the bytes held as a file.
    pub fn parse(&self, schema: &EventSchema) -> (r: Result<Midi, MidiParseError>)
        ensures
            match midi_of(self.contents@, schema) {
                Ok((h, ts)) => r is Ok && r->Ok_0.header == h && r->Ok_0.tracks@.len() == ts.len()
                    && forall|i: int|
                    0 <= i < ts.len() ==> frames_match(
                        (#[trigger] r->Ok_0.tracks@[i]).events@,
                        ts[i],
                        self.contents@,
                    ),
                Err((k, p)) => failed(r, k, p),
            },
            r is Err ==> r->Err_0.state.track_index() == failure_track(self.contents@, schema),
    {
        MidiParser::parse(self.contents.as_slice(), schema)
    }
}

impl Local {
    pub fn from_local(path: String, contents: Vec<u8>) -> (r: Local)
        ensures
            r.0.contents@ == contents@,
            r.0.src == FileSrcType::Local,
    {
        Local(Buffer::from_local(path, contents))
    }
}

} // verus!
