use vstd::prelude::*;

use crate::error::MidiParseErrorKind;
use crate::vlq::{MXByte, read_var_len, vlq_decode};

verus! {

/// A cursor over a range `[start, end)` of a buffer, with a name that says
/// what is being read there and, within a track chunk, the track's index
/// (counting from zero in file order).
#[derive(Debug)]
pub struct ParserState {
    name: String,
    curr: usize,
    start: usize,
    end: usize,
    track: Option<usize>,
}

/// Where decoding stopped, and why.
#[derive(Debug, Clone)]
pub struct MidiParseError {
    pub state: ParserState,
    pub kind: MidiParseErrorKind,
    pub trace: Option<String>,
}

impl MidiParseError {
    pub fn new(state: ParserState, kind: MidiParseErrorKind, trace: Option<String>) -> (r:
        MidiParseError)
        ensures
            r.state.pos() == state.pos(),
            r.state.track_index() == state.track_index(),
            r.kind == kind,
            r.trace == trace,
    {
        MidiParseError { state, kind, trace }
    }

    pub fn kind(&self) -> (r: MidiParseErrorKind)
        ensures
            r == self.kind,
    {
        self.kind
    }

    /// The offset in the buffer at which the failed read started.
    pub fn position(&self) -> (r: usize)
        ensures
            r == self.state.pos(),
    {
        self.state.curr()
    }
}

impl Clone for ParserState {
    fn clone(&self) -> (r: ParserState) {
        self.with_name(self.name.clone())
    }
}

impl ParserState {
    #[verifier::type_invariant]
    pub(crate) open spec fn ordered(self) -> bool {
        0 <= self.lo() <= self.pos() <= self.hi() <= usize::MAX
    }

    /// The offset the cursor stands at.
    pub closed spec fn pos(&self) -> int {
        self.curr as int
    }

    /// Where the range begins.
    pub closed spec fn lo(&self) -> int {
        self.start as int
    }

    /// Where the range ends.
    pub closed spec fn hi(&self) -> int {
        self.end as int
    }

    /// The index of the track the cursor reads in, if it reads in one.
    pub closed spec fn track_index(&self) -> Option<nat> {
        match self.track {
            Some(i) => Some(i as nat),
            None => None,
        }
    }

    /// A cursor at `start` over `[start, end)`.
    pub fn new(name: String, start: usize, end: usize) -> (r: ParserState)
        requires
            start <= end,
        ensures
            r.pos() == start,
            r.lo() == start,
            r.hi() == end,
            r.track_index() is None,
    {
        ParserState { name, start, curr: start, end, track: None }
    }

    /// A cursor named `track` at `start` over `[start, end)` of the track of index `index`.
    pub fn for_track(index: usize, start: usize, end: usize) -> (r: ParserState)
        requires
            start <= end,
        ensures
            r.pos() == start,
            r.lo() == start,
            r.hi() == end,
            r.track_index() == Some(index as nat),
    {
        ParserState { name: String::from_str("track"), start, curr: start, end, track: Some(index) }
    }

    /// The same cursor under another name.
    pub fn with_name(&self, name: String) -> (r: ParserState)
        ensures
            r.pos() == self.pos(),
            r.lo() == self.lo(),
            r.hi() == self.hi(),
            r.track_index() == self.track_index(),
    {
        proof {
            use_type_invariant(self);
        }
        ParserState { name, start: self.start, curr: self.curr, end: self.end, track: self.track }
    }

    /// The same cursor moved to `pos`.
    pub fn at(&self, pos: usize) -> (r: ParserState)
        requires
            self.lo() <= pos <= self.hi(),
        ensures
            r.pos() == pos,
            r.lo() == self.lo(),
            r.hi() == self.hi(),
            r.track_index() == self.track_index(),
    {
        ParserState {
            name: self.name.clone(),
            start: self.start,
            curr: pos,
            end: self.end,
            track: self.track,
        }
    }

    /// The error of this kind at the cursor.
    pub fn error(&self, kind: MidiParseErrorKind) -> (r: MidiParseError)
        ensures
            r.kind == kind,
            r.state.pos() == self.pos(),
            r.state.track_index() == self.track_index(),
    {
        proof {
            use_type_invariant(self);
        }
        MidiParseError::new(self.at(self.curr), kind, None)
    }

    /// Moves the cursor `forward` bytes on.
    pub fn forward(&mut self, forward: usize)
        requires
            old(self).pos() + forward <= old(self).hi(),
        ensures
            final(self).pos() == old(self).pos() + forward,
            final(self).track_index() == old(self).track_index(),
            final(self).lo() == old(self).lo(),
            final(self).hi() == old(self).hi(),
    {
        proof {
            use_type_invariant(&*self);
        }
        self.curr = self.curr + forward;
    }

    /// Moves the cursor `back` bytes back.
    pub fn back(&mut self, back: usize)
        requires
            old(self).pos() - back >= old(self).lo(),
        ensures
            final(self).pos() == old(self).pos() - back,
            final(self).track_index() == old(self).track_index(),
            final(self).lo() == old(self).lo(),
            final(self).hi() == old(self).hi(),
    {
        proof {
            use_type_invariant(&*self);
        }
        self.curr = self.curr - back;
    }

    /// The next `len` bytes; `EndOfBuffer` where fewer are left in the range.
    pub fn take(&self, buf: &[u8], len: usize) -> (r: Result<Vec<u8>, MidiParseError>)
        requires
            self.hi() <= buf@.len(),
        ensures
            r is Err ==> r->Err_0.state.track_index() == self.track_index(),
            self.pos() + len <= self.hi() ==> r is Ok && r->Ok_0@ == buf@.subrange(
                self.pos(),
                self.pos() + len,
            ),
            self.pos() + len > self.hi() ==> r is Err && r->Err_0.kind
                == MidiParseErrorKind::EndOfBuffer && r->Err_0.state.pos() == self.pos(),
    {
        proof {
            use_type_invariant(self);
        }
        if len > self.end - self.curr {
            return Err(self.error(MidiParseErrorKind::EndOfBuffer));
        }
        let mut out: Vec<u8> = Vec::new();
        let mut i: usize = 0;
        while i < len
            invariant
                self.curr + len <= self.end <= buf@.len(),
                i <= len,
                out@ == buf@.subrange(self.curr as int, self.curr + i),
            decreases len - i,
        {
            out.push(buf[self.curr + i]);
            i = i + 1;
            assert(out@ =~= buf@.subrange(self.curr as int, self.curr + i));
        }
        Ok(out)
    }

    /// The next `len` bytes, moving the cursor past them; `EndOfBuffer`, with
    /// the cursor left where it was, where fewer are left in the range.
    pub fn next(&mut self, buf: &[u8], len: usize) -> (r: Result<Vec<u8>, MidiParseError>)
        requires
            old(self).hi() <= buf@.len(),
        ensures
            r is Err ==> r->Err_0.state.track_index() == old(self).track_index(),
            final(self).track_index() == old(self).track_index(),
            final(self).lo() == old(self).lo(),
            final(self).hi() == old(self).hi(),
            old(self).pos() + len <= old(self).hi() ==> r is Ok && r->Ok_0@ == buf@.subrange(
                old(self).pos(),
                old(self).pos() + len,
            ) && final(self).pos() == old(self).pos() + len,
            old(self).pos() + len > old(self).hi() ==> r is Err && r->Err_0.kind
                == MidiParseErrorKind::EndOfBuffer && r->Err_0.state.pos() == old(self).pos()
                && final(self).pos() == old(self).pos(),
    {
        let r = self.take(buf, len);
        if r.is_ok() {
            self.forward(len);
        }
        r
    }

    /// The `len` bytes just before the cursor.
    pub fn retake(&self, buf: &[u8], len: usize) -> (r: Vec<u8>)
        requires
            self.lo() <= self.pos() - len,
            self.hi() <= buf@.len(),
        ensures
            r@ == buf@.subrange(self.pos() - len, self.pos()),
    {
        proof {
            use_type_invariant(self);
        }
        let back = self.at(self.curr - len);
        let r = back.take(buf, len);
        match r {
            Ok(v) => v,
            Err(_) => Vec::new(),
        }
    }

    /// The byte at the cursor; `EndOfBuffer` at the end of the range.
    pub fn byte(&self, buf: &[u8]) -> (r: Result<u8, MidiParseError>)
        requires
            self.hi() <= buf@.len(),
        ensures
            r is Err ==> r->Err_0.state.track_index() == self.track_index(),
            self.pos() < self.hi() ==> r == Ok::<u8, MidiParseError>(buf@[self.pos()]),
            self.pos() >= self.hi() ==> r is Err && r->Err_0.kind == MidiParseErrorKind::EndOfBuffer
                && r->Err_0.state.pos() == self.pos(),
    {
        proof {
            use_type_invariant(self);
        }
        if self.curr < self.end {
            Ok(buf[self.curr])
        } else {
            Err(self.error(MidiParseErrorKind::EndOfBuffer))
        }
    }

    /// The variable-length number at the cursor, moving the cursor past it;
    /// `EndOfBuffer`, with the cursor left where it was, where none ends
    /// within four bytes and within the range.
    pub fn mxbyte(&mut self, buf: &[u8]) -> (r: Result<MXByte, MidiParseError>)
        requires
            old(self).hi() <= buf@.len(),
        ensures
            r is Err ==> r->Err_0.state.track_index() == old(self).track_index(),
            final(self).track_index() == old(self).track_index(),
            final(self).lo() == old(self).lo(),
            final(self).hi() == old(self).hi(),
            match vlq_decode(buf@.subrange(old(self).pos(), old(self).hi())) {
                Some((v, n)) => r is Ok && r->Ok_0@ == (v, n) && final(self).pos() == old(self).pos()
                    + n,
                None => r is Err && r->Err_0.kind == MidiParseErrorKind::EndOfBuffer
                    && r->Err_0.state.pos() == old(self).pos() && final(self).pos() == old(
                    self,
                ).pos(),
            },
    {
        proof {
            use_type_invariant(&*self);
        }
        match read_var_len(buf, self.curr, self.end) {
            Ok(m) => {
                let n = m.len();
                proof {
                    let w = buf@.subrange(self.pos(), self.hi());
                    crate::vlq::lemma_vlq_end_within(w);
                }
                self.forward(n);
                Ok(m)
            },
            Err(_) => Err(self.error(MidiParseErrorKind::EndOfBuffer)),
        }
    }

    pub fn name(&self) -> (r: String) {
        self.name.clone()
    }

    /// The index of the track the cursor reads in, if it reads in one.
    pub fn track(&self) -> (r: Option<usize>)
        ensures
            match r {
                Some(i) => self.track_index() == Some(i as nat),
                None => self.track_index() is None,
            },
    {
        self.track
    }

    pub fn curr(&self) -> (r: usize)
        ensures
            r == self.pos(),
    {
        self.curr
    }

    pub fn start(&self) -> (r: usize)
        ensures
            r == self.lo(),
    {
        self.start
    }

    pub fn end(&self) -> (r: usize)
        ensures
            r == self.hi(),
    {
        self.end
    }
}

} // verus!
