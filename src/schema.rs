use vstd::prelude::*;

use crate::channel_message::channel_arity;

verus! {

/// The lookup tables the event decoder is configured with: for each status
/// nibble, the number of data bytes a channel message of that kind carries
/// (zero for a nibble that opens no channel message); and for each meta
/// subtype, the payload length it fixes, if it fixes one.
#[derive(Debug)]
pub struct EventSchema {
    channel_lengths: Vec<u8>,
    meta_lengths: Vec<Option<u8>>,
}

/// The payload lengths that the standard fixes for meta subtypes.
pub open spec fn standard_meta_len(subtype: u8) -> Option<u8> {
    if subtype == 0x00 || subtype == 0x59 {
        Some(2)
    } else if subtype == 0x20 || subtype == 0x21 {
        Some(1)
    } else if subtype == 0x2F {
        Some(0)
    } else if subtype == 0x51 {
        Some(3)
    } else if subtype == 0x54 {
        Some(5)
    } else if subtype == 0x58 {
        Some(4)
    } else {
        None
    }
}

/// The data-byte counts that the standard gives channel messages.
pub open spec fn standard_channel_len(nibble: u8) -> u8 {
    if 0x8 <= nibble <= 0xE {
        channel_arity(nibble) as u8
    } else {
        0
    }
}

impl EventSchema {
    #[verifier::type_invariant]
    spec fn sized(self) -> bool {
        self.channel_lengths@.len() == 16 && self.meta_lengths@.len() == 256
    }

    /// The data-byte count the table gives status nibble `nibble`.
    pub closed spec fn spec_channel_len(&self, nibble: u8) -> u8 {
        self.channel_lengths@[nibble as int]
    }

    /// The payload length the table fixes for meta subtype `subtype`.
    pub closed spec fn spec_meta_len(&self, subtype: u8) -> Option<u8> {
        self.meta_lengths@[subtype as int]
    }

    /// Tables of the given contents: sixteen channel entries and 256 meta
    /// entries; `None` where a table has another size.
    pub fn new(channel_lengths: Vec<u8>, meta_lengths: Vec<Option<u8>>) -> (r: Option<EventSchema>)
        ensures
            r is Some <==> (channel_lengths@.len() == 16 && meta_lengths@.len() == 256),
            r is Some ==> (forall|n: u8|
                n < 16 ==> #[trigger] r->Some_0.spec_channel_len(n) == channel_lengths@[n as int]),
            r is Some ==> (forall|s: u8|
                #[trigger] r->Some_0.spec_meta_len(s) == meta_lengths@[s as int]),
    {
        if channel_lengths.len() == 16 && meta_lengths.len() == 256 {
            Some(EventSchema { channel_lengths, meta_lengths })
        } else {
            None
        }
    }

    /// The tables of the MIDI 1.0 standard.
    pub fn standard() -> (r: EventSchema)
        ensures
            forall|n: u8| n < 16 ==> #[trigger] r.spec_channel_len(n) == standard_channel_len(n),
            forall|s: u8| #[trigger] r.spec_meta_len(s) == standard_meta_len(s),
    {
        let channel_lengths: Vec<u8> = vec![0, 0, 0, 0, 0, 0, 0, 0, 2, 2, 2, 2, 1, 1, 2, 0];
        let mut meta_lengths: Vec<Option<u8>> = Vec::new();
        let mut i: u16 = 0;
        while i < 256
            invariant
                i <= 256,
                meta_lengths@.len() == i,
                forall|j: int| 0 <= j < i ==> meta_lengths@[j] == standard_meta_len(j as u8),
            decreases 256 - i,
        {
            let s = i as u8;
            let len: Option<u8> = if s == 0x00 || s == 0x59 {
                Some(2)
            } else if s == 0x20 || s == 0x21 {
                Some(1)
            } else if s == 0x2F {
                Some(0)
            } else if s == 0x51 {
                Some(3)
            } else if s == 0x54 {
                Some(5)
            } else if s == 0x58 {
                Some(4)
            } else {
                None
            };
            meta_lengths.push(len);
            i = i + 1;
        }
        let r = EventSchema { channel_lengths, meta_lengths };
        assert forall|n: u8| n < 16 implies #[trigger] r.spec_channel_len(n) == standard_channel_len(n) by {
            assert(r.channel_lengths@ == seq![0u8, 0, 0, 0, 0, 0, 0, 0, 2, 2, 2, 2, 1, 1, 2, 0]);
        }
        r
    }

    /// The data-byte count of channel messages of kind `nibble`.
    pub fn channel_length(&self, nibble: u8) -> (r: u8)
        requires
            nibble < 16,
        ensures
            r == self.spec_channel_len(nibble),
    {
        proof {
            use_type_invariant(self);
        }
        self.channel_lengths[nibble as usize]
    }

    /// The payload length fixed for meta subtype `subtype`, if any.
    pub fn meta_length(&self, subtype: u8) -> (r: Option<u8>)
        ensures
            r == self.spec_meta_len(subtype),
    {
        proof {
            use_type_invariant(self);
        }
        self.meta_lengths[subtype as usize]
    }
}

} // verus!
