//! Reading one message off an ingestion connection: every byte up to the
//! peer's close is one message, decoded as UTF-8 once it is complete.
//!
//! The reader only decides; whoever owns the connection reads and hands each
//! outcome over as a [`ReadEvent`].
use vstd::prelude::*;
use vstd::utf8::*;
use crate::codec::utf8_string;

verus! {

/// The largest message a connection may send, in bytes.
pub const MAX_MESSAGE_BYTES: usize = 16777216;

/// What one read of the connection gave.
pub enum ReadEvent {
    /// Some bytes arrived.
    Data(Vec<u8>),
    /// The peer closed the connection: the message is complete.
    Closed,
    /// The read failed.
    Failed,
}

/// Why a connection's message was dropped.
#[derive(Clone, Copy, Debug, PartialEq, Eq, Structural)]
pub enum FrameError {
    /// The complete message is not valid UTF-8.
    InvalidUtf8,
    /// Reading from the connection failed.
    ReadFailed,
    /// The message grew past the reader's limit.
    TooLarge,
}

/// What to do after an event.
pub enum ReadStep {
    /// Read again.
    Continue,
    /// The message is complete; here is its text.
    Complete(String),
    /// Drop the connection and what it sent.
    Abort(FrameError),
}

/// The bytes received so far on one connection.
pub struct FrameReader {
    buffer: Vec<u8>,
    limit: usize,
}

impl FrameReader {
    /// The bytes received so far.
    pub closed spec fn received(&self) -> Seq<u8> {
        self.buffer@
    }

    /// The most bytes the message may hold.
    pub closed spec fn limit(&self) -> nat {
        self.limit as nat
    }

    pub open spec fn wf(&self) -> bool {
        self.received().len() <= self.limit()
    }

    /// A reader for a fresh connection whose message may hold at most
    /// `limit` bytes.
    pub fn new(limit: usize) -> (r: FrameReader)
        ensures
            r.wf(),
            r.received() == Seq::<u8>::empty(),
            r.limit() == limit as nat,
    {
        FrameReader { buffer: Vec::new(), limit }
    }

    /// Takes in what one read gave and says what comes next. Data is kept
    /// while the message stays within the limit; on close the whole message
    /// is decoded as UTF-8. Whatever ends the message empties the reader.
    pub fn on_event(&mut self, event: ReadEvent) -> (r: ReadStep)
        requires
            old(self).wf(),
        ensures
            final(self).wf(),
            final(self).limit() == old(self).limit(),
            match event {
                ReadEvent::Data(chunk) => if old(self).received().len() + chunk@.len() <= old(self).limit() {
                    r is Continue && final(self).received() == old(self).received() + chunk@
                } else {
                    r == ReadStep::Abort(FrameError::TooLarge) && final(self).received() == Seq::<u8>::empty()
                },
                ReadEvent::Closed => final(self).received() == Seq::<u8>::empty() && if valid_utf8(
                    old(self).received(),
                ) {
                    r matches ReadStep::Complete(text) && text@ == decode_utf8(old(self).received())
                } else {
                    r == ReadStep::Abort(FrameError::InvalidUtf8)
                },
                ReadEvent::Failed => r == ReadStep::Abort(FrameError::ReadFailed) && final(self).received()
                    == Seq::<u8>::empty(),
            },
    {
        match event {
            ReadEvent::Data(mut chunk) => {
                if chunk.len() > self.limit - self.buffer.len() {
                    self.buffer = Vec::new();
                    return ReadStep::Abort(FrameError::TooLarge);
                }
                self.buffer.append(&mut chunk);
                ReadStep::Continue
            },
            ReadEvent::Closed => {
                let mut bytes: Vec<u8> = Vec::new();
                bytes.append(&mut self.buffer);
                match utf8_string(bytes) {
                    Some(text) => ReadStep::Complete(text),
                    None => ReadStep::Abort(FrameError::InvalidUtf8),
                }
            },
            ReadEvent::Failed => {
                self.buffer = Vec::new();
                ReadStep::Abort(FrameError::ReadFailed)
            },
        }
    }
}

} // verus!
