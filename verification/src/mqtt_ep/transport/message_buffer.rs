//! The byte stream that a WebSocket transport reads out of binary messages.
use vstd::prelude::*;

verus! {

/// A frame that the WebSocket stream delivered, as the transport sees it.
pub enum IncomingFrame {
    /// A binary message with its payload.
    Binary(Vec<u8>),
    /// A close frame.
    Close,
    /// Any other message (text, ping, pong).
    Other,
    /// The stream reported an error, with its text.
    Failed(String),
    /// The stream ended.
    End,
}

/// Why no data could be had from the stream.
pub enum FrameRejection {
    /// The connection is closed (a close frame, an unexpected message, or the end).
    Closed,
    /// The stream failed, with the error's text.
    Failed(String),
}

/// The payload of the last binary message and how much of it has been read.
pub struct MessageBuffer {
    data: Vec<u8>,
    pos: usize,
}

impl MessageBuffer {
    pub closed spec fn data(&self) -> Seq<u8> {
        self.data@
    }

    pub closed spec fn pos(&self) -> int {
        self.pos as int
    }

    /// The unread bytes.
    pub open spec fn unread(&self) -> Seq<u8> {
        self.data().subrange(self.pos(), self.data().len() as int)
    }

    pub closed spec fn wf(&self) -> bool {
        self.pos <= self.data@.len()
    }

    /// An empty buffer.
    pub fn new() -> (r: Self)
        ensures
            r.wf(),
            r.unread() == Seq::<u8>::empty(),
    {
        let r = MessageBuffer { data: Vec::new(), pos: 0 };
        assert(r.unread() =~= Seq::<u8>::empty());
        r
    }

    /// Whether every byte has been read, so that a new message is needed.
    pub fn needs_message(&self) -> (r: bool)
        requires
            self.wf(),
        ensures
            r == (self.unread().len() == 0),
    {
        self.pos >= self.data.len()
    }

    /// Takes a frame from the stream: a binary message becomes the bytes to
    /// read; anything else means that there is nothing to read.
    pub fn accept_frame(&mut self, frame: IncomingFrame) -> (r: Result<(), FrameRejection>)
        requires
            old(self).wf(),
        ensures
            final(self).wf(),
            match frame {
                IncomingFrame::Binary(payload) => r is Ok && final(self).unread() == payload@,
                IncomingFrame::Failed(text) => r matches Err(FrameRejection::Failed(t)) && t == text
                    && final(self).unread() == old(self).unread(),
                _ => r matches Err(FrameRejection::Closed) && final(self).unread() == old(self).unread(),
            },
    {
        match frame {
            IncomingFrame::Binary(payload) => {
                self.data = payload;
                self.pos = 0;
                assert(self.unread() =~= self.data@);
                Ok(())
            },
            IncomingFrame::Failed(text) => Err(FrameRejection::Failed(text)),
            _ => Err(FrameRejection::Closed),
        }
    }

    /// Reads up to `max` unread bytes, in order.
    pub fn read(&mut self, max: usize) -> (r: Vec<u8>)
        requires
            old(self).wf(),
        ensures
            final(self).wf(),
            r@.len() == if max < old(self).unread().len() {
                max as int
            } else {
                old(self).unread().len() as int
            },
            r@ == old(self).unread().take(r@.len() as int),
            final(self).unread() == old(self).unread().skip(r@.len() as int),
    {
        let pos = self.pos;
        let len = self.data.len();
        let available = len - pos;
        let to_copy = if max < available { max } else { available };
        let mut r: Vec<u8> = Vec::new();
        let mut k: usize = 0;
        while k < to_copy
            invariant
                self.wf(),
                self.data@ == old(self).data@,
                self.pos == old(self).pos,
                pos == self.pos,
                len == self.data@.len(),
                pos + to_copy <= len,
                0 <= k <= to_copy,
                r@ == self.data@.subrange(self.pos as int, self.pos + k),
            decreases to_copy - k,
        {
            r.push(self.data[pos + k]);
            assert(r@ =~= self.data@.subrange(self.pos as int, self.pos + k + 1));
            k += 1;
        }
        self.pos = self.pos + to_copy;
        assert(r@ =~= old(self).unread().take(to_copy as int));
        assert(self.unread() =~= old(self).unread().skip(to_copy as int));
        r
    }
}

/// What a read gives back is what the message held: reading a whole
/// message in two parts yields the message's bytes in order.
pub proof fn law_reads_concatenate_to_message(before: Seq<u8>, first: Seq<u8>, mid: Seq<u8>, second: Seq<u8>)
    requires
        first.len() <= before.len(),
        first == before.take(first.len() as int),
        mid == before.skip(first.len() as int),
        second == mid.take(second.len() as int),
        second.len() == mid.len(),
    ensures
        first + second == before,
{
    assert(first + second =~= before);
}

} // verus!
