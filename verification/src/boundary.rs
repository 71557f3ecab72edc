//! The slot that keeps the text of the most recent failure for a caller
//! that fetches it into a buffer of its own.

use vstd::prelude::*;

verus! {

/// The text of the most recent failure, if it has not been fetched yet.
#[derive(Debug)]
pub struct ErrorSlot {
    message: Option<Vec<u8>>,
}

impl ErrorSlot {
    /// The text that the slot holds.
    pub closed spec fn text(&self) -> Option<Seq<u8>> {
        match self.message {
            Some(m) => Some(m@),
            None => None,
        }
    }

    /// The text leaves room for a closing zero byte.
    pub open spec fn wf(&self) -> bool {
        self.text() is Some ==> self.text().unwrap().len() < usize::MAX
    }

    /// An empty slot.
    pub fn new() -> (slot: ErrorSlot)
        ensures
            slot.text() is None,
            slot.wf(),
    {
        ErrorSlot { message: None }
    }

    /// Puts the text of a failure into the slot, in place of what it held.
    pub fn store(&mut self, message: Vec<u8>)
        requires
            message@.len() < usize::MAX,
        ensures
            final(self).text() == Some(message@),
            final(self).wf(),
    {
        self.message = Some(message);
    }

    /// The size of the buffer that takes the text and its closing zero
    /// byte, or zero where the slot is empty.
    pub fn last_error_length(&self) -> (n: usize)
        requires
            self.wf(),
        ensures
            n == match self.text() {
                Some(m) => m.len() + 1,
                None => 0,
            },
    {
        match &self.message {
            Some(m) => m.len() + 1,
            None => 0,
        }
    }

    /// Moves the text out of the slot into the front of `buffer` and
    /// closes it with a zero byte. The result is the length of the text,
    /// zero where the slot was empty, and nothing where the buffer cannot
    /// hold the text and the zero byte; the buffer is then unchanged. The
    /// slot is empty afterwards in every case.
    pub fn last_error_message(&mut self, buffer: &mut [u8]) -> (written: Option<usize>)
        requires
            old(self).wf(),
        ensures
            final(self).text() is None,
            final(self).wf(),
            final(buffer)@.len() == old(buffer)@.len(),
            match old(self).text() {
                None => written == Some(0usize) && final(buffer)@ == old(buffer)@,
                Some(m) => if m.len() >= old(buffer)@.len() {
                    written is None && final(buffer)@ == old(buffer)@
                } else {
                    written == Some(m.len() as usize) && final(buffer)@ == (m + seq![0u8])
                        + old(buffer)@.skip(m.len() as int + 1)
                },
            },
    {
        let taken = self.message.take();
        let message = match taken {
            Some(m) => m,
            None => {
                return Some(0);
            },
        };
        if message.len() >= buffer.len() {
            return None;
        }
        let mut i: usize = 0;
        while i < message.len()
            invariant
                i <= message@.len() < buffer@.len(),
                buffer@.len() == old(buffer)@.len(),
                buffer@ == message@.take(i as int) + old(buffer)@.skip(i as int),
            decreases message@.len() - i,
        {
            buffer[i] = message[i];
            i += 1;
            assert(buffer@ =~= message@.take(i as int) + old(buffer)@.skip(i as int));
        }
        buffer[i] = 0;
        assert(buffer@ =~= (message@ + seq![0u8]) + old(buffer)@.skip(message@.len() as int + 1));
        Some(message.len())
    }
}

} // verus!
