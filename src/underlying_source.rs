//! The byte queue behind a readable stream whose data comes from native code.
//!
//! The controller decides; the caller performs what it decides on the script
//! side (signal newly available bytes, or close the stream when it is still
//! readable).
use vstd::prelude::*;

verus! {

/// Where the data of a native readable stream comes from.
#[derive(Clone, Copy, Debug, PartialEq, Eq, Structural)]
pub enum ExternalUnderlyingSource {
    /// Data already read into memory, of the given total size.
    Memory(usize),
    /// A blob, of the given total size.
    Blob(usize),
    /// A fetch response.
    FetchResponse,
}

/// What the script-side stream is to be told.
#[derive(Clone, Copy, Debug, PartialEq, Eq, Structural)]
pub enum StreamAction {
    /// Nothing to report.
    Nothing,
    /// This many bytes are now available, if the stream is readable.
    SignalAvailable(usize),
    /// Close the stream, if it is readable.
    Close,
}

/// The action that reports `available` queued bytes.
pub open spec fn signal_for(available: nat) -> StreamAction {
    if available == 0 {
        StreamAction::Nothing
    } else {
        StreamAction::SignalAvailable(available as usize)
    }
}

/// The queue of bytes of one native readable stream. New chunks go to the
/// front; reads take bytes from the back, oldest first.
pub struct ExternalUnderlyingSourceController {
    buffer: Vec<u8>,
    closed: bool,
    in_memory: bool,
}

impl ExternalUnderlyingSourceController {
    /// The queued bytes.
    pub closed spec fn buffer(&self) -> Seq<u8> {
        self.buffer@
    }

    /// Whether native code has closed the stream.
    pub closed spec fn is_closed(&self) -> bool {
        self.closed
    }

    /// Whether the stream holds all its data in memory.
    pub closed spec fn spec_in_memory(&self) -> bool {
        self.in_memory
    }

    /// An open controller with nothing queued, for data from `source`.
    pub fn new(source: ExternalUnderlyingSource) -> (r: ExternalUnderlyingSourceController)
        ensures
            r.buffer() == Seq::<u8>::empty(),
            !r.is_closed(),
            r.spec_in_memory() == (source is Memory),
    {
        let (buffer, in_mem) = match source {
            ExternalUnderlyingSource::Blob(size) => (Vec::with_capacity(size), false),
            ExternalUnderlyingSource::Memory(size) => (Vec::with_capacity(size), true),
            ExternalUnderlyingSource::FetchResponse => (Vec::new(), false),
        };
        ExternalUnderlyingSourceController { buffer, closed: false, in_memory: in_mem }
    }

    /// Whether the stream holds all its data in memory.
    #[verifier::when_used_as_spec(spec_in_memory)]
    pub fn in_memory(&self) -> (r: bool)
        ensures
            r == self.spec_in_memory(),
    {
        self.in_memory
    }

    /// A copy of the queued bytes, if the stream holds all its data in memory.
    pub fn get_in_memory_bytes(&self) -> (r: Option<Vec<u8>>)
        ensures
            match r {
                Some(bytes) => self.spec_in_memory() && bytes@ == self.buffer(),
                None => !self.spec_in_memory(),
            },
    {
        if self.in_memory {
            let bytes = self.buffer.clone();
            assert(bytes@ =~= self.buffer@);
            return Some(bytes);
        }
        None
    }

    /// The report for `available` queued bytes: none when there are none.
    pub fn maybe_signal_available_bytes(&self, available: usize) -> (r: StreamAction)
        ensures
            r == signal_for(available as nat),
    {
        if available == 0 {
            return StreamAction::Nothing;
        }
        StreamAction::SignalAvailable(available)
    }

    /// Marks the stream closed by native code; the script side is to close too.
    pub fn close(&mut self) -> (r: StreamAction)
        ensures
            r == StreamAction::Close,
            final(self).is_closed(),
            final(self).buffer() == old(self).buffer(),
            final(self).spec_in_memory() == old(self).spec_in_memory(),
    {
        self.closed = true;
        StreamAction::Close
    }

    /// Puts `chunk` at the front of the queue, and reports what is available.
    pub fn enqueue_chunk(&mut self, chunk: Vec<u8>) -> (r: StreamAction)
        requires
            chunk@.len() + old(self).buffer().len() <= usize::MAX,
        ensures
            final(self).buffer() == chunk@ + old(self).buffer(),
            final(self).is_closed() == old(self).is_closed(),
            final(self).spec_in_memory() == old(self).spec_in_memory(),
            r == signal_for(final(self).buffer().len()),
    {
        let mut chunk = chunk;
        chunk.append(&mut self.buffer);
        self.buffer = chunk;
        let available = self.buffer.len();
        self.maybe_signal_available_bytes(available)
    }

    /// What a pull from the script side calls for: closing, once native
    /// code has closed the stream, or else a report of what is available.
    pub fn pull(&self, desired_size: usize) -> (r: StreamAction)
        ensures
            r == if self.is_closed() {
                StreamAction::Close
            } else {
                signal_for(self.buffer().len())
            },
    {
        if self.closed {
            return StreamAction::Close;
        }
        let available = self.buffer.len();
        self.maybe_signal_available_bytes(available)
    }

    /// Takes the `length` oldest bytes off the back of the queue.
    pub fn get_chunk_with_length(&mut self, length: usize) -> (r: Vec<u8>)
        requires
            length <= old(self).buffer().len(),
        ensures
            r@ == old(self).buffer().subrange(
                old(self).buffer().len() - length,
                old(self).buffer().len() as int,
            ),
            final(self).buffer() == old(self).buffer().subrange(
                0,
                old(self).buffer().len() - length,
            ),
            final(self).is_closed() == old(self).is_closed(),
            final(self).spec_in_memory() == old(self).spec_in_memory(),
    {
        let buffer_len = self.buffer.len();
        self.buffer.split_off(buffer_len - length)
    }

    /// Fills `dest` with the `dest.len()` oldest bytes, taken off the queue.
    pub fn write_into_buffer(&mut self, dest: &mut [u8])
        requires
            old(dest)@.len() <= old(self).buffer().len(),
        ensures
            final(dest)@ == old(self).buffer().subrange(
                old(self).buffer().len() - old(dest)@.len(),
                old(self).buffer().len() as int,
            ),
            final(self).buffer() == old(self).buffer().subrange(
                0,
                old(self).buffer().len() - old(dest)@.len(),
            ),
            final(self).is_closed() == old(self).is_closed(),
            final(self).spec_in_memory() == old(self).spec_in_memory(),
    {
        let length = dest.len();
        let chunk = self.get_chunk_with_length(length);
        let mut i: usize = 0;
        while i < length
            invariant
                length == dest@.len(),
                chunk@.len() == length,
                i <= length,
                forall|j: int| 0 <= j < i ==> dest@[j] == chunk@[j],
            decreases length - i,
        {
            dest[i] = chunk[i];
            i = i + 1;
        }
        assert(dest@ =~= chunk@);
    }
}

} // verus!
