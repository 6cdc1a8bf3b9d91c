//! The sending half of a raw datalink, held in memory.
//!
//! Frames built by the stack are queued here in the order in which they were
//! sent. Whoever owns the network device drains the queue and puts the frames
//! on the wire.

use crate::payload::{advanced_by, frame_of, frames_of, lemma_advanced_by, zeroed, Payload};
use vstd::prelude::*;

verus! {

/// A bounded write buffer in front of the device, and the frames sent so far.
#[derive(Debug)]
pub struct FrameQueue {
    capacity: usize,
    frames: Vec<Vec<u8>>,
}

impl FrameQueue {
    /// Bytes that one `build_and_send` may write in all.
    pub closed spec fn spec_capacity(&self) -> usize {
        self.capacity
    }

    /// The queued frames, oldest first.
    pub closed spec fn spec_frames(&self) -> Seq<Seq<u8>> {
        Seq::new(self.frames@.len(), |i: int| self.frames@[i]@)
    }

    /// Whether `count` frames of `size` bytes fit the write buffer.
    pub open spec fn fits(&self, count: nat, size: nat) -> bool {
        count * size <= self.spec_capacity()
    }

    pub fn new(capacity: usize) -> (queue: FrameQueue)
        ensures
            queue.spec_capacity() == capacity,
            queue.spec_frames() == Seq::<Seq<u8>>::empty(),
    {
        let queue = FrameQueue { capacity, frames: Vec::new() };
        assert(queue.spec_frames() =~= Seq::<Seq<u8>>::empty());
        queue
    }

    pub fn capacity(&self) -> (capacity: usize)
        ensures
            capacity == self.spec_capacity(),
    {
        self.capacity
    }

    /// Number of frames waiting to be drained.
    pub fn pending(&self) -> (count: usize)
        ensures
            count == self.spec_frames().len(),
    {
        self.frames.len()
    }

    /// The queued frame at `index`.
    pub fn frame(&self, index: usize) -> (frame: &Vec<u8>)
        requires
            index < self.spec_frames().len(),
        ensures
            frame@ == self.spec_frames()[index as int],
    {
        &self.frames[index]
    }

    /// Hands the queued frames over, oldest first, and empties the queue.
    pub fn take_frames(&mut self) -> (frames: Vec<Vec<u8>>)
        ensures
            frames@.len() == old(self).spec_frames().len(),
            forall|i: int| 0 <= i < frames@.len() ==> frames@[i]@ == old(self).spec_frames()[i],
            final(self).spec_frames() == Seq::<Seq<u8>>::empty(),
            final(self).spec_capacity() == old(self).spec_capacity(),
    {
        let mut frames: Vec<Vec<u8>> = Vec::new();
        std::mem::swap(&mut frames, &mut self.frames);
        assert(self.spec_frames() =~= Seq::<Seq<u8>>::empty());
        frames
    }

    /// Builds `num_packets` frames of `packet_size` bytes each, asking
    /// `payload` to fill one zeroed frame after the other, and queues them.
    ///
    /// `None` means insufficient buffer space: nothing was built or queued.
    pub fn build_and_send<P: Payload>(
        &mut self,
        num_packets: usize,
        packet_size: usize,
        payload: &mut P,
    ) -> (result: Option<Result<(), std::io::Error>>)
        requires
            old(payload).wf(),
            old(payload).min_buffer() <= packet_size,
        ensures
            final(self).spec_capacity() == old(self).spec_capacity(),
            !old(self).fits(num_packets as nat, packet_size as nat) ==> {
                &&& result is None
                &&& *final(self) == *old(self)
                &&& *final(payload) == *old(payload)
            },
            old(self).fits(num_packets as nat, packet_size as nat) ==> {
                &&& result == Some(Ok::<(), std::io::Error>(()))
                &&& final(self).spec_frames() == old(self).spec_frames() + frames_of(
                    *old(payload),
                    num_packets as nat,
                    packet_size as nat,
                )
                &&& *final(payload) == advanced_by(
                    *old(payload),
                    num_packets as nat,
                    packet_size as nat,
                )
            },
    {
        let fits: bool = match num_packets.checked_mul(packet_size) {
            Some(total) => total <= self.capacity,
            None => false,
        };
        if !fits {
            return None;
        }
        let mut sent: usize = 0;
        while sent < num_packets
            invariant
                sent <= num_packets,
                self.capacity == old(self).capacity,
                old(payload).wf(),
                old(payload).min_buffer() <= packet_size,
                *payload == advanced_by(*old(payload), sent as nat, packet_size as nat),
                self.spec_frames() == old(self).spec_frames() + frames_of(
                    *old(payload),
                    sent as nat,
                    packet_size as nat,
                ),
            decreases num_packets - sent,
        {
            proof {
                lemma_advanced_by(*old(payload), sent as nat, packet_size as nat);
            }
            let ghost before = self.spec_frames();
            let ghost builder = *payload;
            let mut frame: Vec<u8> = zeroed(packet_size);
            payload.build(frame.as_mut_slice());
            assert(frame@ == frame_of(builder, packet_size as nat));
            self.frames.push(frame);
            sent += 1;
            assert(self.spec_frames() =~= before.push(frame_of(builder, packet_size as nat)));
            assert(self.spec_frames() =~= old(self).spec_frames() + frames_of(
                *old(payload),
                sent as nat,
                packet_size as nat,
            ));
        }
        Some(Ok(()))
    }
}

} // verus!
