//! The bottom of the transmit chain: the version-guarded barrier in front of the
//! datalink, and the senders derived from it.

use crate::datalink::FrameQueue;
use crate::error::{TxError, TxResult};
use crate::payload::{frames_of, Payload};
use crate::util::wrapping_next;
use vstd::prelude::*;
use vstd::string::*;

verus! {

/// What the datalink's "insufficient buffer" is reported as.
pub open spec fn insufficient_buffer_text() -> Seq<char> {
    "Insufficient buffer space"@
}

/// Version-guarded send barrier: the datalink sender and a counter that every
/// change of the interface's state bumps.
#[derive(Debug)]
pub struct TxBarrier {
    tx: FrameQueue,
    version: u64,
}

impl TxBarrier {
    pub closed spec fn spec_version(&self) -> u64 {
        self.version
    }

    /// The datalink behind the barrier.
    pub closed spec fn datalink(&self) -> FrameQueue {
        self.tx
    }

    /// The frames that passed the barrier and wait on the datalink.
    pub open spec fn spec_frames(&self) -> Seq<Seq<u8>> {
        self.datalink().spec_frames()
    }

    pub fn new(tx: FrameQueue) -> (barrier: TxBarrier)
        ensures
            barrier.spec_version() == 0,
            barrier.datalink() == tx,
    {
        TxBarrier { tx, version: 0 }
    }

    /// Increments the internal counter by one. Used to invalidate all `Tx`
    /// instances created towards this `TxBarrier`.
    pub fn inc(&mut self)
        ensures
            final(self).spec_version() == wrapping_next(old(self).spec_version()),
            final(self).spec_version() != old(self).spec_version(),
            final(self).datalink() == old(self).datalink(),
    {
        self.version = self.version.wrapping_add(1);
    }

    pub fn version(&self) -> (version: u64)
        ensures
            version == self.spec_version(),
    {
        self.version
    }

    /// Number of frames waiting on the datalink.
    pub fn pending(&self) -> (count: usize)
        ensures
            count == self.spec_frames().len(),
    {
        self.tx.pending()
    }

    /// The waiting frame at `index`.
    pub fn frame(&self, index: usize) -> (frame: &Vec<u8>)
        requires
            index < self.spec_frames().len(),
        ensures
            frame@ == self.spec_frames()[index as int],
    {
        self.tx.frame(index)
    }

    /// Hands the waiting frames over, oldest first.
    pub fn take_frames(&mut self) -> (frames: Vec<Vec<u8>>)
        ensures
            frames@.len() == old(self).spec_frames().len(),
            forall|i: int| 0 <= i < frames@.len() ==> frames@[i]@ == old(self).spec_frames()[i],
            final(self).spec_frames() == Seq::<Seq<u8>>::empty(),
            final(self).spec_version() == old(self).spec_version(),
            final(self).datalink().spec_capacity() == old(self).datalink().spec_capacity(),
    {
        self.tx.take_frames()
    }

    /// What a datalink's answer to `build_and_send` means for the sender.
    pub fn io_result_to_tx_result(
        &self,
        r: Option<Result<(), std::io::Error>>,
    ) -> (result: TxResult)
        ensures
            match r {
                None => result matches Err(TxError::Other(text)) && text@
                    == insufficient_buffer_text(),
                Some(Err(e)) => result == Err::<(), TxError>(TxError::IoError(e)),
                Some(Ok(_)) => result == Ok::<(), TxError>(()),
            },
    {
        match r {
            None => Err(TxError::Other("Insufficient buffer space".to_owned())),
            Some(ior) => {
                match ior {
                    Err(e) => Err(TxError::IoError(e)),
                    Ok(()) => Ok(()),
                }
            },
        }
    }

    /// Sends `num_packets` frames of `packet_size` bytes, filled by `payload`,
    /// whatever the version of the caller.
    pub fn send<P: Payload>(
        &mut self,
        num_packets: usize,
        packet_size: usize,
        payload: P,
    ) -> (result: TxResult)
        requires
            payload.wf(),
            payload.min_buffer() <= packet_size,
        ensures
            sent(true, *old(self), *final(self), result, num_packets as nat, packet_size as nat,
                frames_of(payload, num_packets as nat, packet_size as nat)),
    {
        let mut payload = payload;
        let result = self.tx.build_and_send(num_packets, packet_size, &mut payload);
        self.io_result_to_tx_result(result)
    }
}

/// What one send through a barrier comes to.
///
/// A sender that the barrier no longer admits gets `InvalidTx`. Frames that do
/// not fit the datalink's write buffer are refused as a whole. Otherwise all
/// `frames` are queued behind those already waiting. Only a successful send
/// changes the barrier, and none changes its version.
pub open spec fn sent(
    admitted: bool,
    pre: TxBarrier,
    post: TxBarrier,
    result: TxResult,
    count: nat,
    size: nat,
    frames: Seq<Seq<u8>>,
) -> bool {
    if !admitted {
        &&& result == Err::<(), TxError>(TxError::InvalidTx)
        &&& post == pre
    } else if !pre.datalink().fits(count, size) {
        &&& result matches Err(TxError::Other(text))
        &&& text@ == insufficient_buffer_text()
        &&& post == pre
    } else {
        &&& result == Ok::<(), TxError>(())
        &&& post.spec_version() == pre.spec_version()
        &&& post.datalink().spec_capacity() == pre.datalink().spec_capacity()
        &&& post.spec_frames() == pre.spec_frames() + frames
    }
}

/// Anything that frames can be sent through.
pub trait Tx: Sized {
    /// Whether `barrier` still lets this sender through.
    spec fn admitted(&self, barrier: &TxBarrier) -> bool;

    /// Sends `num_packets` frames of `packet_size` bytes through `barrier`,
    /// each filled by `payload`.
    fn send<P: Payload>(
        &mut self,
        barrier: &mut TxBarrier,
        num_packets: usize,
        packet_size: usize,
        payload: P,
    ) -> (result: TxResult)
        requires
            payload.wf(),
            payload.min_buffer() <= packet_size,
        ensures
            *final(self) == *old(self),
            sent(
                old(self).admitted(old(barrier)),
                *old(barrier),
                *final(barrier),
                result,
                num_packets as nat,
                packet_size as nat,
                frames_of(payload, num_packets as nat, packet_size as nat),
            ),
    ;
}

/// Base representation of the sending part of an interface: the barrier's
/// version as it was when the sender was made.
#[derive(Debug)]
pub struct TxImpl {
    version: u64,
}

impl TxImpl {
    pub closed spec fn spec_version(&self) -> u64 {
        self.version
    }

    pub fn new(version: u64) -> (tx: TxImpl)
        ensures
            tx.spec_version() == version,
    {
        TxImpl { version }
    }
}

impl Tx for TxImpl {
    /// A sender is admitted while the barrier's version is the one it was
    /// made with.
    open spec fn admitted(&self, barrier: &TxBarrier) -> bool {
        self.spec_version() == barrier.spec_version()
    }

    fn send<P: Payload>(
        &mut self,
        barrier: &mut TxBarrier,
        num_packets: usize,
        packet_size: usize,
        payload: P,
    ) -> (result: TxResult) {
        if self.version != barrier.version() {
            Err(TxError::InvalidTx)
        } else {
            barrier.send(num_packets, packet_size, payload)
        }
    }
}

/// A sender that a barrier admitted is refused once the barrier has moved
/// on, and every send of a refused sender fails with `InvalidTx` and leaves
/// the barrier as it is.
pub proof fn lemma_stale_sender_refused(
    tx: TxImpl,
    made: TxBarrier,
    now: TxBarrier,
    after: TxBarrier,
    result: TxResult,
    count: nat,
    size: nat,
    frames: Seq<Seq<u8>>,
)
    requires
        tx.admitted(&made),
        now.spec_version() != made.spec_version(),
        sent(tx.admitted(&now), now, after, result, count, size, frames),
    ensures
        !tx.admitted(&now),
        result == Err::<(), TxError>(TxError::InvalidTx),
        after == now,
{
}

} // verus!
