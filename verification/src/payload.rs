//! The contract between a packet builder and the buffer that it fills.

use vstd::prelude::*;

verus! {

/// Anything that can serialise itself into the front of a caller-provided
/// buffer.
///
/// A builder may be asked for several frames in a row. One that streams a long
/// payload carries an offset from frame to frame; `advanced` says how.
pub trait Payload: Sized {
    /// Internal consistency of the builder.
    spec fn wf(&self) -> bool;

    /// Number of bytes of the complete serialised form.
    spec fn spec_len(&self) -> nat;

    /// Smallest buffer that `build` accepts: the headers have to fit.
    spec fn min_buffer(&self) -> nat;

    /// The bytes that `build` writes at the front of a buffer of `n` bytes.
    spec fn image(&self, n: nat) -> Seq<u8>;

    /// The builder as one `build` into a buffer of `n` bytes leaves it.
    spec fn advanced(&self, n: nat) -> Self;

    /// Building never writes past the buffer, and leaves a builder that
    /// accepts the same buffers as before.
    proof fn lemma_advanced(&self, n: nat)
        requires
            self.wf(),
            self.min_buffer() <= n,
        ensures
            self.image(n).len() <= n,
            self.advanced(n).wf(),
            self.advanced(n).min_buffer() == self.min_buffer(),
            self.advanced(n).spec_len() == self.spec_len(),
    ;

    /// A builder accepts a buffer that holds exactly its serialised form.
    proof fn lemma_fits_own_length(&self)
        requires
            self.wf(),
        ensures
            self.min_buffer() <= self.spec_len(),
    ;

    fn len(&self) -> (n: usize)
        requires
            self.wf(),
        ensures
            n == self.spec_len(),
    ;

    /// Writes the serialised form at offset 0 of `buffer`. Bytes behind what
    /// was written keep their value; a buffer shorter than the payload gets as
    /// much of it as fits.
    fn build(&mut self, buffer: &mut [u8])
        requires
            old(self).wf(),
            old(self).min_buffer() <= old(buffer)@.len(),
        ensures
            *final(self) == old(self).advanced(old(buffer)@.len()),
            final(buffer)@ == patched(old(buffer)@, old(self).image(old(buffer)@.len())),
    ;
}

/// `buffer` with `image` written over its front.
pub open spec fn patched(buffer: Seq<u8>, image: Seq<u8>) -> Seq<u8> {
    image + buffer.skip(image.len() as int)
}

/// `n` zero bytes: a fresh frame before anything is written to it.
pub open spec fn zeros(n: nat) -> Seq<u8> {
    Seq::new(n, |i: int| 0u8)
}

/// The frame of `size` bytes that `payload` produces from a zeroed buffer.
pub open spec fn frame_of<P: Payload>(payload: P, size: nat) -> Seq<u8> {
    patched(zeros(size), payload.image(size))
}

/// The builder after `count` frames of `size` bytes.
pub open spec fn advanced_by<P: Payload>(payload: P, count: nat, size: nat) -> P
    decreases count,
{
    if count == 0 {
        payload
    } else {
        advanced_by(payload, (count - 1) as nat, size).advanced(size)
    }
}

/// The `count` frames of `size` bytes that `payload` produces in a row.
pub open spec fn frames_of<P: Payload>(payload: P, count: nat, size: nat) -> Seq<Seq<u8>>
    decreases count,
{
    if count == 0 {
        Seq::empty()
    } else {
        frames_of(payload, (count - 1) as nat, size).push(
            frame_of(advanced_by(payload, (count - 1) as nat, size), size),
        )
    }
}

/// A builder stays usable however many frames it has produced.
pub proof fn lemma_advanced_by<P: Payload>(payload: P, count: nat, size: nat)
    requires
        payload.wf(),
        payload.min_buffer() <= size,
    ensures
        advanced_by(payload, count, size).wf(),
        advanced_by(payload, count, size).min_buffer() == payload.min_buffer(),
        advanced_by(payload, count, size).spec_len() == payload.spec_len(),
        frames_of(payload, count, size).len() == count,
    decreases count,
{
    if count > 0 {
        lemma_advanced_by(payload, (count - 1) as nat, size);
        advanced_by(payload, (count - 1) as nat, size).lemma_advanced(size);
    }
}

/// Every frame has the size that was asked for.
pub proof fn lemma_frame_size<P: Payload>(payload: P, size: nat)
    requires
        payload.wf(),
        payload.min_buffer() <= size,
    ensures
        frame_of(payload, size).len() == size,
{
    payload.lemma_advanced(size);
}

/// A send of `count` frames makes `count` frames.
pub proof fn lemma_frames_len<P: Payload>(payload: P, count: nat, size: nat)
    ensures
        frames_of(payload, count, size).len() == count,
    decreases count,
{
    if count > 0 {
        lemma_frames_len(payload, (count - 1) as nat, size);
    }
}

/// The frame at place `k` of a send is the one that the builder makes after
/// `k` frames.
pub proof fn lemma_frame_at<P: Payload>(payload: P, count: nat, size: nat, k: int)
    requires
        0 <= k < count,
    ensures
        frames_of(payload, count, size)[k] == frame_of(
            advanced_by(payload, k as nat, size),
            size,
        ),
    decreases count,
{
    lemma_frames_len(payload, (count - 1) as nat, size);
    if k < count - 1 {
        lemma_frame_at(payload, (count - 1) as nat, size, k);
    }
}

/// One frame that the builder fills to the last byte is the builder's image.
pub proof fn lemma_single_frame<P: Payload>(payload: P, size: nat)
    requires
        payload.image(size).len() == size,
    ensures
        frames_of(payload, 1, size) == seq![payload.image(size)],
{
    reveal_with_fuel(frames_of, 2);
    reveal_with_fuel(advanced_by, 2);
    assert(frame_of(payload, size) =~= payload.image(size));
    assert(frames_of(payload, 1, size) =~= seq![payload.image(size)]);
}

/// The two octets of `value`, most significant first.
pub open spec fn u16_be(value: u16) -> Seq<u8> {
    seq![(value / 256) as u8, (value % 256) as u8]
}

/// The number whose big-endian octets are `hi` and `lo`.
pub open spec fn be_u16(hi: u8, lo: u8) -> u16 {
    (hi * 256 + lo) as u16
}

/// Reading back what `u16_be` wrote gives the number again.
pub proof fn lemma_u16_round_trip(value: u16)
    ensures
        be_u16(u16_be(value)[0], u16_be(value)[1]) == value,
{
}

/// A fresh buffer of `n` zero bytes.
pub fn zeroed(n: usize) -> (buffer: Vec<u8>)
    ensures
        buffer@ == zeros(n as nat),
{
    let mut buffer: Vec<u8> = Vec::new();
    let mut i: usize = 0;
    while i < n
        invariant
            i <= n,
            buffer@ == zeros(i as nat),
        decreases n - i,
    {
        buffer.push(0u8);
        i += 1;
        assert(buffer@ =~= zeros(i as nat));
    }
    buffer
}

/// Writes `value` big-endian at `buffer[at..at + 2]`.
pub fn put_u16(buffer: &mut [u8], at: usize, value: u16)
    requires
        at + 2 <= old(buffer)@.len(),
    ensures
        final(buffer)@ == old(buffer)@.update(at as int, u16_be(value)[0]).update(
            at + 1,
            u16_be(value)[1],
        ),
{
    buffer[at] = (value / 256) as u8;
    buffer[at + 1] = (value % 256) as u8;
}

/// Reads the big-endian number at `buffer[at..at + 2]`.
pub fn get_u16(buffer: &[u8], at: usize) -> (value: u16)
    requires
        at + 2 <= buffer@.len(),
    ensures
        value == be_u16(buffer@[at as int], buffer@[at + 1]),
{
    let hi: u16 = buffer[at] as u16;
    let lo: u16 = buffer[at + 1] as u16;
    hi * 256 + lo
}

/// Copies `src` over `buffer[at..at + src.len()]`.
pub fn put_bytes(buffer: &mut [u8], at: usize, src: &[u8])
    requires
        at + src@.len() <= old(buffer)@.len(),
    ensures
        final(buffer)@ == old(buffer)@.take(at as int) + src@ + old(buffer)@.skip(
            at + src@.len(),
        ),
{
    let n: usize = src.len();
    let total: usize = buffer.len();
    let mut i: usize = 0;
    while i < n
        invariant
            i <= n,
            n == src@.len(),
            total == buffer@.len(),
            at + n <= buffer@.len(),
            buffer@.len() == old(buffer)@.len(),
            forall|k: int| 0 <= k < at ==> buffer@[k] == old(buffer)@[k],
            forall|k: int| 0 <= k < i ==> buffer@[at + k] == src@[k],
            forall|k: int| at + i <= k < buffer@.len() ==> buffer@[k] == old(buffer)@[k],
        decreases n - i,
    {
        buffer[at + i] = src[i];
        i += 1;
    }
    assert(buffer@ =~= old(buffer)@.take(at as int) + src@ + old(buffer)@.skip(at + src@.len()));
}

} // verus!
