//! A fixed-capacity circular buffer of stereo sample frames.
//!
//! One side appends frames with [`RingBuffer::write_sample`], the other
//! drains them in the same order with [`RingBuffer::read`] or
//! [`RingBuffer::read_interleaved`]. These three leave it to the caller to
//! stay within what the buffer holds. The `try_` forms test it themselves:
//! a frame offered to a full buffer is dropped, and a read that asks for
//! more than is buffered takes nothing, delivers silence and says so. The
//! buffer never grows.
use vstd::prelude::*;
use vstd::arithmetic::div_mod::lemma_fundamental_div_mod_converse;

verus! {

/// Number of frames that a buffer made by [`RingBuffer::new`] holds.
pub const BUFFER_LEN: usize = 64000;

/// Largest capacity a buffer can be made with: the frame count is reported
/// as an `i32`.
pub const MAX_CAPACITY: usize = 0x7fff_ffff;

/// Why a checked buffer operation did nothing.
#[derive(Clone, Copy, Debug, PartialEq, Eq, Structural)]
pub enum RingError {
    /// The buffer was full; the offered frame was dropped.
    Overrun,
    /// More frames were requested than are buffered; silence was delivered.
    Underrun,
    /// The destination cannot hold whole frames: the two channel slices
    /// differ in length, or an interleaved slice has an odd length.
    BadLength,
}

/// The buffer: one backing array per channel, a cursor for each side and
/// the number of frames between them.
pub struct RingBuffer {
    left_buffer: Vec<i16>,
    right_buffer: Vec<i16>,
    write_pos: usize,
    read_pos: usize,
    sample_count: usize,
}

/// The slot that lies `offset` places after `start` in a ring of `capacity`
/// slots, for `start < capacity` and `offset <= capacity`.
pub open spec fn slot(start: int, offset: int, capacity: int) -> int {
    if start + offset < capacity {
        start + offset
    } else {
        start + offset - capacity
    }
}

/// The left channel of a run of frames.
pub open spec fn left_channel(frames: Seq<(i16, i16)>) -> Seq<i16> {
    Seq::new(frames.len(), |i: int| frames[i].0)
}

/// The right channel of a run of frames.
pub open spec fn right_channel(frames: Seq<(i16, i16)>) -> Seq<i16> {
    Seq::new(frames.len(), |i: int| frames[i].1)
}

/// A run of frames laid out sample by sample, left before right.
pub open spec fn interleaved(frames: Seq<(i16, i16)>) -> Seq<i16> {
    Seq::new(
        2 * frames.len(),
        |i: int|
            if i % 2 == 0 {
                frames[i / 2].0
            } else {
                frames[i / 2].1
            },
    )
}

/// `len` samples of silence.
pub open spec fn silence(len: nat) -> Seq<i16> {
    Seq::new(len, |i: int| 0i16)
}

/// The buffered frames after `frames` were appended one by one.
pub open spec fn after_writes(contents: Seq<(i16, i16)>, frames: Seq<(i16, i16)>) -> Seq<(i16, i16)>
    decreases frames.len(),
{
    if frames.len() == 0 {
        contents
    } else {
        after_writes(contents, frames.drop_last()).push(frames.last())
    }
}

/// The frames that a read of `n` frames delivers.
pub open spec fn frames_read(contents: Seq<(i16, i16)>, n: int) -> Seq<(i16, i16)> {
    contents.subrange(0, n)
}

/// The buffered frames that a read of `n` frames leaves behind.
pub open spec fn after_read(contents: Seq<(i16, i16)>, n: int) -> Seq<(i16, i16)> {
    contents.subrange(n, contents.len() as int)
}

impl View for RingBuffer {
    type V = Seq<(i16, i16)>;

    /// The buffered frames that have not been read yet, oldest first.
    closed spec fn view(&self) -> Seq<(i16, i16)> {
        Seq::new(
            self.sample_count as nat,
            |i: int|
                (
                    self.left_buffer@[slot(self.read_pos as int, i, self.left_buffer@.len() as int)],
                    self.right_buffer@[slot(
                        self.read_pos as int,
                        i,
                        self.left_buffer@.len() as int,
                    )],
                ),
        )
    }
}

impl RingBuffer {
    /// Number of frames the buffer can hold.
    pub closed spec fn spec_capacity(&self) -> nat {
        self.left_buffer@.len()
    }

    /// Index of the slot that the next read takes.
    pub closed spec fn read_cursor(&self) -> nat {
        self.read_pos as nat
    }

    /// Index of the slot that the next write fills.
    pub closed spec fn write_cursor(&self) -> nat {
        self.write_pos as nat
    }

    /// The frame stored in slot `index` of the backing arrays, read or not.
    pub closed spec fn frame_at(&self, index: int) -> (i16, i16) {
        (self.left_buffer@[index], self.right_buffer@[index])
    }

    /// What a read of `n` frames makes of the buffer `before`: the oldest
    /// `n` frames are gone, the read cursor has moved on by `n` slots,
    /// wrapping at the capacity, and nothing else has changed.
    pub open spec fn took_frames(&self, before: RingBuffer, n: int) -> bool {
        &&& self@ == after_read(before@, n)
        &&& self.spec_capacity() == before.spec_capacity()
        &&& self.write_cursor() == before.write_cursor()
        &&& self.read_cursor() == (before.read_cursor() as int + n) % (
        before.spec_capacity() as int)
        &&& forall|index: int| self.frame_at(index) == before.frame_at(index)
    }

    /// The representation invariant: both channels have the same fixed
    /// length, the cursors lie inside it, no more frames are buffered than
    /// fit, and the write cursor lies `count` slots after the read cursor.
    pub closed spec fn wf(&self) -> bool {
        &&& 0 < self.left_buffer@.len() <= MAX_CAPACITY
        &&& self.right_buffer@.len() == self.left_buffer@.len()
        &&& self.read_pos < self.left_buffer@.len()
        &&& self.write_pos < self.left_buffer@.len()
        &&& self.sample_count <= self.left_buffer@.len()
        &&& self.write_pos as int == slot(
            self.read_pos as int,
            self.sample_count as int,
            self.left_buffer@.len() as int,
        )
    }

    /// What the invariant means for the cursors: the count stays within the
    /// capacity and the write cursor equals the read cursor plus the count,
    /// modulo the capacity.
    pub proof fn lemma_cursor_invariant(&self)
        requires
            self.wf(),
        ensures
            0 < self.spec_capacity() <= MAX_CAPACITY,
            self@.len() <= self.spec_capacity(),
            self.read_cursor() < self.spec_capacity(),
            self.write_cursor() < self.spec_capacity(),
            self.write_cursor() == (self.read_cursor() as int + self@.len()) % (
            self.spec_capacity() as int),
    {
        lemma_slot_is_modular(
            self.read_pos as int,
            self.sample_count as int,
            self.left_buffer@.len() as int,
        );
    }

    fn zeroed(capacity: usize) -> (ring: RingBuffer)
        requires
            0 < capacity <= MAX_CAPACITY,
        ensures
            ring.wf(),
            ring@ == Seq::<(i16, i16)>::empty(),
            ring.spec_capacity() == capacity,
            ring.read_cursor() == 0,
            ring.write_cursor() == 0,
    {
        let ring = RingBuffer {
            left_buffer: vec![0i16; capacity],
            right_buffer: vec![0i16; capacity],
            write_pos: 0,
            read_pos: 0,
            sample_count: 0,
        };
        assert(ring@ =~= Seq::<(i16, i16)>::empty());
        ring
    }

    /// An empty buffer of [`BUFFER_LEN`] frames.
    pub fn new() -> (ring: RingBuffer)
        ensures
            ring.wf(),
            ring@ == Seq::<(i16, i16)>::empty(),
            ring.spec_capacity() == BUFFER_LEN,
            ring.read_cursor() == 0,
            ring.write_cursor() == 0,
    {
        RingBuffer::zeroed(BUFFER_LEN)
    }

    /// An empty buffer of `capacity` frames, or `None` where `capacity` is
    /// zero or above [`MAX_CAPACITY`].
    pub fn with_capacity(capacity: usize) -> (made: Option<RingBuffer>)
        ensures
            made is Some <==> 0 < capacity <= MAX_CAPACITY,
            made matches Some(ring) ==> ring.wf() && ring@ == Seq::<(i16, i16)>::empty(),
            made matches Some(ring) ==> ring.spec_capacity() == capacity,
            made matches Some(ring) ==> ring.read_cursor() == 0 && ring.write_cursor() == 0,
    {
        if capacity == 0 || capacity > MAX_CAPACITY {
            None
        } else {
            Some(RingBuffer::zeroed(capacity))
        }
    }

    /// Number of frames the buffer can hold.
    pub fn capacity(&self) -> (capacity: usize)
        ensures
            capacity == self.spec_capacity(),
    {
        self.left_buffer.len()
    }

    /// Number of buffered frames that have not been read yet.
    pub fn get_sample_count(&self) -> (count: i32)
        requires
            self.wf(),
        ensures
            count == self@.len(),
    {
        self.sample_count as i32
    }

    /// Appends one frame. The caller keeps the buffer from overrunning; see
    /// [`RingBuffer::try_write_sample`] for the checked form.
    pub fn write_sample(&mut self, left: i16, right: i16)
        requires
            old(self).wf(),
            old(self)@.len() < old(self).spec_capacity(),
        ensures
            final(self).wf(),
            final(self)@ == old(self)@.push((left, right)),
            final(self).spec_capacity() == old(self).spec_capacity(),
            final(self).read_cursor() == old(self).read_cursor(),
            final(self).write_cursor() == (old(self).write_cursor() as int + 1) % (
            old(self).spec_capacity() as int),
            final(self).frame_at(old(self).write_cursor() as int) == (left, right),
            forall|index: int|
                0 <= index < old(self).spec_capacity() && index != old(self).write_cursor()
                    ==> final(self).frame_at(index) == old(self).frame_at(index),
    {
        let capacity = self.left_buffer.len();
        proof {
            lemma_slot_is_modular(self.write_pos as int, 1, capacity as int);
        }
        self.left_buffer[self.write_pos] = left;
        self.right_buffer[self.write_pos] = right;
        self.write_pos = (self.write_pos + 1) % capacity;
        self.sample_count += 1;
        assert(self@ =~= old(self)@.push((left, right)));
    }

    /// Appends one frame if there is room for it. A full buffer drops the
    /// offered frame and keeps what it holds.
    pub fn try_write_sample(&mut self, left: i16, right: i16) -> (done: Result<(), RingError>)
        requires
            old(self).wf(),
        ensures
            final(self).wf(),
            final(self).spec_capacity() == old(self).spec_capacity(),
            final(self).read_cursor() == old(self).read_cursor(),
            done is Ok <==> old(self)@.len() < old(self).spec_capacity(),
            done is Ok ==> final(self)@ == old(self)@.push((left, right)),
            done is Err ==> done == Err::<(), RingError>(RingError::Overrun) && *final(self) == *old(
                self,
            ),
    {
        if self.sample_count < self.left_buffer.len() {
            self.write_sample(left, right);
            Ok(())
        } else {
            Err(RingError::Overrun)
        }
    }

    /// Moves the oldest `left.len()` frames out, one channel into each
    /// slice.
    pub fn read(&mut self, left: &mut [i16], right: &mut [i16])
        requires
            old(self).wf(),
            old(left)@.len() == old(right)@.len(),
            old(left)@.len() <= old(self)@.len(),
        ensures
            final(self).wf(),
            final(left)@ == left_channel(frames_read(old(self)@, old(left)@.len() as int)),
            final(right)@ == right_channel(frames_read(old(self)@, old(left)@.len() as int)),
            final(self).took_frames(*old(self), old(left)@.len() as int),
    {
        let num_samples = left.len();
        let capacity = self.left_buffer.len();
        let mut i: usize = 0;
        while i < num_samples
            invariant
                old(self).wf(),
                capacity == old(self).left_buffer@.len(),
                self.left_buffer == old(self).left_buffer,
                self.right_buffer == old(self).right_buffer,
                self.write_pos == old(self).write_pos,
                self.sample_count == old(self).sample_count,
                num_samples <= self.sample_count,
                left@.len() == num_samples,
                right@.len() == num_samples,
                i <= num_samples,
                self.read_pos < capacity,
                self.read_pos as int == slot(old(self).read_pos as int, i as int, capacity as int),
                forall|j: int| 0 <= j < i ==> #[trigger] left@[j] == old(self)@[j].0,
                forall|j: int| 0 <= j < i ==> #[trigger] right@[j] == old(self)@[j].1,
            decreases num_samples - i,
        {
            proof {
                lemma_slot_is_modular(self.read_pos as int, 1, capacity as int);
            }
            left[i] = self.left_buffer[self.read_pos];
            right[i] = self.right_buffer[self.read_pos];
            self.read_pos = (self.read_pos + 1) % capacity;
            i += 1;
        }
        self.sample_count -= num_samples;
        proof {
            let n = num_samples as int;
            lemma_slot_is_modular(old(self).read_pos as int, n, capacity as int);
            assert(left@ =~= left_channel(frames_read(old(self)@, n)));
            assert(right@ =~= right_channel(frames_read(old(self)@, n)));
            assert(self@ =~= after_read(old(self)@, n)) by {
                assert forall|k: int| 0 <= k < self.sample_count implies self@[k] == old(self)@[k
                    + n] by {
                    assert(slot(self.read_pos as int, k, capacity as int) == slot(
                        old(self).read_pos as int,
                        k + n,
                        capacity as int,
                    ));
                }
            }
        }
    }

    /// Moves the oldest `out.len() / 2` frames out, sample by sample, left
    /// before right.
    pub fn read_interleaved(&mut self, out: &mut [i16])
        requires
            old(self).wf(),
            old(out)@.len() % 2 == 0,
            old(out)@.len() / 2 <= old(self)@.len(),
        ensures
            final(self).wf(),
            final(out)@ == interleaved(frames_read(old(self)@, old(out)@.len() as int / 2)),
            final(self).took_frames(*old(self), old(out)@.len() as int / 2),
    {
        let num_samples = out.len() / 2;
        let capacity = self.left_buffer.len();
        let mut out_idx: usize = 0;
        let mut i: usize = 0;
        while i < num_samples
            invariant
                old(self).wf(),
                capacity == old(self).left_buffer@.len(),
                self.left_buffer == old(self).left_buffer,
                self.right_buffer == old(self).right_buffer,
                self.write_pos == old(self).write_pos,
                self.sample_count == old(self).sample_count,
                num_samples <= self.sample_count,
                out@.len() == 2 * num_samples,
                i <= num_samples,
                out_idx == 2 * i,
                self.read_pos < capacity,
                self.read_pos as int == slot(old(self).read_pos as int, i as int, capacity as int),
                forall|j: int|
                    0 <= j < 2 * i ==> #[trigger] out@[j] == (if j % 2 == 0 {
                        old(self)@[j / 2].0
                    } else {
                        old(self)@[j / 2].1
                    }),
            decreases num_samples - i,
        {
            proof {
                lemma_slot_is_modular(self.read_pos as int, 1, capacity as int);
            }
            out[out_idx] = self.left_buffer[self.read_pos];
            out[out_idx + 1] = self.right_buffer[self.read_pos];
            out_idx += 2;
            self.read_pos = (self.read_pos + 1) % capacity;
            i += 1;
        }
        self.sample_count -= num_samples;
        proof {
            let n = num_samples as int;
            lemma_slot_is_modular(old(self).read_pos as int, n, capacity as int);
            assert(out@ =~= interleaved(frames_read(old(self)@, n)));
            assert(self@ =~= after_read(old(self)@, n)) by {
                assert forall|k: int| 0 <= k < self.sample_count implies self@[k] == old(self)@[k
                    + n] by {
                    assert(slot(self.read_pos as int, k, capacity as int) == slot(
                        old(self).read_pos as int,
                        k + n,
                        capacity as int,
                    ));
                }
            }
        }
    }

    /// Like [`RingBuffer::read`], for any pair of slices. Slices of unequal
    /// length are left alone. A request for more frames than are buffered
    /// takes nothing out of the buffer and fills both slices with silence.
    pub fn try_read(&mut self, left: &mut [i16], right: &mut [i16]) -> (done: Result<
        (),
        RingError,
    >)
        requires
            old(self).wf(),
        ensures
            final(self).wf(),
            final(left)@.len() == old(left)@.len(),
            final(right)@.len() == old(right)@.len(),
            done == read_outcome(old(self)@.len(), old(left)@.len(), old(right)@.len()),
            done is Ok ==> final(left)@ == left_channel(
                frames_read(old(self)@, old(left)@.len() as int),
            ),
            done is Ok ==> final(right)@ == right_channel(
                frames_read(old(self)@, old(left)@.len() as int),
            ),
            done is Ok ==> final(self).took_frames(*old(self), old(left)@.len() as int),
            done is Err ==> *final(self) == *old(self),
            done == Err::<(), RingError>(RingError::BadLength) ==> final(left)@ == old(left)@
                && final(right)@ == old(right)@,
            done == Err::<(), RingError>(RingError::Underrun) ==> final(left)@ == silence(
                old(left)@.len(),
            ) && final(right)@ == silence(old(right)@.len()),
    {
        if left.len() != right.len() {
            Err(RingError::BadLength)
        } else if left.len() > self.sample_count {
            fill_silence(left);
            fill_silence(right);
            Err(RingError::Underrun)
        } else {
            self.read(left, right);
            Ok(())
        }
    }

    /// Like [`RingBuffer::read_interleaved`], for any slice. A slice of odd
    /// length is left alone. A request for more frames than are buffered
    /// takes nothing out of the buffer and fills the slice with silence.
    pub fn try_read_interleaved(&mut self, out: &mut [i16]) -> (done: Result<(), RingError>)
        requires
            old(self).wf(),
        ensures
            final(self).wf(),
            final(out)@.len() == old(out)@.len(),
            done == read_interleaved_outcome(old(self)@.len(), old(out)@.len()),
            done is Ok ==> final(out)@ == interleaved(
                frames_read(old(self)@, old(out)@.len() as int / 2),
            ),
            done is Ok ==> final(self).took_frames(*old(self), old(out)@.len() as int / 2),
            done is Err ==> *final(self) == *old(self),
            done == Err::<(), RingError>(RingError::BadLength) ==> final(out)@ == old(out)@,
            done == Err::<(), RingError>(RingError::Underrun) ==> final(out)@ == silence(
                old(out)@.len(),
            ),
    {
        if out.len() % 2 != 0 {
            Err(RingError::BadLength)
        } else if out.len() / 2 > self.sample_count {
            fill_silence(out);
            Err(RingError::Underrun)
        } else {
            self.read_interleaved(out);
            Ok(())
        }
    }

    /// The frame `i` places from the front of the unread frames lies in the
    /// slot `i` places after the read cursor, counted modulo the capacity:
    /// the unread frames keep their order and their values where the
    /// cursors wrap past the end of the backing arrays.
    pub proof fn lemma_unread_frame_slot(&self, i: int)
        requires
            self.wf(),
            0 <= i < self@.len(),
        ensures
            self@[i] == self.frame_at((self.read_cursor() as int + i) % (self.spec_capacity() as int)),
    {
        lemma_slot_is_modular(self.read_pos as int, i, self.left_buffer@.len() as int);
    }
}

/// What [`RingBuffer::try_read`] returns for a buffer of `count` frames and
/// channel slices of the given lengths.
pub open spec fn read_outcome(count: nat, left_len: nat, right_len: nat) -> Result<(), RingError> {
    if left_len != right_len {
        Err(RingError::BadLength)
    } else if left_len > count {
        Err(RingError::Underrun)
    } else {
        Ok(())
    }
}

/// What [`RingBuffer::try_read_interleaved`] returns for a buffer of `count`
/// frames and a slice of `len` samples.
pub open spec fn read_interleaved_outcome(count: nat, len: nat) -> Result<(), RingError> {
    if len % 2 != 0 {
        Err(RingError::BadLength)
    } else if len / 2 > count {
        Err(RingError::Underrun)
    } else {
        Ok(())
    }
}

/// Overwrites every sample of `out` with zero.
pub fn fill_silence(out: &mut [i16])
    ensures
        final(out)@ == silence(old(out)@.len()),
{
    let len = out.len();
    let mut i: usize = 0;
    while i < len
        invariant
            out@.len() == len,
            i <= len,
            forall|j: int| 0 <= j < i ==> out@[j] == 0i16,
        decreases len - i,
    {
        out[i] = 0;
        i += 1;
    }
    assert(out@ =~= silence(len as nat));
}

/// Writing appends: after `frames` were written one by one, the buffer
/// holds what it held before, followed by `frames` in the order written.
pub proof fn lemma_writes_append(contents: Seq<(i16, i16)>, frames: Seq<(i16, i16)>)
    ensures
        after_writes(contents, frames) == contents + frames,
    decreases frames.len(),
{
    if frames.len() == 0 {
        assert(contents + frames =~= contents);
    } else {
        lemma_writes_append(contents, frames.drop_last());
        assert((contents + frames.drop_last()).push(frames.last()) =~= contents + frames);
    }
}

/// The round trip: where `frames` are written to an empty buffer that has
/// room for them and `n` of them are read back, the frames read are the
/// first `n` frames written, in the order written, and the rest stay
/// buffered in that order.
pub proof fn lemma_round_trip(ring: RingBuffer, frames: Seq<(i16, i16)>, n: int)
    requires
        ring.wf(),
        ring@.len() == 0,
        frames.len() <= ring.spec_capacity(),
        0 <= n <= frames.len(),
    ensures
        frames_read(after_writes(ring@, frames), n) == frames.subrange(0, n),
        after_read(after_writes(ring@, frames), n) == frames.subrange(n, frames.len() as int),
        left_channel(frames_read(after_writes(ring@, frames), n)) == left_channel(frames).subrange(
            0,
            n,
        ),
        right_channel(frames_read(after_writes(ring@, frames), n)) == right_channel(
            frames,
        ).subrange(0, n),
{
    lemma_writes_append(ring@, frames);
    assert(ring@ + frames =~= frames);
    assert(left_channel(frames.subrange(0, n)) =~= left_channel(frames).subrange(0, n));
    assert(right_channel(frames.subrange(0, n)) =~= right_channel(frames).subrange(0, n));
}

/// Reads and writes may alternate: whatever the buffer holds, writing
/// `frames` and then reading `n` frames delivers the first `n` of the old
/// contents followed by `frames`.
pub proof fn lemma_fifo_order(ring: RingBuffer, frames: Seq<(i16, i16)>, n: int)
    requires
        ring.wf(),
        ring@.len() + frames.len() <= ring.spec_capacity(),
        0 <= n <= ring@.len() + frames.len(),
    ensures
        frames_read(after_writes(ring@, frames), n) == (ring@ + frames).subrange(0, n),
        after_read(after_writes(ring@, frames), n) == (ring@ + frames).subrange(
            n,
            (ring@.len() + frames.len()) as int,
        ),
{
    lemma_writes_append(ring@, frames);
}

/// Stepping through a ring with [`slot`] is addition modulo the capacity.
pub proof fn lemma_slot_is_modular(start: int, offset: int, capacity: int)
    requires
        0 <= start < capacity,
        0 <= offset <= capacity,
    ensures
        0 <= slot(start, offset, capacity) < capacity,
        slot(start, offset, capacity) == (start + offset) % capacity,
{
    if start + offset < capacity {
        lemma_fundamental_div_mod_converse(start + offset, capacity, 0, start + offset);
    } else {
        lemma_fundamental_div_mod_converse(start + offset, capacity, 1, start + offset - capacity);
    }
}

} // verus!
