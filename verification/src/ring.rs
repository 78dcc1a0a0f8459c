//! A fixed-capacity circular byte queue.
//!
//! The buffer owns a backing store of exactly `capacity` slots and two
//! cursors: the next slot to read and the next slot to write.  A separate
//! count of occupied slots records which part of the store holds unread
//! bytes, so every byte value (zero included) can be stored safely.
//! Writes append after the newest unread byte and never touch an occupied
//! slot; reads drain from the oldest byte onward, wrapping to the start of
//! the store when a cursor runs off its end.

use vstd::prelude::*;
use vstd::std_specs::vec::axiom_spec_len;
use vstd::std_specs::vec::spec_vec_len;

verus! {

/// How many bytes a write request places: every requested byte for which
/// a free slot exists, in order, so the lesser of the request and the
/// remaining free space.
pub open spec fn write_count(cap: int, used: int, requested: int) -> int {
    if cap - used <= requested {
        cap - used
    } else {
        requested
    }
}

/// The unread bytes after writing `input` into a buffer of capacity `cap`
/// that held `c`: the old bytes followed by the placed prefix of `input`.
pub open spec fn contents_after_write(c: Seq<u8>, cap: int, input: Seq<u8>) -> Seq<u8> {
    c + input.take(write_count(cap, c.len() as int, input.len() as int))
}

/// How many bytes a read request removes: the lesser of the request and
/// the number of unread bytes.
pub open spec fn read_count(available: int, requested: int) -> int {
    if available <= requested {
        available
    } else {
        requested
    }
}

/// The bytes a read request returns: the oldest unread bytes, in the
/// order they were written.
pub open spec fn bytes_read(c: Seq<u8>, requested: int) -> Seq<u8> {
    c.take(read_count(c.len() as int, requested))
}

/// The unread bytes that remain after a read request.
pub open spec fn contents_after_read(c: Seq<u8>, requested: int) -> Seq<u8> {
    c.skip(read_count(c.len() as int, requested))
}

/// A bounded circular byte queue over a fixed backing store.
pub struct RingBuffer {
    /// Next slot to read; rests at `capacity` until the next read wraps it.
    read_idx: usize,
    /// Next slot to write; rests at `capacity` until a write or read wraps it.
    write_idx: usize,
    /// Number of slots currently holding unread bytes.
    used: usize,
    /// The backing store, exactly `capacity` slots.
    data: Vec<u8>,
}

impl RingBuffer {
    /// The fixed number of slots, set at creation.
    pub closed spec fn spec_capacity(&self) -> usize {
        self.data@.len() as usize
    }

    /// The fixed number of slots, set at creation.
    #[verifier::when_used_as_spec(spec_capacity)]
    pub fn capacity(&self) -> (c: usize)
        ensures
            c == self.spec_capacity(),
    {
        self.data.len()
    }

    /// The read cursor, exposed for diagnostics.
    pub closed spec fn read_cursor(self) -> int {
        self.read_idx as int
    }

    /// The write cursor, exposed for diagnostics.
    pub closed spec fn write_cursor(self) -> int {
        self.write_idx as int
    }

    /// The raw backing store, exposed for diagnostics only: slots outside
    /// the unread range may hold stale bytes.
    pub closed spec fn slots_view(self) -> Seq<u8> {
        self.data@
    }

    /// Both cursors, read then write, exposed for diagnostics.
    pub fn cursors(&self) -> (c: (usize, usize))
        ensures
            c.0 == self.read_cursor(),
            c.1 == self.write_cursor(),
    {
        (self.read_idx, self.write_idx)
    }

    /// The raw backing store, exposed for diagnostics.
    pub fn slots(&self) -> (s: &Vec<u8>)
        ensures
            s@ == self.slots_view(),
    {
        &self.data
    }

    /// The read cursor with the end-of-store resting position folded
    /// back onto slot zero.
    closed spec fn rpos(self) -> int {
        if self.read_idx == self.data@.len() {
            0
        } else {
            self.read_idx as int
        }
    }

    /// The slot holding the `i`-th oldest unread byte.
    closed spec fn slot_of(self, i: int) -> int {
        if self.rpos() + i < self.data@.len() {
            self.rpos() + i
        } else {
            self.rpos() + i - self.data@.len()
        }
    }

    /// The occupied slots form one cyclic run: they start at the read
    /// cursor and end exactly where the write cursor stands (with the
    /// cursors' resting position at `capacity` accounted for).
    pub closed spec fn well_formed(self) -> bool {
        &&& self.data@.len() >= 1
        &&& self.read_idx <= self.data@.len()
        &&& self.write_idx <= self.data@.len()
        &&& self.used <= self.data@.len()
        &&& (self.write_idx == self.rpos() + self.used || (
            self.rpos() + self.used >= self.data@.len() && self.write_idx == self.rpos()
                + self.used - self.data@.len()))
    }

    /// The unread bytes, oldest first.
    pub closed spec fn contents(self) -> Seq<u8> {
        Seq::new(self.used as nat, |i: int| self.data@[self.slot_of(i)])
    }

    /// Capacity bound: a well-formed buffer holds at least one slot, and
    /// never more unread bytes than its capacity, whatever sequence of
    /// writes and reads produced it.
    pub proof fn lemma_contents_within_capacity(self)
        requires
            self.well_formed(),
        ensures
            1 <= self.spec_capacity(),
            self.contents().len() <= self.spec_capacity(),
    {
        broadcast use axiom_spec_len;

        assert(spec_vec_len(&self.data) == self.data@.len());
    }
}

/// Makes a buffer of `size` slots, all zero and all free, with both
/// cursors at zero.
pub fn create(size: usize) -> (rb: RingBuffer)
    requires
        size >= 1,
    ensures
        rb.well_formed(),
        rb.capacity() == size,
        rb.contents() == Seq::<u8>::empty(),
        rb.read_cursor() == 0,
        rb.write_cursor() == 0,
        rb.slots_view() == Seq::new(size as nat, |i: int| 0u8),
{
    let mut data: Vec<u8> = Vec::new();
    let mut i: usize = 0;
    while i < size
        invariant
            i <= size,
            data@.len() == i,
            forall|k: int| 0 <= k < i ==> data@[k] == 0u8,
        decreases size - i,
    {
        data.push(0);
        i = i + 1;
    }
    let rb = RingBuffer { read_idx: 0, write_idx: 0, used: 0, data };
    proof {
        assert(rb.contents() =~= Seq::<u8>::empty());
        assert(rb.slots_view() =~= Seq::new(size as nat, |i: int| 0u8));
    }
    rb
}

/// Places the input bytes, in order, into the free slots of the buffer.
/// A byte is skipped exactly when no free slot is left, so the written
/// count is the lesser of the input length and the free space, and the
/// unread bytes afterwards are the old ones followed by the placed
/// prefix of the input: nothing unread is ever overwritten.
pub fn write(rb: &mut RingBuffer, elements: &[u8]) -> (written: usize)
    requires
        old(rb).well_formed(),
    ensures
        final(rb).well_formed(),
        final(rb).capacity() == old(rb).capacity(),
        written == write_count(
            old(rb).capacity() as int,
            old(rb).contents().len() as int,
            elements@.len() as int,
        ),
        final(rb).contents() == contents_after_write(
            old(rb).contents(),
            old(rb).capacity() as int,
            elements@,
        ),
{
    let ghost c0 = old(rb).contents();
    let ghost n0 = c0.len() as int;
    let capacity = rb.data.len();
    let mut written: usize = 0;
    let mut i: usize = 0;
    while i < elements.len()
        invariant
            rb.well_formed(),
            rb.data@.len() == capacity,
            rb.read_idx == old(rb).read_idx,
            old(rb).used == n0,
            n0 <= capacity,
            i <= elements@.len(),
            written == write_count(capacity as int, n0, i as int),
            rb.used == n0 + written,
            rb.contents() == c0 + elements@.take(written as int),
        decreases elements@.len() - i,
    {
        let ghost pre = *rb;
        let element = elements[i];
        if rb.used == capacity {
            // Every slot holds an unread byte: this byte cannot be
            // placed and is skipped.
            proof {
                assert(elements@.take(written as int) =~= elements@.take(
                    write_count(capacity as int, n0, i as int + 1),
                ));
            }
        } else {
            if rb.write_idx == capacity {
                // The write cursor rests at the end of the store.  A free
                // slot exists, and the occupied run ends at the store's
                // end, so slot zero is free: wrap to it.
                rb.write_idx = 0;
            }
            rb.data.set(rb.write_idx, element);
            rb.write_idx = rb.write_idx + 1;
            rb.used = rb.used + 1;
            written = written + 1;
            proof {
                assert(written == i + 1);
                assert(rb.contents() =~= pre.contents().push(element));
                assert(elements@.take(i + 1) =~= elements@.take(i as int).push(element));
                assert(rb.contents() =~= c0 + elements@.take(written as int));
            }
        }
        i = i + 1;
    }
    proof {
        assert(elements@.take(elements@.len() as int) =~= elements@);
    }
    written
}

/// Removes up to `num_of_elements` of the oldest unread bytes and returns
/// them in the order they were written.  The returned sequence is the
/// longest prefix of the unread bytes no longer than the request, and
/// exactly those bytes leave the buffer.  On a buffer with nothing
/// unread, the cursors move only to wrap from their resting position
/// back to slot zero.
pub fn read(rb: &mut RingBuffer, num_of_elements: usize) -> (elements: Vec<u8>)
    requires
        old(rb).well_formed(),
    ensures
        final(rb).well_formed(),
        final(rb).capacity() == old(rb).capacity(),
        elements@ == bytes_read(old(rb).contents(), num_of_elements as int),
        final(rb).contents() == contents_after_read(old(rb).contents(), num_of_elements as int),
        old(rb).contents().len() == 0 ==> elements@.len() == 0 && (final(rb).read_cursor()
            == old(rb).read_cursor() || final(rb).read_cursor() == 0) && (final(rb).write_cursor()
            == old(rb).write_cursor() || final(rb).write_cursor() == 0),
{
    let ghost c0 = old(rb).contents();
    let ghost n0 = c0.len() as int;
    let capacity = rb.data.len();
    let mut elements: Vec<u8> = Vec::new();
    let mut j: usize = 0;
    while j < num_of_elements && rb.used > 0
        invariant
            rb.data@ == old(rb).data@,
            rb.data@.len() == capacity,
            capacity >= 1,
            rb.write_idx == old(rb).write_idx,
            rb.read_idx <= capacity,
            rb.write_idx <= capacity,
            rb.used <= capacity,
            old(rb).used == n0,
            c0 == old(rb).contents(),
            n0 == c0.len(),
            n0 == 0 ==> rb.read_idx == old(rb).read_idx,
            j <= num_of_elements,
            elements@.len() == read_count(n0, j as int),
            rb.used == n0 - elements@.len(),
            elements@ == c0.take(elements@.len() as int),
            rb.contents() == c0.skip(elements@.len() as int),
            rb.write_idx == rb.rpos() + rb.used || (rb.rpos() + rb.used >= capacity
                && rb.write_idx == rb.rpos() + rb.used - capacity) || (rb.used == 0
                && rb.write_idx == capacity && rb.rpos() == 0),
        decreases num_of_elements - j,
    {
        let ghost pre = *rb;
        let ghost k = elements@.len() as int;
        if rb.read_idx == capacity {
            rb.read_idx = 0;
        }
        let element = rb.data[rb.read_idx];
        proof {
            assert(rb.read_idx == pre.rpos());
            assert(element == pre.contents()[0]);
            assert(pre.contents()[0] == c0.skip(k)[0]);
            assert(element == c0[k]);
        }
        elements.push(element);
        rb.read_idx = rb.read_idx + 1;
        rb.used = rb.used - 1;
        j = j + 1;
        proof {
            assert(elements@ =~= c0.take(k + 1));
            assert forall|i: int| 0 <= i < rb.used implies #[trigger] rb.contents()[i] == c0.skip(
                k + 1,
            )[i] by {
                assert(rb.slot_of(i) == pre.slot_of(i + 1));
                assert(pre.contents()[i + 1] == c0.skip(k)[i + 1]);
            }
            assert(rb.contents() =~= c0.skip(k + 1));
        }
    }
    if rb.write_idx == capacity {
        if rb.used == capacity {
            // The store is still full, so slot zero is occupied: the
            // write cursor collapses onto the read cursor.
            rb.write_idx = rb.read_idx;
        } else {
            // Slot zero is free: the write cursor wraps to it.
            rb.write_idx = 0;
        }
    }
    elements
}

/// Total occupied slots never exceed the capacity, whatever sequence of
/// writes produced the unread bytes.
pub proof fn lemma_capacity_bound(c: Seq<u8>, cap: int, input: Seq<u8>)
    requires
        c.len() <= cap,
    ensures
        contents_after_write(c, cap, input).len() <= cap,
{
}

/// A write never destroys unread data: the bytes already held are a
/// prefix of the bytes held afterwards.
pub proof fn lemma_no_silent_overwrite(c: Seq<u8>, cap: int, input: Seq<u8>)
    requires
        c.len() <= cap,
    ensures
        contents_after_write(c, cap, input).take(c.len() as int) == c,
{
    assert(contents_after_write(c, cap, input).take(c.len() as int) =~= c);
}

/// Reading a budget at least as large as the number of unread bytes
/// returns exactly those bytes, oldest first, and leaves the buffer
/// empty, regardless of internal wrap-around.
pub proof fn lemma_read_drains_fifo(c: Seq<u8>, requested: int)
    requires
        c.len() <= requested,
    ensures
        bytes_read(c, requested) == c,
        contents_after_read(c, requested) == Seq::<u8>::empty(),
{
    assert(bytes_read(c, requested) =~= c);
    assert(contents_after_read(c, requested) =~= Seq::<u8>::empty());
}

/// Reading from a buffer with zero occupied slots returns the empty
/// outcome and leaves the unread bytes (none) unchanged.
pub proof fn lemma_empty_read_idempotent(c: Seq<u8>, requested: int)
    requires
        c.len() == 0,
        0 <= requested,
    ensures
        bytes_read(c, requested) == Seq::<u8>::empty(),
        contents_after_read(c, requested) == c,
{
    assert(bytes_read(c, requested) =~= Seq::<u8>::empty());
    assert(contents_after_read(c, requested) =~= c);
}

/// Round trip: writing `x` into an empty buffer of sufficient capacity
/// and then reading `x.len()` bytes returns exactly `x` and leaves the
/// buffer empty.
pub proof fn lemma_round_trip(cap: int, x: Seq<u8>)
    requires
        x.len() <= cap,
    ensures
        contents_after_write(Seq::<u8>::empty(), cap, x) == x,
        bytes_read(contents_after_write(Seq::<u8>::empty(), cap, x), x.len() as int) == x,
        contents_after_read(contents_after_write(Seq::<u8>::empty(), cap, x), x.len() as int)
            == Seq::<u8>::empty(),
{
    assert(contents_after_write(Seq::<u8>::empty(), cap, x) =~= x);
    lemma_read_drains_fifo(x, x.len() as int);
}

} // verus!
