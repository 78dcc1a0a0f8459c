//! The refined interface to the circular byte queue: typed outcomes.
//!
//! A write reports `Ok` with the placed count when at least one byte was
//! placed, or when the request itself was empty; it reports
//! `RBErrors::NoSpaceLeft` when a non-empty request placed nothing.  A
//! read returns `Some` with the bytes when at least one came out and
//! `None` when none did.

use crate::ring;
use crate::ring::bytes_read;
use crate::ring::contents_after_read;
use crate::ring::contents_after_write;
use crate::ring::write_count;
use vstd::prelude::*;

verus! {

/// The failures the refined write interface can signal.
#[derive(Debug, PartialEq, Eq, Structural)]
pub enum RBErrors {
    /// A non-empty write request found no free slot at all.
    NoSpaceLeft,
}

/// A bounded circular byte queue whose operations report typed outcomes.
pub struct RingBuffer {
    inner: ring::RingBuffer,
}

impl RingBuffer {
    /// The cyclic-run invariant of the underlying store.
    pub closed spec fn well_formed(self) -> bool {
        self.inner.well_formed()
    }

    /// The fixed number of slots, set at creation.
    pub closed spec fn spec_capacity(&self) -> usize {
        self.inner.spec_capacity()
    }

    /// The fixed number of slots, set at creation.
    #[verifier::when_used_as_spec(spec_capacity)]
    pub fn capacity(&self) -> (c: usize)
        ensures
            c == self.spec_capacity(),
    {
        self.inner.capacity()
    }

    /// The unread bytes, oldest first.
    pub closed spec fn contents(self) -> Seq<u8> {
        self.inner.contents()
    }

    /// The read cursor, exposed for diagnostics.
    pub closed spec fn read_cursor(self) -> int {
        self.inner.read_cursor()
    }

    /// The write cursor, exposed for diagnostics.
    pub closed spec fn write_cursor(self) -> int {
        self.inner.write_cursor()
    }

    /// The raw backing store, exposed for diagnostics only: slots outside
    /// the unread range may hold stale bytes.
    pub closed spec fn slots_view(self) -> Seq<u8> {
        self.inner.slots_view()
    }

    /// Both cursors, read then write, exposed for diagnostics.
    pub fn cursors(&self) -> (c: (usize, usize))
        ensures
            c.0 == self.read_cursor(),
            c.1 == self.write_cursor(),
    {
        self.inner.cursors()
    }

    /// The raw backing store, exposed for diagnostics.
    pub fn slots(&self) -> (s: &Vec<u8>)
        ensures
            s@ == self.slots_view(),
    {
        self.inner.slots()
    }
}

/// Makes a buffer of `size` slots, all zero and all free, with both
/// cursors at zero.
pub fn create(size: usize) -> (rb: RingBuffer)
    requires
        size >= 1,
    ensures
        rb.well_formed(),
        rb.capacity() == size,
        rb.contents() == Seq::<u8>::empty(),
        rb.read_cursor() == 0,
        rb.write_cursor() == 0,
        rb.slots_view() == Seq::new(size as nat, |i: int| 0u8),
{
    RingBuffer { inner: ring::create(size) }
}

/// Places the input bytes, in order, into the free slots of the buffer,
/// exactly as the basic interface does, and reports the outcome as a
/// typed result: `Ok(0)` for an empty request, `Ok` with the placed
/// count when at least one byte was placed, and `NoSpaceLeft` when a
/// non-empty request placed nothing.
pub fn write(rb: &mut RingBuffer, elements: &[u8]) -> (res: Result<usize, RBErrors>)
    requires
        old(rb).well_formed(),
    ensures
        final(rb).well_formed(),
        final(rb).capacity() == old(rb).capacity(),
        final(rb).contents() == contents_after_write(
            old(rb).contents(),
            old(rb).capacity() as int,
            elements@,
        ),
        ({
            let placed = write_count(
                old(rb).capacity() as int,
                old(rb).contents().len() as int,
                elements@.len() as int,
            );
            if placed == 0 && elements@.len() > 0 {
                res == Err::<usize, RBErrors>(RBErrors::NoSpaceLeft)
            } else {
                res == Ok::<usize, RBErrors>(placed as usize)
            }
        }),
{
    if elements.is_empty() {
        proof {
            old(rb).inner.lemma_contents_within_capacity();
            assert(contents_after_write(
                old(rb).contents(),
                old(rb).capacity() as int,
                elements@,
            ) =~= old(rb).contents());
        }
        return Ok(0);
    }
    let written = ring::write(&mut rb.inner, elements);
    if written == 0 {
        Err(RBErrors::NoSpaceLeft)
    } else {
        Ok(written)
    }
}

/// Removes up to `num_of_elements` of the oldest unread bytes, exactly as
/// the basic interface does, and reports the outcome as an option:
/// `Some` with the bytes, in the order they were written, when at least
/// one byte came out, and `None` when none did.  On a buffer with
/// nothing unread, the cursors move only to wrap from their resting
/// position back to slot zero.
pub fn read(rb: &mut RingBuffer, num_of_elements: usize) -> (res: Option<Vec<u8>>)
    requires
        old(rb).well_formed(),
    ensures
        final(rb).well_formed(),
        final(rb).capacity() == old(rb).capacity(),
        final(rb).contents() == contents_after_read(old(rb).contents(), num_of_elements as int),
        ({
            let taken = bytes_read(old(rb).contents(), num_of_elements as int);
            if taken.len() == 0 {
                res is None
            } else {
                res is Some && res->0@ == taken
            }
        }),
        old(rb).contents().len() == 0 ==> res is None && (final(rb).read_cursor() == old(
            rb,
        ).read_cursor() || final(rb).read_cursor() == 0) && (final(rb).write_cursor() == old(
            rb,
        ).write_cursor() || final(rb).write_cursor() == 0),
{
    let elements = ring::read(&mut rb.inner, num_of_elements);
    if elements.is_empty() {
        None
    } else {
        Some(elements)
    }
}

} // verus!
