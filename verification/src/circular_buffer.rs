//! Fixed-capacity ring buffer with overwrite-on-full semantics.
//!
//! The buffer is the single shared store between the audio capture path and
//! the poll loop. Its abstract value is the sequence of stored elements in
//! write order, oldest first; the capacity bounds how much history is kept.

use vstd::prelude::*;
use vstd::std_specs::vec::vec_index_mut;

verus! {

/// Outcome of a buffer operation that could not be completed.
#[derive(Debug, PartialEq, Eq, Structural)]
pub enum CircularError {
    Empty,
    Full,
}

/// Bounded element store. Physically the elements live in `buf`, rotated so
/// that the oldest element sits at index `head`; the abstract contents are
/// `buf[head..] ++ buf[..head]`.
pub struct CircularBuffer<T> {
    buf: Vec<T>,
    head: usize,
    cap: usize,
}

/// One overwrite step on the abstract contents: append, evicting the oldest
/// element first when the buffer is full. A zero-capacity buffer stores
/// nothing and stays empty.
pub open spec fn spec_overwrite<T>(s: Seq<T>, cap: nat, e: T) -> Seq<T> {
    if s.len() < cap {
        s.push(e)
    } else if cap == 0 {
        s
    } else {
        s.drop_first().push(e)
    }
}

/// A whole sequence of overwrite steps, applied left to right.
pub open spec fn spec_overwrite_all<T>(s: Seq<T>, cap: nat, ws: Seq<T>) -> Seq<T>
    decreases ws.len(),
{
    if ws.len() == 0 {
        s
    } else {
        spec_overwrite_all(spec_overwrite(s, cap, ws[0]), cap, ws.drop_first())
    }
}

impl<T> View for CircularBuffer<T> {
    type V = Seq<T>;

    closed spec fn view(&self) -> Seq<T> {
        self.buf@.subrange(self.head as int, self.buf@.len() as int)
            + self.buf@.subrange(0, self.head as int)
    }
}

impl<T> CircularBuffer<T> {
    /// Internal layout invariant: never more elements than the capacity, and
    /// the rotation index points at a stored element (or zero when empty).
    pub closed spec fn wf(&self) -> bool {
        &&& self.buf@.len() <= self.cap
        &&& self.head == 0 || self.head < self.buf@.len()
    }

    /// The fixed capacity the buffer was created with.
    pub closed spec fn capacity(&self) -> nat {
        self.cap as nat
    }

    /// Whether the contents occupy a single contiguous stretch of storage.
    pub closed spec fn is_contiguous(&self) -> bool {
        self.head == 0
    }

    /// The stored contents never exceed the capacity.
    pub proof fn lemma_len_bound(&self)
        requires
            self.wf(),
        ensures
            self@.len() <= self.capacity(),
    {
    }

    pub fn new(capacity: usize) -> (r: Self)
        ensures
            r.wf(),
            r@ == Seq::<T>::empty(),
            r.capacity() == capacity,
            r.is_contiguous(),
    {
        let r = CircularBuffer { buf: Vec::new(), head: 0, cap: capacity };
        proof {
            assert(r@ =~= Seq::<T>::empty());
        }
        r
    }

    /// Append `element` at the logical end of the contents.
    fn push_newest(&mut self, element: T)
        requires
            old(self).wf(),
            old(self)@.len() < old(self).capacity(),
        ensures
            final(self).wf(),
            final(self)@ == old(self)@.push(element),
            final(self).capacity() == old(self).capacity(),
    {
        self.buf.insert(self.head, element);
        self.head = self.head + 1;
        if self.head == self.buf.len() {
            self.head = 0;
        }
        proof {
            assert(self@ =~= old(self)@.push(element));
        }
    }

    /// Append without eviction; refused when the buffer is full.
    pub fn write(&mut self, element: T) -> (r: Result<(), CircularError>)
        requires
            old(self).wf(),
        ensures
            final(self).wf(),
            final(self).capacity() == old(self).capacity(),
            old(self)@.len() < old(self).capacity() ==> r == Ok::<(), CircularError>(())
                && final(self)@ == old(self)@.push(element),
            old(self)@.len() >= old(self).capacity() ==> r == Err::<(), CircularError>(
                CircularError::Full,
            ) && final(self)@ == old(self)@,
    {
        if self.buf.len() == self.cap {
            Err(CircularError::Full)
        } else {
            self.push_newest(element);
            Ok(())
        }
    }

    /// Append, evicting the oldest element when full; never fails. This is
    /// the capture path's mode, so live audio is never rejected.
    pub fn overwrite(&mut self, element: T)
        requires
            old(self).wf(),
        ensures
            final(self).wf(),
            final(self).capacity() == old(self).capacity(),
            final(self)@ == spec_overwrite(old(self)@, old(self).capacity(), element),
    {
        if self.cap == 0 {
            return ;
        }
        if self.buf.len() == self.cap {
            let slot = vec_index_mut(&mut self.buf, self.head);
            *slot = element;
            self.head = self.head + 1;
            if self.head == self.buf.len() {
                self.head = 0;
            }
            proof {
                assert(self@ =~= old(self)@.drop_first().push(element));
            }
        } else {
            self.push_newest(element);
        }
    }

    /// Pop and return the oldest element.
    pub fn read(&mut self) -> (r: Result<T, CircularError>)
        requires
            old(self).wf(),
        ensures
            final(self).wf(),
            final(self).capacity() == old(self).capacity(),
            old(self)@.len() == 0 ==> r == Err::<T, CircularError>(CircularError::Empty)
                && final(self)@ == old(self)@,
            old(self)@.len() > 0 ==> r == Ok::<T, CircularError>(old(self)@[0])
                && final(self)@ == old(self)@.drop_first(),
    {
        if self.buf.len() == 0 {
            proof {
                assert(self@ =~= old(self)@);
            }
            Err(CircularError::Empty)
        } else {
            let e = self.buf.remove(self.head);
            if self.head == self.buf.len() {
                self.head = 0;
            }
            proof {
                assert(self@ =~= old(self)@.drop_first());
            }
            Ok(e)
        }
    }

    /// Number of stored elements.
    pub fn len(&self) -> (r: usize)
        requires
            self.wf(),
        ensures
            r == self@.len(),
    {
        self.buf.len()
    }

    /// The contents as at most two contiguous stretches, oldest first: their
    /// concatenation is exactly the stored sequence in write order.
    pub fn as_slices(&self) -> (r: (&[T], &[T]))
        requires
            self.wf(),
        ensures
            r.0@ + r.1@ == self@,
            self.is_contiguous() ==> r.1@.len() == 0 && r.0@ == self@,
    {
        let s = self.buf.as_slice();
        let a = vstd::slice::slice_subrange(s, self.head, self.buf.len());
        let b = vstd::slice::slice_subrange(s, 0, self.head);
        proof {
            assert(a@ + b@ =~= self@);
            if self.head == 0 {
                assert(a@ =~= self@);
            }
        }
        (a, b)
    }

    /// Rotate the storage so a single contiguous view holds everything.
    pub fn make_contiguous(&mut self)
        requires
            old(self).wf(),
        ensures
            final(self).wf(),
            final(self)@ == old(self)@,
            final(self).capacity() == old(self).capacity(),
            final(self).is_contiguous(),
    {
        while self.head > 0
            invariant
                self.wf(),
                self@ == old(self)@,
                self.capacity() == old(self).capacity(),
            decreases self.head,
        {
            let ghost prev = self.buf@;
            let ghost h = self.head as int;
            let e = self.buf.remove(0);
            self.buf.push(e);
            self.head = self.head - 1;
            proof {
                assert(self.buf@ =~= prev.subrange(1, prev.len() as int).push(prev[0]));
                assert(self@ =~= prev.subrange(h, prev.len() as int) + prev.subrange(0, h));
            }
        }
    }

    /// Reset to empty, keeping the capacity.
    pub fn clear(&mut self)
        requires
            old(self).wf(),
        ensures
            final(self).wf(),
            final(self)@ == Seq::<T>::empty(),
            final(self).capacity() == old(self).capacity(),
            final(self).is_contiguous(),
    {
        self.buf.clear();
        self.head = 0;
        proof {
            assert(self@ =~= Seq::<T>::empty());
        }
    }

    /// A copy of the contents in write order, oldest first.
    pub fn iter(&self) -> (r: Vec<T>) where T: Copy
        requires
            self.wf(),
        ensures
            r@ == self@,
    {
        let (a, b) = self.as_slices();
        let mut v = vstd::slice::slice_to_vec(a);
        let mut w = vstd::slice::slice_to_vec(b);
        v.append(&mut w);
        v
    }

    /// A copy of the most recent `count` elements, clamped to the whole
    /// contents when fewer are stored: the finalization window of an
    /// utterance longer than the retention window is truncated from the
    /// front, keeping the newest audio.
    pub fn tail_copy(&self, count: usize) -> (r: Vec<T>) where T: Copy
        requires
            self.wf(),
        ensures
            count >= self@.len() ==> r@ == self@,
            count < self@.len() ==> r@ == self@.skip(self@.len() - count),
    {
        let all = self.iter();
        let start = if count >= all.len() {
            0
        } else {
            all.len() - count
        };
        let r = vstd::slice::slice_to_vec(
            vstd::slice::slice_subrange(all.as_slice(), start, all.len()),
        );
        proof {
            if count >= self@.len() {
                assert(r@ =~= self@);
            } else {
                assert(r@ =~= self@.skip(self@.len() - count));
            }
        }
        r
    }
}

/// Law: any sequence of overwrites applied to contents within capacity keeps
/// the length within capacity, and evicts oldest elements first: the result
/// is exactly the trailing window of the original contents followed by the
/// writes, keeping at most `cap` newest elements.
pub proof fn lemma_overwrite_all_window<T>(s: Seq<T>, cap: nat, ws: Seq<T>)
    requires
        s.len() <= cap,
    ensures
        spec_overwrite_all(s, cap, ws).len() <= cap,
        spec_overwrite_all(s, cap, ws) == (s + ws).skip(
            if s.len() + ws.len() <= cap {
                0
            } else {
                s.len() + ws.len() - cap
            },
        ),
    decreases ws.len(),
{
    if ws.len() == 0 {
        assert((s + ws).skip(0) =~= s);
    } else {
        let s1 = spec_overwrite(s, cap, ws[0]);
        let rest = ws.drop_first();
        lemma_overwrite_all_window(s1, cap, rest);
        if s.len() < cap {
            assert(s1 + rest =~= s + ws);
        } else if cap == 0 {
            assert(s.len() == 0);
            assert(s1 + rest =~= (s + ws).skip(1));
            assert((s1 + rest).skip(s1.len() + rest.len() - cap) =~= (s + ws).skip(
                s.len() + ws.len() - cap,
            ));
        } else {
            assert(s1 =~= (s + ws).subrange(1, s.len() + 1 as int));
            assert(s1 + rest =~= (s + ws).skip(1));
            assert((s1 + rest).skip(rest.len() as int) =~= (s + ws).skip(ws.len() as int));
            if s1.len() + rest.len() > cap {
                assert((s1 + rest).skip(s1.len() + rest.len() - cap) =~= (s + ws).skip(
                    s.len() + ws.len() - cap,
                ));
            }
        }
    }
}

} // verus!
