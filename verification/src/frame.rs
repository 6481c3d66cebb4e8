//! Fixed-size trailing windows over the ring buffer's two contiguous
//! stretches, for classifier consumption.
//!
//! A frame always has exactly the requested length: when the buffer holds
//! enough samples the frame is the most recent stretch in write order, even
//! when it spans the split point between the two slices; when it holds fewer,
//! the missing leading positions are filled with silence so classification
//! can begin before the buffer is populated.

use vstd::prelude::*;
use vstd::slice::{slice_subrange, slice_to_vec};

verus! {

/// `n` copies of the fill element, the silence prefix of a short frame.
pub open spec fn spec_padding<T>(n: nat, fill: T) -> Seq<T> {
    Seq::new(n, |i: int| fill)
}

/// The most recent `frame_len` elements of `first ++ second`, left-padded
/// with `fill` when fewer exist.
pub fn extract_frame<T: Copy>(first: &[T], second: &[T], frame_len: usize, fill: T) -> (r: Vec<T>)
    requires
        first@.len() + second@.len() <= usize::MAX,
    ensures
        r@.len() == frame_len,
        first@.len() + second@.len() >= frame_len ==> r@ == (first@ + second@).skip(
            first@.len() + second@.len() - frame_len,
        ),
        first@.len() + second@.len() < frame_len ==> r@ == spec_padding(
            (frame_len - first@.len() - second@.len()) as nat,
            fill,
        ) + first@ + second@,
{
    let total = first.len() + second.len();
    if second.len() >= frame_len {
        let r = slice_to_vec(slice_subrange(second, second.len() - frame_len, second.len()));
        proof {
            assert(r@ =~= (first@ + second@).skip(first@.len() + second@.len() - frame_len));
        }
        r
    } else if total >= frame_len {
        let need = frame_len - second.len();
        let mut r = slice_to_vec(slice_subrange(first, first.len() - need, first.len()));
        let mut tail = slice_to_vec(second);
        r.append(&mut tail);
        proof {
            assert(r@ =~= (first@ + second@).skip(first@.len() + second@.len() - frame_len));
        }
        r
    } else {
        let pad = frame_len - total;
        let mut r: Vec<T> = Vec::new();
        let mut i: usize = 0;
        while i < pad
            invariant
                i <= pad,
                r@.len() == i,
                forall|j: int| 0 <= j < i ==> r@[j] == fill,
            decreases pad - i,
        {
            r.push(fill);
            i = i + 1;
        }
        let mut a = slice_to_vec(first);
        let mut b = slice_to_vec(second);
        r.append(&mut a);
        r.append(&mut b);
        proof {
            assert(r@ =~= spec_padding(pad as nat, fill) + first@ + second@);
        }
        r
    }
}

} // verus!
