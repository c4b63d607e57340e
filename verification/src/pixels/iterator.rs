//! Iteration over the pixels of a pixel buffer

use vstd::prelude::*;

use super::{PixelRead, PixelRef};

verus! {

/// Walks the pixels of a buffer by index, from `position` up to `max_len`
pub struct PixelBufferIter<'a, P> {
    pub(crate) buffer: &'a P,
    pub(crate) position: usize,
    pub(crate) max_len: usize,
}

impl<'a, P: PixelRead> Clone for PixelBufferIter<'a, P> {
    fn clone(&self) -> (r: PixelBufferIter<'a, P>)
        ensures
            r == *self,
    {
        PixelBufferIter { buffer: self.buffer, position: self.position, max_len: self.max_len }
    }
}

impl<'a, P: PixelRead> Copy for PixelBufferIter<'a, P> {

}

impl<'a, P> PixelBufferIter<'a, P> {
    /// The buffer walked
    pub closed spec fn buffer(self) -> P {
        *self.buffer
    }

    /// Index of the next pixel
    pub closed spec fn position(self) -> int {
        self.position as int
    }

    /// Index at which the walk ends: one past the last pixel not yet yielded
    pub closed spec fn max_len(self) -> int {
        self.max_len as int
    }


    pub(crate) fn new(buffer: &'a P, position: usize, max_len: usize) -> (r: PixelBufferIter<'a, P>)
        ensures
            r.buffer() == *buffer,
            r.position() == position,
            r.max_len() == max_len,
    {
        PixelBufferIter { buffer, position, max_len }
    }
}

impl<'a, P: PixelRead> PixelBufferIter<'a, P> {
    /// Yields the pixel at the current position and moves forward, until the
    /// position reaches `max_len`.
    pub fn next(&mut self) -> (r: Option<PixelRef<'a, P>>)
        ensures
            final(self).buffer() == old(self).buffer(),
            final(self).max_len() == old(self).max_len(),
            old(self).position() >= old(self).max_len() ==> r is None && final(self).position()
                == old(self).position(),
            old(self).position() < old(self).max_len() ==> final(self).position()
                == old(self).position() + 1,
            old(self).position() < old(self).max_len() ==> (r matches Some(pixel) && pixel.index()
                == old(self).position() && pixel.buffer() == old(self).buffer()),
    {
        if self.position >= self.max_len {
            None
        } else {
            let res = PixelRef::new(self.position, self.buffer);
            self.position = self.position + 1;
            Some(res)
        }
    }

    /// Yields the last pixel not yet yielded from either end, and moves the
    /// end of the walk back over it, until the two ends meet.
    pub fn next_back(&mut self) -> (r: Option<PixelRef<'a, P>>)
        ensures
            final(self).buffer() == old(self).buffer(),
            final(self).position() == old(self).position(),
            old(self).position() >= old(self).max_len() ==> r is None && final(self).max_len()
                == old(self).max_len(),
            old(self).position() < old(self).max_len() ==> final(self).max_len()
                == old(self).max_len() - 1,
            old(self).position() < old(self).max_len() ==> (r matches Some(pixel) && pixel.index()
                == old(self).max_len() - 1 && pixel.buffer() == old(self).buffer()),
    {
        if self.position >= self.max_len {
            None
        } else {
            self.max_len = self.max_len - 1;
            Some(PixelRef::new(self.max_len, self.buffer))
        }
    }
}

/// The indices a walk yields when it starts at `position` with its end at
/// `end` and makes the given moves, one per call: `true` a call of `next`,
/// which yields the position and moves it forward; `false` a call of
/// `next_back`, which moves the end back and yields it. Once the two ends
/// meet, a call yields nothing.
pub open spec fn walk_indices(position: int, end: int, moves: Seq<bool>) -> Seq<int>
    decreases moves.len(),
{
    if moves.len() == 0 || position >= end {
        Seq::empty()
    } else if moves[0] {
        seq![position] + walk_indices(position + 1, end, moves.drop_first())
    } else {
        seq![end - 1] + walk_indices(position, end - 1, moves.drop_first())
    }
}

/// A double-ended walk yields every index between its two ends once: the
/// indices it yields lie between the ends, no index is yielded twice, and
/// as many are yielded as calls were made until the ends met.
pub proof fn law_walk_yields_each_index_once(position: int, end: int, moves: Seq<bool>)
    requires
        position <= end,
    ensures
        forall|k: int|
            0 <= k < walk_indices(position, end, moves).len() ==> position <= #[trigger] walk_indices(
                position,
                end,
                moves,
            )[k] < end,
        forall|j: int, k: int|
            0 <= j < k < walk_indices(position, end, moves).len() ==> #[trigger] walk_indices(
                position,
                end,
                moves,
            )[j] != #[trigger] walk_indices(position, end, moves)[k],
        walk_indices(position, end, moves).len() == if moves.len() < end - position {
            moves.len() as int
        } else {
            end - position
        },
    decreases moves.len(),
{
    if moves.len() > 0 && position < end {
        let (p, e) = if moves[0] {
            (position + 1, end)
        } else {
            (position, end - 1)
        };
        law_walk_yields_each_index_once(p, e, moves.drop_first());
        let rest = walk_indices(p, e, moves.drop_first());
        let all = walk_indices(position, end, moves);
        let first = if moves[0] {
            position
        } else {
            end - 1
        };
        assert(all == seq![first] + rest);
        assert forall|k: int| 0 <= k < all.len() implies position <= #[trigger] all[k] < end by {
            if k > 0 {
                assert(all[k] == rest[k - 1]);
            }
        }
        assert forall|j: int, k: int| 0 <= j < k < all.len() implies #[trigger] all[j]
            != #[trigger] all[k] by {
            assert(all[k] == rest[k - 1]);
            if j > 0 {
                assert(all[j] == rest[j - 1]);
            }
        }
    }
}

} // verus!
