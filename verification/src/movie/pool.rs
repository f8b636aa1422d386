//! Buffers for decoded frames, kept for reuse.

use vstd::prelude::*;

verus! {

/// How many frames a queue holds before it is full.
pub const MAX_FRAME_QUEUE_LEN: usize = 8;

/// How many buffers a pool keeps: those of two full queues and a few more.
pub const MAX_POOLED_FRAME_BUFFERS: usize = MAX_FRAME_QUEUE_LEN * 2 + 4;

/// The buffer of one frame: four bytes for each pixel, in the order blue, green, red, alpha.
#[derive(Debug)]
pub struct PooledFrameBuffer {
    pub bytes: Vec<u8>,
}

/// The buffers of a movie that are not in use.
#[derive(Debug)]
pub struct FramePool {
    pub pixel_count: usize,
    pub max_cached: usize,
    pub buffers: Vec<Vec<u8>>,
}

/// What a pool of buffers of `size` bytes holds once `buffer` was given back: buffers that are too
/// small are not kept, nor are any above `limit`.
pub open spec fn released_one(cached: Seq<Seq<u8>>, limit: int, size: int, buffer: Seq<u8>) -> Seq<
    Seq<u8>,
> {
    if buffer.len() < size || cached.len() >= limit {
        cached
    } else {
        cached.push(buffer.take(size))
    }
}

/// What a pool holds once some buffers were given back, one after the other.
pub open spec fn released_all(
    cached: Seq<Seq<u8>>,
    limit: int,
    size: int,
    given: Seq<Seq<u8>>,
) -> Seq<Seq<u8>>
    decreases given.len(),
{
    if given.len() == 0 {
        cached
    } else {
        let before = released_all(cached, limit, size, given.drop_last());
        released_one(before, limit, size, given.last())
    }
}

impl FramePool {
    /// How many bytes a buffer of the pool has.
    pub open spec fn size(self) -> int {
        4 * self.pixel_count
    }

    /// The buffers that are not in use, the one that was given back last at the end.
    pub open spec fn cached(self) -> Seq<Seq<u8>> {
        Seq::new(self.buffers@.len(), |i: int| self.buffers@[i]@)
    }

    /// Whether the pool keeps no more than it may, and only buffers of its size.
    pub open spec fn wf(self) -> bool {
        &&& self.size() <= isize::MAX
        &&& self.buffers@.len() <= self.max_cached
        &&& forall|i: int| 0 <= i < self.buffers@.len() ==> (#[trigger] self.buffers@[i])@.len()
            == self.size()
    }

    /// Whether this is `before` after some buffers were given back.
    pub open spec fn took_back(self, before: FramePool, given: Seq<Seq<u8>>) -> bool {
        &&& self.wf()
        &&& self.pixel_count == before.pixel_count
        &&& self.max_cached == before.max_cached
        &&& self.cached() == released_all(
            before.cached(),
            before.max_cached as int,
            before.size(),
            given,
        )
    }

    /// A pool for frames of this size, without any buffers yet.
    pub fn new(width: usize, height: usize) -> (r: Result<FramePool, String>)
        ensures
            match r {
                Ok(pool) => {
                    &&& width * height <= usize::MAX
                    &&& pool.pixel_count == width * height
                    &&& pool.max_cached == MAX_POOLED_FRAME_BUFFERS
                    &&& pool.cached() == Seq::<Seq<u8>>::empty()
                    &&& pool.size() <= isize::MAX ==> pool.wf()
                },
                Err(message) => width * height > usize::MAX && message@
                    == "frame pixel count overflow"@,
            },
    {
        match width.checked_mul(height) {
            Some(pixel_count) => {
                let pool = FramePool {
                    pixel_count,
                    max_cached: MAX_POOLED_FRAME_BUFFERS,
                    buffers: Vec::new(),
                };
                assert(pool.cached() =~= Seq::<Seq<u8>>::empty());
                Ok(pool)
            },
            None => Err("frame pixel count overflow".to_owned()),
        }
    }

    /// Takes the buffer that was given back last, as it was left, or a new one full of zeros.
    pub fn acquire(&mut self) -> (buffer: PooledFrameBuffer)
        requires
            old(self).wf(),
        ensures
            final(self).wf(),
            final(self).pixel_count == old(self).pixel_count,
            final(self).max_cached == old(self).max_cached,
            buffer.bytes@.len() == old(self).size(),
            old(self).cached().len() > 0 ==> buffer.bytes@ == old(self).cached().last()
                && final(self).cached() == old(self).cached().drop_last(),
            old(self).cached().len() == 0 ==> buffer.bytes@ == Seq::new(
                old(self).size() as nat,
                |i: int| 0u8,
            ) && final(self).cached() == old(self).cached(),
    {
        match self.buffers.pop() {
            Some(bytes) => {
                assert(self.cached() =~= old(self).cached().drop_last());
                PooledFrameBuffer { bytes }
            },
            None => {
                let mut bytes: Vec<u8> = Vec::new();
                bytes.resize(self.pixel_count * 4, 0);
                assert(bytes@ =~= Seq::new(old(self).size() as nat, |i: int| 0u8));
                PooledFrameBuffer { bytes }
            },
        }
    }

    /// Gives a buffer back.
    pub fn release(&mut self, buffer: PooledFrameBuffer)
        requires
            old(self).wf(),
        ensures
            final(self).took_back(*old(self), seq![buffer.bytes@]),
    {
        let mut bytes: Vec<u8> = buffer.bytes;
        proof {
            lemma_release_one(*self, bytes@);
        }
        if bytes.len() < self.pixel_count * 4 {
            return ;
        }
        let ghost given = bytes@;
        bytes.truncate(self.pixel_count * 4);
        if self.buffers.len() < self.max_cached {
            self.buffers.push(bytes);
            assert(self.cached() =~= old(self).cached().push(given.take(old(self).size())));
        }
    }

    /// How many buffers are not in use.
    pub fn cached_buffer_count(&self) -> (count: usize)
        ensures
            count == self.cached().len(),
    {
        self.buffers.len()
    }
}

proof fn lemma_release_one(pool: FramePool, buffer: Seq<u8>)
    ensures
        released_all(pool.cached(), pool.max_cached as int, pool.size(), seq![buffer])
            == released_one(pool.cached(), pool.max_cached as int, pool.size(), buffer),
{
    reveal_with_fuel(released_all, 2);
    assert(seq![buffer].drop_last() =~= Seq::<Seq<u8>>::empty());
}

/// Giving buffers back in two goes is the same as in one.
pub proof fn lemma_released_in_turn(
    cached: Seq<Seq<u8>>,
    limit: int,
    size: int,
    first: Seq<Seq<u8>>,
    second: Seq<Seq<u8>>,
)
    ensures
        released_all(released_all(cached, limit, size, first), limit, size, second) == released_all(
            cached,
            limit,
            size,
            first + second,
        ),
    decreases second.len(),
{
    if second.len() == 0 {
        assert(first + second =~= first);
    } else {
        lemma_released_in_turn(cached, limit, size, first, second.drop_last());
        assert((first + second).drop_last() =~= first + second.drop_last());
    }
}

/// A pool never keeps more buffers than its limit, whatever is given back to it.
pub proof fn law_pool_is_bounded(
    cached: Seq<Seq<u8>>,
    limit: int,
    size: int,
    given: Seq<Seq<u8>>,
)
    requires
        cached.len() <= limit,
    ensures
        released_all(cached, limit, size, given).len() <= limit,
    decreases given.len(),
{
    if given.len() > 0 {
        law_pool_is_bounded(cached, limit, size, given.drop_last());
    }
}

/// The buffer that was given back to a pool with room is the one that is taken next.
pub proof fn law_released_buffer_is_reused(cached: Seq<Seq<u8>>, limit: int, buffer: Seq<u8>)
    requires
        cached.len() < limit,
    ensures
        released_one(cached, limit, buffer.len() as int, buffer).last() == buffer,
        released_one(cached, limit, buffer.len() as int, buffer).drop_last() == cached,
{
    let after = released_one(cached, limit, buffer.len() as int, buffer);
    assert(after.last() =~= buffer);
    assert(after.drop_last() =~= cached);
}

impl PooledFrameBuffer {
    /// How many bytes the buffer has.
    pub fn len(&self) -> (len: usize)
        ensures
            len == self.bytes@.len(),
    {
        self.bytes.len()
    }

    /// The bytes of the frame.
    pub fn as_slice(&self) -> (bytes: &[u8])
        ensures
            bytes@ == self.bytes@,
    {
        self.bytes.as_slice()
    }

    /// The bytes of the frame, to be written.
    pub fn as_mut_slice(&mut self) -> (bytes: &mut [u8])
        ensures
            bytes@ == old(self).bytes@,
            final(self).bytes@ == final(bytes)@,
    {
        self.bytes.as_mut_slice()
    }
}

} // verus!
