//! Image buffers and the bounded pool that owns them.
//!
//! A listener allocates its buffers once and reuses them: a frame under
//! assembly borrows one, and gives it back when the frame is closed. The pool
//! is a stack, so the buffer given back last is the one taken next.

use vstd::prelude::*;

verus! {

/// Pixels in one row of a module.
pub const MODULE_SIZE_X: usize = 1024;

/// Rows of a module.
pub const MODULE_SIZE_Y: usize = 256;

/// Bytes per pixel.
pub const BIT_DEPTH: usize = 2;

/// Bytes of one image: 1024 x 256 pixels of 2 bytes.
pub const IMAGE_BYTES: usize = 524288;

/// Buffers that one listener owns.
pub const THREAD_IMAGE_BUFFER_LENGTH: usize = 10;

/// The image with every byte zero.
pub open spec fn blank_image() -> Seq<u8> {
    Seq::new(IMAGE_BYTES as nat, |i: int| 0u8)
}

/// Allocates one image buffer: 524288 bytes, all zero.
pub fn allocate_image_buffer() -> (buffer: Vec<u8>)
    ensures
        buffer@ == blank_image(),
{
    let mut empty_image: Vec<u8> = Vec::with_capacity(IMAGE_BYTES);
    empty_image.resize(MODULE_SIZE_X * MODULE_SIZE_Y * BIT_DEPTH, 0u8);
    assert(empty_image@ =~= blank_image());
    empty_image
}

/// A buffer was asked of a pool that has none left.
#[derive(Clone, Copy, Debug, PartialEq, Eq, Structural)]
pub struct PoolExhausted;

/// A bounded stack of image buffers.
pub struct BufferPool {
    spare: Vec<Vec<u8>>,
}

impl View for BufferPool {
    type V = Seq<Seq<u8>>;

    /// The spare buffers, the next one to be taken last.
    closed spec fn view(&self) -> Seq<Seq<u8>> {
        Seq::new(self.spare@.len(), |i: int| self.spare@[i]@)
    }
}

/// Every buffer is one image long, and there are at most ten.
pub open spec fn pool_wf(spare: Seq<Seq<u8>>) -> bool {
    &&& spare.len() <= THREAD_IMAGE_BUFFER_LENGTH
    &&& forall|i: int| 0 <= i < spare.len() ==> (#[trigger] spare[i]).len() == IMAGE_BYTES
}

impl BufferPool {
    /// The invariant of the pool.
    pub open spec fn wf(&self) -> bool {
        pool_wf(self@)
    }

    /// Allocates a full pool: ten blank buffers.
    pub fn new() -> (pool: BufferPool)
        ensures
            pool.wf(),
            pool@ == Seq::new(THREAD_IMAGE_BUFFER_LENGTH as nat, |i: int| blank_image()),
    {
        let mut spare: Vec<Vec<u8>> = Vec::with_capacity(THREAD_IMAGE_BUFFER_LENGTH);
        let mut made: usize = 0;
        while made < THREAD_IMAGE_BUFFER_LENGTH
            invariant
                made <= THREAD_IMAGE_BUFFER_LENGTH,
                spare@.len() == made,
                forall|i: int| 0 <= i < made ==> (#[trigger] spare@[i])@ == blank_image(),
            decreases THREAD_IMAGE_BUFFER_LENGTH - made,
        {
            spare.push(allocate_image_buffer());
            made = made + 1;
        }
        let pool = BufferPool { spare };
        assert(pool@ =~= Seq::new(THREAD_IMAGE_BUFFER_LENGTH as nat, |i: int| blank_image()));
        pool
    }

    /// Number of spare buffers.
    pub fn available(&self) -> (count: usize)
        ensures
            count == self@.len(),
    {
        self.spare.len()
    }

    /// Number of buffers that are out of the pool.
    pub fn checked_out(&self) -> (count: usize)
        requires
            self.wf(),
        ensures
            count == THREAD_IMAGE_BUFFER_LENGTH - self@.len(),
    {
        THREAD_IMAGE_BUFFER_LENGTH - self.spare.len()
    }

    /// Takes the buffer that was put back last. An empty pool gives
    /// `PoolExhausted` and stays empty.
    pub fn take(&mut self) -> (result: Result<Vec<u8>, PoolExhausted>)
        requires
            old(self).wf(),
        ensures
            final(self).wf(),
            old(self)@.len() == 0 ==> result == Err::<Vec<u8>, PoolExhausted>(PoolExhausted)
                && final(self)@ == old(self)@,
            old(self)@.len() > 0 ==> (result matches Ok(buffer) && buffer@ == old(self)@.last()
                && final(self)@ == old(self)@.drop_last()),
    {
        match self.spare.pop() {
            Some(buffer) => {
                assert(self@ =~= old(self)@.drop_last());
                assert(buffer@ == old(self)@[old(self)@.len() - 1]);
                Ok(buffer)
            },
            None => {
                assert(self@ =~= old(self)@);
                Err(PoolExhausted)
            },
        }
    }

    /// Puts a buffer back on top of the pool.
    pub fn put(&mut self, buffer: Vec<u8>)
        requires
            old(self).wf(),
            old(self)@.len() < THREAD_IMAGE_BUFFER_LENGTH,
            buffer@.len() == IMAGE_BYTES,
        ensures
            final(self).wf(),
            final(self)@ == old(self)@.push(buffer@),
    {
        self.spare.push(buffer);
        assert(self@ =~= old(self)@.push(buffer@));
    }

    /// The buffer that was put back last, if the pool holds any.
    pub fn top(&self) -> (buffer: Option<&Vec<u8>>)
        ensures
            self@.len() == 0 ==> buffer.is_none(),
            self@.len() > 0 ==> (buffer matches Some(top) && top@ == self@.last()),
    {
        let count: usize = self.spare.len();
        if count == 0 {
            None
        } else {
            Some(&self.spare[count - 1])
        }
    }
}

} // verus!
