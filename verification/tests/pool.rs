use siglus_patch::movie::pool::{FramePool, PooledFrameBuffer, MAX_POOLED_FRAME_BUFFERS};

#[test]
fn frame_pool_reuses_returned_buffer() {
    let mut pool = FramePool::new(2, 2).unwrap();
    let mut buffer = pool.acquire();
    buffer.as_mut_slice().fill(0x7f);
    let first_ptr = buffer.as_slice().as_ptr();
    pool.release(buffer);

    assert_eq!(pool.cached_buffer_count(), 1);

    let second = pool.acquire();
    assert_eq!(second.as_slice().as_ptr(), first_ptr);
    assert_eq!(second.len(), 16);
}

#[test]
fn frame_pool_limits_cached_buffers() {
    let mut pool = FramePool::new(1, 1).unwrap();
    let buffers: Vec<PooledFrameBuffer> = (0..MAX_POOLED_FRAME_BUFFERS + 3)
        .map(|_| pool.acquire())
        .collect();

    for buffer in buffers {
        pool.release(buffer);
    }

    assert_eq!(pool.cached_buffer_count(), MAX_POOLED_FRAME_BUFFERS);
}
