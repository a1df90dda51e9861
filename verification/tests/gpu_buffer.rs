use bevy_3ds::error::RenderError;
use bevy_3ds::gpu_buffer::{LinearBuffer, LinearPool};

#[test]
fn buffers_take_and_give_back_their_bytes() {
    let mut pool = LinearPool::new(64);
    assert_eq!(pool.capacity(), 64);
    assert_eq!(pool.used(), 0);
    let a = LinearBuffer::new(&mut pool, &[1u32, 2, 3]).unwrap();
    assert_eq!(a.as_slice(), &[1, 2, 3]);
    assert_eq!(a.len(), 3);
    assert_eq!(pool.used(), 12);
    let b = LinearBuffer::with_size(&mut pool, 5, 9u16).unwrap();
    assert_eq!(b.as_slice(), &[9, 9, 9, 9, 9]);
    assert_eq!(pool.used(), 22);
    assert!(a.handle() != b.handle());
    assert!(pool.is_live(a.handle()) && pool.is_live(b.handle()));
    let a_id = a.handle();
    pool.release(a);
    assert_eq!(pool.used(), 10);
    assert!(!pool.is_live(a_id));
    assert!(pool.is_live(b.handle()));
    pool.give_back(a_id);
    assert_eq!(pool.used(), 10);
}

#[test]
fn a_full_pool_refuses_and_stays_as_it_is() {
    let mut pool = LinearPool::new(16);
    let a = LinearBuffer::new(&mut pool, &[0u64, 1]).unwrap();
    assert_eq!(pool.used(), 16);
    assert!(matches!(
        LinearBuffer::new(&mut pool, &[0u8]),
        Err(RenderError::OutOfLinearMemory)
    ));
    assert!(matches!(
        LinearBuffer::with_size(&mut pool, usize::MAX, 0u64),
        Err(RenderError::OutOfLinearMemory)
    ));
    assert_eq!(pool.used(), 16);
    let empty = LinearBuffer::<u64>::new(&mut pool, &[]).unwrap();
    assert_eq!(empty.len(), 0);
    pool.release(a);
    assert!(LinearBuffer::new(&mut pool, &[0u8; 16]).is_ok());
}

#[test]
fn numbers_are_never_given_twice() {
    let mut pool = LinearPool::new(8);
    let mut seen = Vec::new();
    for _ in 0..5 {
        let b = LinearBuffer::new(&mut pool, &[0u8; 8]).unwrap();
        assert!(!seen.contains(&b.handle()));
        seen.push(b.handle());
        pool.release(b);
    }
    for id in seen {
        assert!(!pool.is_live(id));
    }
    assert_eq!(pool.reserve(8), Ok(5));
    assert_eq!(pool.reserve(1), Err(RenderError::OutOfLinearMemory));
}
