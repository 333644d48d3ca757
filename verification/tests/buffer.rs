use embargo::buffer::{frame_size, BufferPool, MAX_POOL_BYTES};
use embargo::pixel::RgbaPixel;

#[test]
fn frame_size_is_four_bytes_a_pixel() {
    assert_eq!(frame_size(1920, 40), Some(307_200));
    assert_eq!(frame_size(1, 1), Some(4));
}

#[test]
fn frame_size_of_nothing_is_none() {
    assert_eq!(frame_size(0, 40), None);
    assert_eq!(frame_size(1920, 0), None);
    assert_eq!(frame_size(0, 0), None);
}

#[test]
fn frame_size_stops_at_the_pool_limit() {
    // 536870911 * 4 = 2147483644, the largest multiple of four below the limit.
    assert_eq!(frame_size(536_870_911, 1), Some(2_147_483_644));
    assert_eq!(frame_size(536_870_912, 1), None);
    assert_eq!(frame_size(u32::MAX, u32::MAX), None);
    assert_eq!(MAX_POOL_BYTES, 2_147_483_647);
}

#[test]
fn new_pool_has_one_blank_free_frame() {
    let pool = BufferPool::new(2, 3).unwrap();
    assert_eq!(pool.width(), 2);
    assert_eq!(pool.height(), 3);
    assert_eq!(pool.slots(), 1);
    assert_eq!(pool.frame_len(), 24);
    assert!(!pool.is_busy(0));
    assert_eq!(pool.frame(0), &[0u8; 24][..]);
}

#[test]
fn new_pool_of_no_size_is_refused() {
    assert!(BufferPool::new(0, 3).is_none());
    assert!(BufferPool::new(u32::MAX, 2).is_none());
}

#[test]
fn acquire_takes_first_free_then_grows() {
    let mut pool = BufferPool::new(1, 1).unwrap();
    assert_eq!(pool.acquire(), Some(0));
    assert!(pool.is_busy(0));
    assert_eq!(pool.acquire(), Some(1));
    assert_eq!(pool.acquire(), Some(2));
    assert_eq!(pool.slots(), 3);
    pool.release(1);
    assert!(!pool.is_busy(1));
    assert_eq!(pool.acquire(), Some(1));
    assert_eq!(pool.slots(), 3);
    assert_eq!(pool.offset(2), 8);
}

#[test]
fn acquire_fails_when_the_arena_is_full() {
    // One frame takes more than half of what the arena may hold.
    let mut pool = BufferPool::new(300_000_000, 1).unwrap();
    assert_eq!(pool.acquire(), Some(0));
    assert_eq!(pool.acquire(), None);
    assert_eq!(pool.slots(), 1);
    pool.release(0);
    assert_eq!(pool.acquire(), Some(0));
}

#[test]
fn release_of_unknown_slot_changes_nothing() {
    let mut pool = BufferPool::new(1, 1).unwrap();
    assert_eq!(pool.acquire(), Some(0));
    pool.release(7);
    assert!(pool.is_busy(0));
    assert!(!pool.is_busy(7));
    assert_eq!(pool.slots(), 1);
}

#[test]
fn composite_writes_wire_order() {
    let mut pool = BufferPool::new(2, 1).unwrap();
    let pixels = vec![RgbaPixel::new(1, 2, 3, 4), RgbaPixel::new(5, 6, 7, 8)];
    pool.composite(0, &pixels);
    assert_eq!(pool.frame(0), &[3, 2, 1, 4, 7, 6, 5, 8][..]);
}

#[test]
fn composite_fills_short_input_with_zeros() {
    let mut pool = BufferPool::new(2, 1).unwrap();
    pool.composite(0, &vec![RgbaPixel::new(9, 9, 9, 9), RgbaPixel::new(9, 9, 9, 9)]);
    pool.composite(0, &vec![RgbaPixel::new(1, 2, 3, 4)]);
    assert_eq!(pool.frame(0), &[3, 2, 1, 4, 0, 0, 0, 0][..]);
}

#[test]
fn composite_cuts_long_input_off() {
    let mut pool = BufferPool::new(1, 1).unwrap();
    let pixels = vec![RgbaPixel::new(1, 2, 3, 4), RgbaPixel::new(5, 6, 7, 8)];
    pool.composite(0, &pixels);
    assert_eq!(pool.frame(0), &[3, 2, 1, 4][..]);
}

#[test]
fn composite_leaves_other_frames_alone() {
    let mut pool = BufferPool::new(1, 1).unwrap();
    assert_eq!(pool.acquire(), Some(0));
    assert_eq!(pool.acquire(), Some(1));
    pool.composite(0, &vec![RgbaPixel::new(1, 2, 3, 4)]);
    pool.composite(1, &vec![RgbaPixel::new(5, 6, 7, 8)]);
    assert_eq!(pool.frame(0), &[3, 2, 1, 4][..]);
    assert_eq!(pool.frame(1), &[7, 6, 5, 8][..]);
}

#[test]
fn resize_to_same_size_keeps_everything() {
    let mut pool = BufferPool::new(1, 1).unwrap();
    assert_eq!(pool.acquire(), Some(0));
    pool.composite(0, &vec![RgbaPixel::new(1, 2, 3, 4)]);
    assert!(pool.resize(1, 1));
    assert!(pool.is_busy(0));
    assert_eq!(pool.frame(0), &[3, 2, 1, 4][..]);
}

#[test]
fn resize_to_new_size_makes_the_pool_anew() {
    let mut pool = BufferPool::new(1, 1).unwrap();
    assert_eq!(pool.acquire(), Some(0));
    assert_eq!(pool.acquire(), Some(1));
    assert!(pool.resize(2, 2));
    assert_eq!((pool.width(), pool.height()), (2, 2));
    assert_eq!(pool.slots(), 1);
    assert_eq!(pool.frame_len(), 16);
    assert!(!pool.is_busy(0));
    assert_eq!(pool.frame(0), &[0u8; 16][..]);
}

#[test]
fn resize_to_impossible_size_is_refused() {
    let mut pool = BufferPool::new(1, 1).unwrap();
    assert_eq!(pool.acquire(), Some(0));
    assert!(!pool.resize(0, 5));
    assert!(!pool.resize(u32::MAX, u32::MAX));
    assert_eq!((pool.width(), pool.height()), (1, 1));
    assert!(pool.is_busy(0));
}
