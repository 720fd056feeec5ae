use rendercore::arena::BumpAllocatedBuffer;
use rendercore::gpu::{GL_ARRAY_BUFFER, GL_STREAM_DRAW};

#[test]
fn arena_offsets_are_disjoint_in_order() {
    let mut arena = BumpAllocatedBuffer::new(GL_ARRAY_BUFFER, GL_STREAM_DRAW, 7);
    let (buf1, off1) = arena.allocate_buffer(&[1, 2, 3]);
    let (buf2, off2) = arena.allocate_buffer(&[4, 5]);
    let (buf3, off3) = arena.allocate_buffer(&[6]);
    assert_eq!(buf1, 7);
    assert_eq!(buf2, 7);
    assert_eq!(buf3, 7);
    assert_eq!(off1, 0);
    assert_eq!(off2, 3);
    assert_eq!(off3, 5);
    // Ranges [0,3), [3,5), [5,6) do not overlap.
    assert!(off1 + 3 <= off2);
    assert!(off2 + 2 <= off3);
    assert_eq!(arena.data().as_slice(), &[1, 2, 3, 4, 5, 6]);
}

#[test]
fn arena_clear_resets_cursor_to_zero() {
    let mut arena = BumpAllocatedBuffer::new(GL_ARRAY_BUFFER, GL_STREAM_DRAW, 3);
    let (_, first) = arena.allocate_buffer(&[9, 9, 9, 9]);
    assert_eq!(first, 0);
    arena.clear();
    assert_eq!(arena.offset(), 0);
    let (_, after_clear) = arena.allocate_buffer(&[1]);
    assert_eq!(after_clear, 0);
    assert_eq!(arena.data().as_slice(), &[1]);
}

#[test]
fn arena_keeps_earlier_bytes_across_growth() {
    let mut arena = BumpAllocatedBuffer::new(GL_ARRAY_BUFFER, GL_STREAM_DRAW, 1);
    arena.allocate_buffer(&[1, 2]);
    // The second allocation does not fit the 2-byte buffer, so it grows;
    // the shadow copy still holds everything written.
    arena.allocate_buffer(&[3, 4, 5, 6, 7, 8, 9]);
    assert_eq!(arena.data().as_slice(), &[1, 2, 3, 4, 5, 6, 7, 8, 9]);
    assert_eq!(arena.offset(), 9);
}

#[test]
fn arena_get_buffer_marks_leak() {
    let mut arena = BumpAllocatedBuffer::new(GL_ARRAY_BUFFER, GL_STREAM_DRAW, 42);
    assert_eq!(arena.get_buffer(false), 42);
    assert_eq!(arena.get_buffer(true), 42);
    assert_eq!(arena.get_buffer(false), 42);
}
