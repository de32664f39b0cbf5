use shaderunner::resizable_buffer::ResizableBuffer;

const USAGE: u32 = 40;

#[test]
fn buffer_regrowth() {
    let mut buffer = ResizableBuffer::new(100, USAGE);
    assert_eq!(buffer.capacity(), 100);
    assert_eq!(buffer.size(), 0);

    let small = vec![7u8; 50];
    assert_eq!(buffer.update(&small), None);
    assert_eq!(buffer.capacity(), 100);
    assert_eq!(buffer.size(), 50);

    let large = vec![9u8; 500];
    // 500 + 500 / 4 = 625, rounded up to a multiple of 4
    assert_eq!(buffer.update(&large), Some(628));
    assert_eq!(buffer.capacity(), 628);
    assert_eq!(buffer.size(), 500);
    assert_eq!(buffer.usage(), USAGE);
}

#[test]
fn new_capacity_is_rounded_up_to_alignment() {
    assert_eq!(ResizableBuffer::new(0, USAGE).capacity(), 0);
    assert_eq!(ResizableBuffer::new(1, USAGE).capacity(), 4);
    assert_eq!(ResizableBuffer::new(32, USAGE).capacity(), 32);
    assert_eq!(ResizableBuffer::new(101, USAGE).capacity(), 104);
}

#[test]
fn capacity_never_shrinks_and_always_fits() {
    let mut buffer = ResizableBuffer::new(8, USAGE);
    let mut last = buffer.capacity();
    for len in [3usize, 40, 12, 0, 41, 400, 1, 399] {
        let data = vec![1u8; len];
        buffer.update(&data);
        assert!(buffer.capacity() >= last);
        assert!(buffer.capacity() >= len as u64);
        assert_eq!(buffer.size(), len as u64);
        last = buffer.capacity();
    }
}

#[test]
fn empty_update_keeps_the_allocation() {
    let mut buffer = ResizableBuffer::new(16, USAGE);
    buffer.update(&[1, 2, 3, 4]);
    assert_eq!(buffer.update(&[]), None);
    assert_eq!(buffer.size(), 0);
    assert_eq!(buffer.capacity(), 16);
}

#[test]
fn exact_fit_does_not_reallocate() {
    let mut buffer = ResizableBuffer::new(12, USAGE);
    assert_eq!(buffer.update(&[0u8; 12]), None);
    assert_eq!(buffer.update(&[0u8; 13]), Some(16));
}
