use conduit::ringbuf::RingBuffer;

#[test]
fn fresh_buffer_is_empty() {
    let rb = RingBuffer::new(8);
    assert!(rb.is_empty());
    assert_eq!(rb.len(), 0);
    assert_eq!(rb.capacity_exec(), 8);
    assert_eq!(rb.writable_len(), 8);
    assert_eq!(rb.readable_len(), 0);
}

#[test]
fn write_then_read_in_order() {
    let mut rb = RingBuffer::new(8);
    rb.advance_write(&[1, 2, 3]);
    assert!(!rb.is_empty());
    assert_eq!(rb.len(), 3);
    let head = rb.read_slice(rb.readable_len());
    assert_eq!(head, vec![1, 2, 3]);
    rb.advance_read(3);
    assert!(rb.is_empty());
}

#[test]
fn wrapping_keeps_order() {
    let mut rb = RingBuffer::new(4);
    rb.advance_write(&[1, 2, 3]);
    rb.advance_read(2);
    // two free at the tail's wrapped front, one at the end
    rb.advance_write(&[4, 5, 6]);
    assert_eq!(rb.len(), 4);
    assert_eq!(rb.writable_len(), 0);
    let mut drained: Vec<u8> = Vec::new();
    while !rb.is_empty() {
        let n = rb.readable_len();
        let part = rb.read_slice(n);
        drained.extend_from_slice(&part);
        rb.advance_read(n);
    }
    assert_eq!(drained, vec![3, 4, 5, 6]);
}

#[test]
fn writable_slices_shrink_until_full() {
    let mut rb = RingBuffer::new(4);
    let w0 = rb.writable_len();
    assert_eq!(w0, 4);
    rb.advance_write(&[9, 9]);
    let w1 = rb.writable_len();
    assert!(w1 <= w0);
    rb.advance_write(&[9, 9]);
    assert_eq!(rb.writable_len(), 0);
    assert!(!rb.is_empty());
}

#[test]
fn empty_iff_totals_balance() {
    // the buffer reports empty exactly when every written byte was read
    let mut rb = RingBuffer::new(4);
    rb.advance_write(&[7]);
    assert!(!rb.is_empty());
    rb.advance_write(&[8, 9]);
    rb.advance_read(1);
    assert!(!rb.is_empty());
    rb.advance_read(2);
    assert!(rb.is_empty());
    rb.advance_write(&[1]);
    assert!(!rb.is_empty());
    rb.advance_read(1);
    assert!(rb.is_empty());
}
