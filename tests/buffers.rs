use pico_cli::fifo_buffer::FifoBuffer;

#[test]
fn append_saturates_and_reports_count() {
    let mut b: FifoBuffer<4> = FifoBuffer::new();
    assert!(b.is_empty());
    assert_eq!(b.append(&[1, 2, 3]), 3);
    assert_eq!(b.append(&[4, 5, 6]), 1);
    assert!(b.is_full());
    assert_eq!(b.get_data(), &[1, 2, 3, 4]);
    assert_eq!(b.append(&[7]), 0);
    assert_eq!(b.available(), 0);
    assert!(!b.add_single(9));
}

#[test]
fn pop_and_read_consume_in_order() {
    let mut b: FifoBuffer<8> = FifoBuffer::new();
    b.append(b"abcdef");
    b.pop(2);
    assert_eq!(b.get_data(), b"cdef");
    let mut out = [0u8; 3];
    assert_eq!(b.read(&mut out), 3);
    assert_eq!(&out, b"cde");
    assert_eq!(b.get_data(), b"f");
    assert_eq!(b.read_single(), Some(b'f'));
    assert_eq!(b.read_single(), None);
    b.append(b"xy");
    b.pop(10);
    assert_eq!(b.len(), 0);
}

#[test]
fn fill_in_place_then_advance() {
    let mut b: FifoBuffer<6> = FifoBuffer::new();
    b.append(b"ab");
    {
        let tail = b.receive_buffer();
        assert_eq!(tail.len(), 4);
        tail[0] = b'c';
        tail[1] = b'd';
    }
    b.advance(2);
    assert_eq!(b.get_data(), b"abcd");
    b.advance(100);
    assert_eq!(b.len(), 6);
    b.set_end(1);
    assert_eq!(b.get_data(), b"a");
    b.set_end(99);
    assert_eq!(b.len(), 6);
    b.clear();
    assert!(b.is_empty());
}

#[test]
fn search_finds_first_occurrence() {
    let mut b: FifoBuffer<16> = FifoBuffer::new();
    b.append(b"hello\r\nhello");
    assert_eq!(b.contains_slice(b"\r\n"), Some(5));
    assert_eq!(b.contains_str("llo"), Some(2));
    assert_eq!(b.contains_str("xyz"), None);
    assert_eq!(b.contains_slice(b""), Some(0));
    assert_eq!(b.contains_str("hello\r\nhello!"), None);
    let e: FifoBuffer<4> = FifoBuffer::new();
    assert_eq!(e.contains_slice(b""), Some(0));
    assert_eq!(e.contains_slice(b"a"), None);
}

#[test]
fn fill_through_a_closure() {
    let mut b: FifoBuffer<5> = FifoBuffer::new();
    b.append(b"ab");
    let n = b.try_write(|tail| {
        tail[0] = b'c';
        tail[1] = b'd';
        2
    });
    assert_eq!(n, 2);
    assert_eq!(b.get_data(), b"abcd");
    // a closure that claims more than there is room for is clamped
    let n = b.try_write(|tail| {
        tail[0] = b'e';
        9
    });
    assert_eq!(n, 1);
    assert_eq!(b.get_data(), b"abcde");
}
