use byte_ring::ring;
use byte_ring::ring::RingBuffer;
use byte_ring::ring::create;
use byte_ring::ring::read;

fn create_populated_rb() -> RingBuffer {
    let mut rb = create(10);
    ring::write(&mut rb, "abcdefghij".as_bytes());
    rb
}

#[test]
fn rb_created() {
    let rb: RingBuffer = create(10);
    assert_eq!(10, rb.capacity());
}

#[test]
fn rb_read_empty() {
    let mut rb: RingBuffer = create(10);
    assert!(read(&mut rb, 4).is_empty());
    assert!(read(&mut rb, 14).is_empty());
}

#[test]
fn rb_read_until_empty() {
    let mut rb: RingBuffer = create_populated_rb();
    assert_eq!("abcd".as_bytes(), read(&mut rb, 4));
    assert_eq!("efgh".as_bytes(), read(&mut rb, 4));
    assert_eq!("ij".as_bytes(), read(&mut rb, 4));
    assert!(read(&mut rb, 4).is_empty());
}

#[test]
fn rb_write_full() {
    let mut rb: RingBuffer = create(10);
    let control = create_populated_rb();
    assert_eq!(4, ring::write(&mut rb, "abcd".as_bytes()));
    assert_eq!(6, ring::write(&mut rb, "efghij".as_bytes()));
    assert_eq!(control.slots(), rb.slots());
}

#[test]
fn rb_write_overflow() {
    let mut rb: RingBuffer = create(10);
    let control = create_populated_rb();
    assert_eq!(4, ring::write(&mut rb, "abcd".as_bytes()));
    assert_eq!(4, ring::write(&mut rb, "efgh".as_bytes()));
    assert_eq!(2, ring::write(&mut rb, "ijkl".as_bytes()));
    assert_eq!(0, ring::write(&mut rb, "mnop".as_bytes()));
    assert_eq!(control.slots(), rb.slots());
}

#[test]
fn rb_write_read() {
    let mut rb: RingBuffer = create(10);
    assert_eq!(4, ring::write(&mut rb, "abcd".as_bytes()));
    assert_eq!(4, ring::write(&mut rb, "efgh".as_bytes()));
    assert_eq!(2, ring::write(&mut rb, "ijkl".as_bytes()));

    assert_eq!("abcd".as_bytes(), read(&mut rb, 4));
    assert_eq!("efgh".as_bytes(), read(&mut rb, 4));
    assert_eq!("ij".as_bytes(), read(&mut rb, 4));

    assert_eq!(4, ring::write(&mut rb, "abcd".as_bytes()));
    assert_eq!(4, ring::write(&mut rb, "efgh".as_bytes()));
    read(&mut rb, 4);
    assert_eq!(4, ring::write(&mut rb, "1234".as_bytes()));
}

#[test]
fn test() {
    let mut rb = create(3);
    assert_eq!(2, ring::write(&mut rb, "ab".as_bytes()));
    assert_eq!(1, ring::write(&mut rb, "cd".as_bytes()));
    assert_eq!("a".as_bytes(), read(&mut rb, 1));
    assert_eq!(1, ring::write(&mut rb, "e".as_bytes()));
    assert_eq!("bc".as_bytes(), read(&mut rb, 2));
}

#[test]
fn round_trip_returns_exactly_what_was_written() {
    let mut rb = create(8);
    assert_eq!(5, ring::write(&mut rb, b"hello"));
    assert_eq!(b"hello", read(&mut rb, 5).as_slice());
    assert!(read(&mut rb, 1).is_empty());
}

#[test]
fn zero_bytes_are_stored_like_any_other_value() {
    let mut rb = create(4);
    assert_eq!(4, ring::write(&mut rb, &[0, 7, 0, 0]));
    assert_eq!(vec![0u8, 7, 0, 0], read(&mut rb, 4));
    assert_eq!(1, ring::write(&mut rb, &[0]));
    assert_eq!(vec![0u8], read(&mut rb, 1));
}

#[test]
fn writes_never_exceed_capacity_and_never_destroy_data() {
    let mut rb = create(5);
    assert_eq!(5, ring::write(&mut rb, b"abcdefgh"));
    assert_eq!(0, ring::write(&mut rb, b"xyz"));
    assert_eq!(b"abcde", read(&mut rb, 5).as_slice());
}

#[test]
fn fifo_order_is_kept_across_wrap_around() {
    let mut rb = create(4);
    assert_eq!(4, ring::write(&mut rb, b"abcd"));
    assert_eq!(b"ab", read(&mut rb, 2).as_slice());
    assert_eq!(2, ring::write(&mut rb, b"ef"));
    assert_eq!(b"cdef", read(&mut rb, 10).as_slice());
}

#[test]
fn empty_read_leaves_buffer_usable() {
    let mut rb = create(2);
    assert!(read(&mut rb, 3).is_empty());
    assert!(read(&mut rb, 0).is_empty());
    assert_eq!(2, ring::write(&mut rb, b"ok"));
    assert_eq!(b"ok", read(&mut rb, 2).as_slice());
}

#[test]
fn capacity_one_buffer_cycles() {
    let mut rb = create(1);
    assert_eq!(1, ring::write(&mut rb, b"a"));
    assert_eq!(0, ring::write(&mut rb, b"b"));
    assert_eq!(b"a", read(&mut rb, 1).as_slice());
    assert_eq!(1, ring::write(&mut rb, b"b"));
    assert_eq!(b"b", read(&mut rb, 1).as_slice());
}
