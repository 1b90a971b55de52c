use bipbuf::tracker::ReadLease;
use bipbuf::Buffer;

#[test]
fn ownership_smoke_test() {
    let mut b = Buffer::new(16);
    assert!(b.write(b"hello"));
    let lease = b.read().unwrap();
    assert_eq!(lease.view, b"hello");
    assert!(b.write(b"goodbye"));
    assert_eq!(lease.view, b"hello");
    b.release(lease);
    let lease = b.read().unwrap();
    assert_eq!(lease.view, b"goodbye");
}

#[test]
fn fresh_buffer_has_nothing_to_read() {
    let b = Buffer::new(10);
    assert!(b.read().is_none());
    assert_eq!(b.tracker().capacity(), 10);
    assert_eq!(b.tracker().unread(), 0);
}

#[test]
fn writes_are_read_back_concatenated() {
    let mut b = Buffer::new(10);
    assert!(b.write(b"asdf"));
    assert!(b.write(b"pqrs"));
    let l = b.read().unwrap();
    assert_eq!(l.view, b"asdfpqrs");
    assert_eq!((l.span.start, l.span.len), (0, 8));
    b.release(l);
    assert!(b.read().is_none());
}

#[test]
fn capacity_filling_write_is_read_back_whole() {
    let mut b = Buffer::new(10);
    assert!(b.write(b"0123456789"));
    assert!(!b.write(b"x"));
    let l = b.read().unwrap();
    assert_eq!(l.view, b"0123456789");
    b.release(l);
    assert!(b.write(b"abcdefghij"));
    assert_eq!(b.read().unwrap().view, b"abcdefghij");
}

#[test]
fn payload_larger_than_the_region_is_refused_in_every_state() {
    let mut b = Buffer::new(10);
    assert!(!b.write(b"0123456789a"));
    assert!(b.write(b"aaaaaa"));
    assert!(!b.write(b"0123456789a"));
    let l = b.read().unwrap();
    assert!(b.write(b"bbb"));
    b.release(l);
    assert!(b.write(b"cc"));
    assert_eq!(b.tracker().inverted_at(), 9);
    assert!(!b.write(b"0123456789a"));
    assert_eq!(b.read().unwrap().view, b"bbb");
}

#[test]
fn empty_payload_is_accepted_and_changes_nothing() {
    let mut b = Buffer::new(4);
    assert!(b.write(b""));
    assert!(b.read().is_none());
    assert!(b.write(b"wxyz"));
    assert!(b.write(b""));
    assert_eq!(b.tracker().write_offset(), 4);
    assert_eq!(b.read().unwrap().view, b"wxyz");
}

#[test]
fn exact_fill_then_refuse() {
    let mut b = Buffer::new(10);
    assert!(b.write(b"aaaa"));
    assert!(b.write(b"bbbb"));
    assert!(!b.write(b"cccc"));
    let l = b.read().unwrap();
    assert_eq!(l.view, b"aaaabbbb");
    b.release(l);
    assert!(b.write(b"cccc"));
    assert!(b.write(b"dddd"));
    assert_eq!(b.read().unwrap().view, b"ccccdddd");
}

#[test]
fn second_write_inverts_after_a_partial_release() {
    let mut b = Buffer::new(10);
    assert!(b.write(b"aaaa"));
    assert!(b.write(b"bbbb"));
    assert!(!b.write(b"cccc"));
    let l = b.read().unwrap();
    assert!(b.write(b"cc"));
    b.release(l);
    // 8..10 is the tail, 0..8 is free
    assert!(b.write(b"dddd"));
    assert_eq!(b.tracker().inverted_at(), 10);
    assert!(b.write(b"eeee"));
    assert!(!b.write(b"f"));
    let l = b.read().unwrap();
    assert_eq!(l.view, b"cc");
    b.release(l);
    let l = b.read().unwrap();
    assert_eq!(l.view, b"ddddeeee");
    b.release(l);
    assert!(b.read().is_none());
}

#[test]
fn wrapped_data_comes_out_as_two_leases_in_order() {
    let mut b = Buffer::new(10);
    assert!(b.write(b"aaaaa"));
    let l = b.read().unwrap();
    assert_eq!(l.view, b"aaaaa");
    assert!(b.write(b"bbbb"));
    b.release(l);
    // 5..9 is unread, 0..5 is free: four bytes wrap, a fifth fits behind them
    assert!(b.write(b"cccc"));
    assert_eq!(b.tracker().inverted_at(), 9);
    assert!(b.write(b"d"));
    assert!(!b.write(b"e"));
    let first = b.read().unwrap();
    assert_eq!(first.view, b"bbbb");
    assert_eq!((first.span.start, first.span.len), (5, 4));
    b.release(first);
    let second = b.read().unwrap();
    assert_eq!(second.view, b"ccccd");
    assert_eq!((second.span.start, second.span.len), (0, 5));
    b.release(second);
    assert!(b.read().is_none());
}

#[test]
fn consumed_region_starts_again_at_zero() {
    let mut b = Buffer::new(10);
    assert!(b.write(b"aaaaa"));
    let l = b.read().unwrap();
    b.release(l);
    assert_eq!(b.tracker().write_offset(), 0);
    assert!(b.write(b"bbbb"));
    assert!(b.write(b"cccc"));
    assert_eq!(b.tracker().inverted_at(), 0);
    let l = b.read().unwrap();
    assert_eq!(l.view, b"bbbbcccc");
    assert_eq!((l.span.start, l.span.len), (0, 8));
}

#[test]
fn bytes_under_a_lease_stay_in_place() {
    let mut b = Buffer::new(8);
    assert!(b.write(b"abcd"));
    let l = b.read().unwrap();
    assert!(b.write(b"efgh"));
    assert!(!b.write(b"i"));
    // a second lease on the same bytes shows them unchanged, and more
    let again = b.read().unwrap();
    assert_eq!(again.view, b"abcdefgh");
    assert_eq!(l.view, b"abcd");
    assert!(b.tracker().is_pinned(&l.span));
    b.release(l);
    assert_eq!(b.read().unwrap().view, b"efgh");
    assert!(b.write(b"ijkl"));
    assert_eq!(b.read().unwrap().view, b"efgh");
}

#[test]
fn delivered_bytes_are_the_accepted_bytes_in_order() {
    let mut b = Buffer::new(10);
    let mut delivered: Vec<u8> = vec![];
    assert!(b.write(b"abc"));
    assert!(b.write(b"defg"));
    let l = b.read().unwrap();
    assert_eq!(l.view, b"abcdefg");
    assert!(b.write(b"hij"));
    assert!(!b.write(b"k"));
    assert_eq!(b.tracker().unread(), 10);
    delivered.extend_from_slice(&l.view);
    b.release(l);
    assert_eq!(b.tracker().unread(), 3);
    // 7..10 is unread: five bytes wrap, two more fill the head
    assert!(b.write(b"klmno"));
    assert!(b.write(b"pq"));
    assert!(!b.write(b"r"));
    assert_eq!(b.tracker().unread(), 10);
    let l = b.read().unwrap();
    assert_eq!(l.view, b"hij");
    assert!(!b.write(b"s"));
    delivered.extend_from_slice(&l.view);
    b.release(l);
    assert_eq!(b.tracker().inverted_at(), 0);
    assert!(b.write(b"tu"));
    let l = b.read().unwrap();
    assert_eq!(l.view, b"klmnopqtu");
    delivered.extend_from_slice(&l.view);
    b.release(l);
    assert!(b.read().is_none());
    assert_eq!(delivered, b"abcdefghijklmnopqtu");
    assert_eq!(b.tracker().unread(), 0);
}

#[test]
fn release_if_pinned_refuses_what_is_not_outstanding() {
    let mut b = Buffer::new(10);
    assert!(!b.release_if_pinned(ReadLease { start: 0, len: 1 }));
    assert!(b.write(b"hello"));
    assert!(!b.release_if_pinned(ReadLease { start: 0, len: 6 }));
    assert!(!b.release_if_pinned(ReadLease { start: 1, len: 2 }));
    assert_eq!(b.read().unwrap().view, b"hello");
    assert!(b.release_if_pinned(ReadLease { start: 0, len: 2 }));
    assert_eq!(b.read().unwrap().view, b"llo");
    let l = b.read().unwrap();
    assert!(b.release_if_pinned(ReadLease { start: l.span.start, len: l.span.len }));
    assert!(!b.release_if_pinned(l.span));
    assert!(b.read().is_none());
}
