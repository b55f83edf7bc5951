use rustcom::buffer::BufferStore;
use rustcom::buffer::BUFFER_DRAIN_SIZE;
use rustcom::buffer::MAX_BUFFER_SIZE;

#[test]
fn append_and_read_back() {
    let mut b = BufferStore::new();
    assert_eq!(b.len(), 0);
    b.append(b"hello");
    b.append(b" world");
    assert_eq!(b.len(), 11);
    assert_eq!(b.contents().as_slice(), b"hello world");
}

#[test]
fn clear_empties_the_buffer() {
    let mut b = BufferStore::new();
    b.append(b"data");
    b.clear();
    assert_eq!(b.len(), 0);
    assert_eq!(b.contents().as_slice(), b"");
}

#[test]
fn three_large_appends_drain_once() {
    // 3 x 40000 bytes: the third append pushes the total to 120000, one
    // drain of 10000 is applied, leaving 110000.
    let mut b = BufferStore::new();
    b.append(&vec![1u8; 40000]);
    assert_eq!(b.len(), 40000);
    b.append(&vec![2u8; 40000]);
    assert_eq!(b.len(), 80000);
    b.append(&vec![3u8; 40000]);
    assert_eq!(b.len(), 110000);
    // the 10000 oldest bytes are gone, FIFO
    let c = b.contents();
    assert_eq!(c[0], 1);
    assert_eq!(c[29999], 1);
    assert_eq!(c[30000], 2);
    assert_eq!(c[69999], 2);
    assert_eq!(c[70000], 3);
    assert_eq!(c[109999], 3);
}

#[test]
fn small_appends_keep_the_bound() {
    // appends no larger than the drain size never leave the buffer over
    // the bound
    let mut b = BufferStore::new();
    for round in 0..15usize {
        b.append(&vec![round as u8; BUFFER_DRAIN_SIZE]);
        assert!(b.len() <= MAX_BUFFER_SIZE);
    }
    assert_eq!(b.len(), MAX_BUFFER_SIZE);
}

#[test]
fn eviction_is_fifo() {
    let mut b = BufferStore::new();
    b.append(&vec![7u8; MAX_BUFFER_SIZE]);
    b.append(b"xy");
    assert_eq!(b.len(), MAX_BUFFER_SIZE + 2 - BUFFER_DRAIN_SIZE);
    let c = b.contents();
    assert_eq!(c[0], 7);
    assert_eq!(c[b.len() - 2], b'x');
    assert_eq!(c[b.len() - 1], b'y');
}
