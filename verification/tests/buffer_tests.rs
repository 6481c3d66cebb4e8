use utterance::circular_buffer::{CircularBuffer, CircularError};

#[test]
fn overwrite_evicts_oldest_first() {
    let mut b: CircularBuffer<u32> = CircularBuffer::new(3);
    for x in 1..=5u32 {
        b.overwrite(x);
        assert!(b.len() <= 3);
    }
    assert_eq!(b.iter(), vec![3, 4, 5]);
}

#[test]
fn overwrite_zero_capacity_stays_empty() {
    let mut b: CircularBuffer<u32> = CircularBuffer::new(0);
    b.overwrite(1);
    b.overwrite(2);
    assert_eq!(b.len(), 0);
}

#[test]
fn write_refuses_when_full() {
    let mut b: CircularBuffer<u8> = CircularBuffer::new(2);
    assert_eq!(b.write(1), Ok(()));
    assert_eq!(b.write(2), Ok(()));
    assert_eq!(b.write(3), Err(CircularError::Full));
    assert_eq!(b.iter(), vec![1, 2]);
}

#[test]
fn read_pops_oldest_and_empties() {
    let mut b: CircularBuffer<u8> = CircularBuffer::new(4);
    b.overwrite(7);
    b.overwrite(8);
    assert_eq!(b.read(), Ok(7));
    assert_eq!(b.read(), Ok(8));
    assert_eq!(b.read(), Err(CircularError::Empty));
}

#[test]
fn as_slices_concat_is_write_order_across_wraparound() {
    let mut b: CircularBuffer<u32> = CircularBuffer::new(3);
    for x in 1..=5u32 {
        b.overwrite(x);
    }
    let (a, c) = b.as_slices();
    let mut joined: Vec<u32> = a.to_vec();
    joined.extend_from_slice(c);
    assert_eq!(joined, vec![3, 4, 5]);
}

#[test]
fn make_contiguous_single_slice() {
    let mut b: CircularBuffer<u32> = CircularBuffer::new(3);
    for x in 1..=5u32 {
        b.overwrite(x);
    }
    b.make_contiguous();
    let (a, c) = b.as_slices();
    assert_eq!(a, &[3, 4, 5]);
    assert!(c.is_empty());
}

#[test]
fn clear_resets_but_keeps_capacity() {
    let mut b: CircularBuffer<u8> = CircularBuffer::new(2);
    b.overwrite(1);
    b.clear();
    assert_eq!(b.len(), 0);
    assert_eq!(b.write(9), Ok(()));
    assert_eq!(b.iter(), vec![9]);
}

#[test]
fn tail_copy_clamps_to_whole_buffer() {
    let mut b: CircularBuffer<u32> = CircularBuffer::new(5);
    for x in 1..=7u32 {
        b.overwrite(x);
    }
    // asked for more than is retained: the whole buffer, oldest first
    assert_eq!(b.tail_copy(100), vec![3, 4, 5, 6, 7]);
    assert_eq!(b.tail_copy(2), vec![6, 7]);
    assert_eq!(b.tail_copy(0), Vec::<u32>::new());
}

#[test]
fn read_after_wraparound_keeps_order() {
    let mut b: CircularBuffer<u8> = CircularBuffer::new(3);
    for x in 1..=4u8 {
        b.overwrite(x);
    }
    assert_eq!(b.read(), Ok(2));
    b.overwrite(5);
    assert_eq!(b.iter(), vec![3, 4, 5]);
}
