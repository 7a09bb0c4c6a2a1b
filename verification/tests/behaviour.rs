use ring_buffer::ring::BUFFER_FULL;
use ring_buffer::RingBuffer;

#[test]
fn fresh_buffer_reads_nothing_for_each_capacity() {
    for capacity in 1..20usize {
        let mut buffer: RingBuffer<u8> = RingBuffer::new(capacity);
        assert_eq!(None, buffer.read());
        assert_eq!(None, buffer.read());
    }
}

#[test]
fn read_after_the_last_element_returns_none() {
    let mut buffer: RingBuffer<i32> = RingBuffer::new(10);
    for value in 1..=5 {
        assert_eq!(Ok(()), buffer.put(value));
    }
    for value in 1..=5 {
        assert_eq!(Some(value), buffer.read());
    }
    assert_eq!(None, buffer.read());
}

#[test]
fn filling_to_capacity_keeps_order() {
    for capacity in 1..12usize {
        let mut buffer: RingBuffer<usize> = RingBuffer::new(capacity);
        for value in 0..capacity {
            assert_eq!(Ok(()), buffer.put(value + 100));
        }
        for value in 0..capacity {
            assert_eq!(Some(value + 100), buffer.read());
        }
        assert_eq!(None, buffer.read());
    }
}

#[test]
fn full_buffer_refuses_and_keeps_its_elements() {
    let mut buffer: RingBuffer<i32> = RingBuffer::new(3);
    assert_eq!(Ok(()), buffer.put(1));
    assert_eq!(Ok(()), buffer.put(2));
    assert_eq!(Ok(()), buffer.put(3));

    assert_eq!(Err(BUFFER_FULL), buffer.put(4));
    assert_eq!(Err("Buffer is full"), buffer.put(5));

    assert_eq!(Some(1), buffer.read());
    assert_eq!(Some(2), buffer.read());
    assert_eq!(Some(3), buffer.read());
    assert_eq!(None, buffer.read());
}

#[test]
fn refused_value_is_not_stored() {
    let mut buffer: RingBuffer<i32> = RingBuffer::new(2);
    assert_eq!(Ok(()), buffer.put(10));
    assert_eq!(Ok(()), buffer.put(20));
    assert_eq!(Err("Buffer is full"), buffer.put(30));

    assert_eq!(Some(10), buffer.read());
    assert_eq!(Ok(()), buffer.put(40));
    assert_eq!(Some(20), buffer.read());
    assert_eq!(Some(40), buffer.read());
    assert_eq!(None, buffer.read());
}

#[test]
fn put_after_one_read_of_a_full_buffer_succeeds() {
    for capacity in 1..10usize {
        let mut buffer: RingBuffer<usize> = RingBuffer::new(capacity);
        for value in 0..capacity {
            assert_eq!(Ok(()), buffer.put(value));
        }
        assert_eq!(Some(0), buffer.read());
        assert_eq!(Ok(()), buffer.put(capacity));
        assert_eq!(Err("Buffer is full"), buffer.put(capacity + 1));
        for value in 1..=capacity {
            assert_eq!(Some(value), buffer.read());
        }
        assert_eq!(None, buffer.read());
    }
}

#[test]
fn order_holds_over_many_laps_of_the_store() {
    let mut buffer: RingBuffer<u32> = RingBuffer::new(3);
    let mut next_in: u32 = 0;
    let mut next_out: u32 = 0;
    for _ in 0..50 {
        assert_eq!(Ok(()), buffer.put(next_in));
        next_in += 1;
        assert_eq!(Ok(()), buffer.put(next_in));
        next_in += 1;
        assert_eq!(Some(next_out), buffer.read());
        next_out += 1;
        assert_eq!(Some(next_out), buffer.read());
        next_out += 1;
    }
    assert_eq!(None, buffer.read());
}

#[test]
fn never_holds_more_than_its_capacity() {
    let capacity: usize = 4;
    let mut buffer: RingBuffer<u64> = RingBuffer::new(capacity);
    let mut accepted: usize = 0;
    let mut served: usize = 0;
    let mut seed: u64 = 12345;
    for _ in 0..2000 {
        seed = seed.wrapping_mul(6364136223846793005).wrapping_add(1442695040888963407);
        if (seed >> 33) % 3 != 0 {
            let held = accepted - served;
            match buffer.put(seed) {
                Ok(()) => {
                    assert!(held < capacity);
                    accepted += 1;
                }
                Err(text) => {
                    assert_eq!("Buffer is full", text);
                    assert_eq!(capacity, held);
                }
            }
        } else {
            let held = accepted - served;
            match buffer.read() {
                Some(_) => {
                    assert!(held > 0);
                    served += 1;
                }
                None => assert_eq!(0, held),
            }
        }
        assert!(accepted - served <= capacity);
    }
}

#[test]
fn capacity_zero_is_full_from_the_start() {
    let mut buffer: RingBuffer<i32> = RingBuffer::new(0);
    assert_eq!(None, buffer.read());
    assert_eq!(Err("Buffer is full"), buffer.put(1));
    assert_eq!(None, buffer.read());
    assert_eq!(Err("Buffer is full"), buffer.put(2));
}

#[test]
fn capacity_one_alternates() {
    let mut buffer: RingBuffer<char> = RingBuffer::new(1);
    assert_eq!(Ok(()), buffer.put('a'));
    assert_eq!(Err("Buffer is full"), buffer.put('b'));
    assert_eq!(Some('a'), buffer.read());
    assert_eq!(None, buffer.read());
    assert_eq!(Ok(()), buffer.put('c'));
    assert_eq!(Some('c'), buffer.read());
    assert_eq!(None, buffer.read());
}

#[test]
fn default_fill_is_never_read() {
    let mut buffer: RingBuffer<i32> = RingBuffer::new(4);
    assert_eq!(None, buffer.read());
    assert_eq!(Ok(()), buffer.put(0));
    assert_eq!(Some(0), buffer.read());
    assert_eq!(None, buffer.read());
    assert_eq!(Ok(()), buffer.put(9));
    assert_eq!(Some(9), buffer.read());
    assert_eq!(None, buffer.read());
}

#[test]
fn empty_read_changes_nothing() {
    let mut buffer: RingBuffer<i32> = RingBuffer::new(2);
    assert_eq!(None, buffer.read());
    assert_eq!(None, buffer.read());
    assert_eq!(Ok(()), buffer.put(1));
    assert_eq!(Ok(()), buffer.put(2));
    assert_eq!(Err("Buffer is full"), buffer.put(3));
    assert_eq!(Some(1), buffer.read());
    assert_eq!(Some(2), buffer.read());
}

#[test]
fn full_text_is_fixed() {
    assert_eq!("Buffer is full", BUFFER_FULL);
}
