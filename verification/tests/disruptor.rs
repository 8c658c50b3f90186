use trading_engine::disruptor::{build, Consumer, PaddedCursor, Producer, RingBuffer};

#[test]
fn ring_slots_start_one_lap_behind() {
    let ring: RingBuffer<u64> = RingBuffer::new(4);
    assert_eq!(ring.capacity(), 4);
    assert_eq!(ring.slot_sequence(0), u64::MAX - 3);
    assert_eq!(ring.slot_sequence(3), u64::MAX);
    // Sequence 5 maps to slot 1.
    assert_eq!(ring.slot_sequence(5), u64::MAX - 2);
}

#[test]
fn ring_write_then_read_same_slot() {
    let mut ring: RingBuffer<u32> = RingBuffer::new(8);
    ring.write(10, 77);
    assert_eq!(ring.read(10), 77);
    assert_eq!(ring.read(2), 77);
    assert_eq!(ring.read(3), 0);
}

#[test]
fn ring_mask_of_odd_capacity_skips_slots() {
    // With capacity 3 the mask is 2: sequence 1 lands in slot 0.
    let mut ring: RingBuffer<u32> = RingBuffer::new(3);
    ring.write(1, 5);
    assert_eq!(ring.read(0), 5);
    assert_eq!(ring.read(2), 0);
}

#[test]
fn padded_cursor_holds_initial() {
    assert_eq!(PaddedCursor::new(42).value, 42);
}

#[test]
fn consumers_read_what_was_published_in_order() {
    let (mut producer, mut consumers) = build::<u64>(4, 2);
    assert!(producer.publish(11));
    assert!(producer.publish(22));
    assert_eq!(consumers[0].consume(&mut producer), Some(11));
    assert_eq!(consumers[0].consume(&mut producer), Some(22));
    assert_eq!(consumers[0].consume(&mut producer), None);
    assert_eq!(consumers[1].consume(&mut producer), Some(11));
    assert_eq!(consumers[1].next_sequence(), 1);
    assert_eq!(producer.next_sequence(), 2);
}

#[test]
fn producer_waits_for_the_slowest_consumer() {
    let (mut producer, mut consumers) = build::<u64>(4, 1);
    assert!(producer.publish(1));
    assert!(producer.publish(2));
    assert!(producer.publish(3));
    // Three values outstanding in a ring of four: the fourth must wait.
    assert!(!producer.publish(4));
    assert_eq!(producer.next_sequence(), 3);
    assert_eq!(consumers[0].consume(&mut producer), Some(1));
    assert!(producer.publish(4));
    assert!(!producer.publish(5));
}

#[test]
fn single_slot_ring_never_publishes_with_a_consumer() {
    let (mut producer, mut consumers) = build::<u8>(1, 1);
    assert!(!producer.publish(9));
    assert_eq!(consumers[0].consume(&mut producer), None);
}

#[test]
fn producer_without_consumers_always_publishes() {
    let (mut producer, consumers) = build::<u8>(2, 0);
    assert!(consumers.is_empty());
    for i in 0..10u8 {
        assert!(producer.publish(i));
    }
    assert_eq!(producer.next_sequence(), 10);
}

#[test]
fn fifo_order_survives_many_laps() {
    let (mut producer, mut consumers) = build::<u64>(8, 1);
    let mut expected = 0u64;
    let mut next = 0u64;
    for round in 0..50u64 {
        let burst = round % 7 + 1;
        for _ in 0..burst {
            if producer.publish(next * 3) {
                next += 1;
            }
        }
        while let Some(v) = consumers[0].consume(&mut producer) {
            assert_eq!(v, expected * 3);
            expected += 1;
        }
    }
    assert_eq!(expected, next);
    assert!(next > 50);
}

#[test]
fn producer_over_a_prepared_ring() {
    let ring: RingBuffer<u16> = RingBuffer::new(2);
    let mut producer = Producer::new(ring, vec![PaddedCursor::new(u64::MAX)]);
    let mut consumer: Consumer<u16> = Consumer::new(0);
    assert_eq!(producer.capacity(), 2);
    assert!(producer.publish(7));
    assert!(!producer.publish(8));
    assert_eq!(consumer.consume(&mut producer), Some(7));
    assert!(producer.publish(8));
    assert_eq!(consumer.consume(&mut producer), Some(8));
}
