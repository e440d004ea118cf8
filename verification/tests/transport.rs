use audio_router::transport::{SampleSink, SampleSource, Transport, BUFFER_FRAMES, SILENCE};

#[test]
fn new_transport_is_empty() {
    let t = Transport::new(4).unwrap();
    assert_eq!(t.len(), 0);
    assert_eq!(t.capacity(), 4);
}

#[test]
fn samples_leave_in_the_order_they_came() {
    let mut t = Transport::new(4).unwrap();
    assert!(t.push(10));
    assert!(t.push(20));
    assert!(t.push(30));
    assert_eq!(t.len(), 3);
    assert_eq!(t.pop(), Some(10));
    assert_eq!(t.pop(), Some(20));
    assert!(t.push(40));
    assert_eq!(t.pop(), Some(30));
    assert_eq!(t.pop(), Some(40));
    assert_eq!(t.pop(), None);
}

#[test]
fn overflow_is_dropped_without_error() {
    let capacity: usize = 5;
    let extra: usize = 3;
    let mut t = Transport::new(capacity).unwrap();
    for i in 0..(capacity + extra) {
        let accepted = t.push(100 + i as u32);
        assert_eq!(accepted, i < capacity);
    }
    assert_eq!(t.len(), capacity);
    for i in 0..capacity {
        assert_eq!(t.pop(), Some(100 + i as u32));
    }
    assert_eq!(t.pop(), None);
}

#[test]
fn underrun_answers_none() {
    let mut t = Transport::new(3).unwrap();
    assert_eq!(t.pop(), None);
    assert!(t.push(7));
    assert!(t.push(8));
    assert_eq!(t.pop(), Some(7));
    assert_eq!(t.pop(), Some(8));
    assert_eq!(t.pop(), None);
    assert_eq!(t.pop(), None);
    assert_eq!(t.len(), 0);
}

#[test]
fn capacity_of_one_holds_one_sample() {
    let mut t = Transport::new(1).unwrap();
    assert!(t.push(1));
    assert!(!t.push(2));
    assert_eq!(t.pop(), Some(1));
    assert!(t.push(3));
    assert_eq!(t.pop(), Some(3));
}

#[test]
fn transport_for_channels_scales_with_the_channel_count() {
    assert_eq!(BUFFER_FRAMES, 16384);
    assert_eq!(Transport::for_channels(2).unwrap().capacity(), 32768);
    assert_eq!(Transport::for_channels(1).unwrap().capacity(), 16384);
    assert_eq!(Transport::for_channels(0).unwrap().capacity(), 16384);
    assert_eq!(Transport::for_channels(6).unwrap().len(), 0);
}

#[test]
fn split_ends_carry_samples_across() {
    let t = Transport::new(2).unwrap();
    let (mut producer, mut consumer) = t.split();
    assert_eq!(consumer.pop(), None);
    assert!(producer.push(11));
    assert!(producer.push(12));
    assert!(!producer.push(13));
    assert_eq!(consumer.pop(), Some(11));
    assert!(producer.push(14));
    assert_eq!(consumer.pop(), Some(12));
    assert_eq!(consumer.pop(), Some(14));
    assert_eq!(consumer.pop(), None);
}

#[test]
fn split_keeps_what_was_queued() {
    let mut t = Transport::new(3).unwrap();
    assert!(t.push(5));
    let (mut producer, mut consumer) = t.split();
    assert!(producer.push(6));
    assert_eq!(consumer.pop(), Some(5));
    assert_eq!(consumer.pop(), Some(6));
}

#[test]
fn silence_is_the_zero_pattern() {
    assert_eq!(SILENCE, 0.0f32.to_bits());
    assert_eq!(f32::from_bits(SILENCE), 0.0);
}

#[test]
fn no_transport_without_room() {
    assert!(Transport::new(0).is_none());
}

#[test]
fn no_transport_beyond_what_can_be_allocated() {
    assert!(Transport::new(usize::MAX).is_none());
    assert!(Transport::new(isize::MAX as usize / 4 + 1).is_none());
}

#[test]
fn producer_is_sure_of_the_free_places() {
    let mut t = Transport::new(5).unwrap();
    assert!(t.push(1));
    assert!(t.push(2));
    let (mut producer, mut consumer) = t.split();
    assert!(producer.push(3));
    assert!(producer.push(4));
    assert!(producer.push(5));
    assert!(!producer.push(6));
    for want in 1..=5u32 {
        assert_eq!(consumer.pop(), Some(want));
    }
    assert_eq!(consumer.pop(), None);
}

#[test]
fn consumer_is_sure_of_what_was_queued() {
    let mut t = Transport::new(4).unwrap();
    for s in [10u32, 20, 30, 40] {
        assert!(t.push(s));
    }
    let (mut producer, mut consumer) = t.split();
    assert!(!producer.push(50));
    assert_eq!(consumer.pop(), Some(10));
    assert_eq!(consumer.pop(), Some(20));
    assert!(producer.push(60));
    assert_eq!(consumer.pop(), Some(30));
    assert_eq!(consumer.pop(), Some(40));
    assert_eq!(consumer.pop(), Some(60));
    assert_eq!(consumer.pop(), None);
}
