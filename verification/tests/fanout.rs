use frameflow::channel::channel_bounded;
use frameflow::envelope::{BufferPool, Envelope, Payload};
use frameflow::worker::forward_unit;

fn payload(bytes: Vec<u8>, pts: i64) -> Payload {
    Payload { data: bytes, pts }
}

fn prefilled_pool(n: usize) -> BufferPool {
    let mut pool = BufferPool::new();
    for _ in 0..n {
        pool.put(payload(vec![0xAA], 0));
    }
    pool
}

#[test]
fn single_destination_takes_no_duplicate() {
    let (s, r) = channel_bounded::<Envelope>(8);
    let mut senders = vec![s];
    let mut pool = prefilled_pool(4);
    forward_unit(payload(vec![1, 2, 3], 5), &mut senders, 0, &mut pool);
    // no buffer was issued: the single send moved the original payload
    assert_eq!(pool.available(), 4);
    let got = r.try_recv().expect("unit delivered");
    assert_eq!(got.frame.data, vec![1, 2, 3]);
    assert_eq!(got.frame.pts, 5);
    assert_eq!(senders.len(), 1);
}

#[test]
fn three_destinations_take_two_duplicates_with_equal_content() {
    let (s1, r1) = channel_bounded::<Envelope>(8);
    let (s2, r2) = channel_bounded::<Envelope>(8);
    let (s3, r3) = channel_bounded::<Envelope>(8);
    let mut senders = vec![s1, s2, s3];
    let mut pool = prefilled_pool(4);
    forward_unit(payload(vec![9, 8], 42), &mut senders, 3, &mut pool);
    // exactly two buffers were issued for the two duplicating sends
    assert_eq!(pool.available(), 2);
    for r in [r1, r2, r3] {
        let got = r.try_recv().expect("every destination observes the unit");
        assert_eq!(got.frame.data, vec![9, 8]);
        assert_eq!(got.frame.pts, 42);
        assert_eq!(got.meta.fg_input_index, 3);
    }
    assert_eq!(senders.len(), 3);
}

#[test]
fn closed_destination_is_dropped_and_rest_keep_receiving() {
    let (s1, r1) = channel_bounded::<Envelope>(8);
    let (s2, r2) = channel_bounded::<Envelope>(8);
    drop(r1);
    let mut senders = vec![s1, s2];
    let mut pool = BufferPool::new();
    forward_unit(payload(vec![1], 1), &mut senders, 0, &mut pool);
    // the dead destination left the set; the live one got the unit
    assert_eq!(senders.len(), 1);
    assert_eq!(r2.try_recv().expect("live destination").frame.data, vec![1]);
    // later units go only to the remaining destination
    forward_unit(payload(vec![2], 2), &mut senders, 0, &mut pool);
    assert_eq!(senders.len(), 1);
    assert_eq!(r2.try_recv().expect("live destination").frame.data, vec![2]);
}

#[test]
fn all_destinations_closed_empties_the_set() {
    let (s1, r1) = channel_bounded::<Envelope>(8);
    let (s2, r2) = channel_bounded::<Envelope>(8);
    drop(r1);
    drop(r2);
    let mut senders = vec![s1, s2];
    let mut pool = BufferPool::new();
    forward_unit(payload(vec![1], 1), &mut senders, 0, &mut pool);
    assert_eq!(senders.len(), 0);
}

#[test]
fn pool_reuses_returned_buffers() {
    let mut pool = BufferPool::new();
    assert_eq!(pool.available(), 0);
    pool.put(payload(vec![1, 2, 3, 4], 0));
    assert_eq!(pool.available(), 1);
    let buf = pool.get();
    assert_eq!(pool.available(), 0);
    // a recycled buffer is reused rather than newly allocated
    assert_eq!(buf.data, vec![1, 2, 3, 4]);
    let fresh = pool.get();
    assert!(fresh.data.is_empty());
}
