use mikan_xhci::memory::{Pool, POOL_SIZE};
use mikan_xhci::ring::{
    EventError, EventRing, EventTrb, EventTrbPayload, Ring, SegmentTableEntry,
};

fn event(tag: u32, cycle: bool) -> EventTrb {
    EventTrb { parameter: 0x1234, status: 7, control: (tag << 10) | (cycle as u32) }
}

#[test]
fn new_ring_is_zeroed() {
    let mut pool = Pool::new(0, POOL_SIZE);
    let ring = Ring::new(4, &mut pool).unwrap();
    assert_eq!(ring.base(), 64);
    assert_eq!(ring.len(), 4);
    assert_eq!(ring.cursor(), 0);
    assert!(ring.cycle_bit());
    for i in 0..4 {
        assert_eq!(ring.slot(i), Some([0, 0, 0, 0]));
    }
    assert_eq!(ring.slot(4), None);
    assert_eq!(pool.cursor(), 64 + 4 * 16);
}

#[test]
fn new_ring_needs_room() {
    let mut pool = Pool::new(0, 100);
    assert!(Ring::new(4, &mut pool).is_none());
    assert_eq!(pool.cursor(), 64);
    let mut other = Pool::new(0, 100);
    assert!(Ring::new(2, &mut other).is_some());
    assert_eq!(other.cursor(), 96);
}

#[test]
fn copy_to_last_stamps_the_cycle_bit() {
    let mut pool = Pool::new(0, POOL_SIZE);
    let mut ring = Ring::new(4, &mut pool).unwrap();
    ring.copy_to_last([1, 2, 3, 0xffff_fff0]);
    assert_eq!(ring.slot(0), Some([1, 2, 3, 0xffff_fff1]));
    assert_eq!(ring.cursor(), 0);
}

#[test]
fn push_writes_and_advances() {
    let mut pool = Pool::new(0, POOL_SIZE);
    let mut ring = Ring::new(8, &mut pool).unwrap();
    let next = ring.push([0xa, 0xb, 0xc, 0x2400]);
    assert_eq!(next, 64 + 16);
    assert_eq!(ring.slot(0), Some([0xa, 0xb, 0xc, 0x2401]));
    assert_eq!(ring.cursor(), 1);
    assert!(ring.cycle_bit());
}

#[test]
fn push_wraps_with_a_link_trb() {
    let mut pool = Pool::new(0, POOL_SIZE);
    let n = 4;
    let mut ring = Ring::new(n, &mut pool).unwrap();
    assert_eq!(ring.push([1, 0, 0, 0]), 64 + 16);
    assert_eq!(ring.push([2, 0, 0, 0]), 64 + 32);
    assert_eq!(ring.cursor(), 2);
    assert!(ring.cycle_bit());
    // The third payload fills the last slot before the link.
    assert_eq!(ring.push([3, 0, 0, 1]), 64 + 48);
    assert_eq!(ring.slot(n - 1), Some([64, 0, 0, 0x1803]));
    assert_eq!(ring.cursor(), 0);
    assert!(!ring.cycle_bit());
    assert_eq!(ring.slot(2), Some([3, 0, 0, 1]));
    // After as many pushes as the ring has slots the cursor stands at 1.
    ring.push([4, 0, 0, 0xff]);
    assert_eq!(ring.cursor(), 1);
    assert_eq!(ring.slot(0), Some([4, 0, 0, 0xfe]));
    ring.push([5, 0, 0, 0]);
    assert_eq!(ring.cursor(), 2);
    assert!(!ring.cycle_bit());
}

#[test]
fn push_flips_the_cycle_bit_once_per_pass() {
    let mut pool = Pool::new(0, POOL_SIZE);
    let n = 5;
    let mut ring = Ring::new(n, &mut pool).unwrap();
    let mut flips = 0;
    let mut last = ring.cycle_bit();
    for i in 0..(3 * (n - 1)) {
        ring.push([i as u32, 0, 0, 0]);
        if ring.cycle_bit() != last {
            flips += 1;
            last = ring.cycle_bit();
            assert_eq!(ring.cursor(), 0);
        }
    }
    assert_eq!(flips, 3);
    // The link of the third pass carries the cycle bit of that pass.
    assert_eq!(ring.slot(n - 1), Some([64, 0, 0, 0x1803]));
}

#[test]
fn link_trb_carries_a_high_address() {
    let mut pool = Pool::new(0x1_2345_0000, POOL_SIZE);
    let mut ring = Ring::new(2, &mut pool).unwrap();
    assert_eq!(ring.base(), 0x1_2345_0040);
    ring.push([9, 9, 9, 9]);
    assert_eq!(ring.slot(1), Some([0x2345_0040, 1, 0, 0x1803]));
    ring.push([9, 9, 9, 9]);
    assert_eq!(ring.slot(1), Some([0x2345_0040, 1, 0, 0x1802]));
}

#[test]
fn event_trb_cycle_bit() {
    assert!(event(32, true).cycle_bit());
    assert!(!event(32, false).cycle_bit());
}

#[test]
fn event_trb_type() {
    assert_eq!(event(32, true).ty(), Some(32));
    assert_eq!(event(1, true).ty(), Some(1));
    assert_eq!(event(25, false).ty(), Some(25));
    assert_eq!(event(39, false).ty(), Some(39));
    assert_eq!(event(0, true).ty(), None);
    assert_eq!(event(26, true).ty(), None);
    assert_eq!(event(31, true).ty(), None);
    assert_eq!(event(40, true).ty(), None);
    assert_eq!(event(63, true).ty(), None);
}

#[test]
fn event_trb_type_ignores_other_bits() {
    let trb = EventTrb { parameter: 0, status: 0, control: 0xffff_0000 | (33 << 10) | 0x3ff };
    assert_eq!(trb.ty(), Some(33));
}

#[test]
fn event_trb_payload() {
    let transfer = event(32, true);
    let completion = event(33, true);
    let port = event(34, false);
    assert_eq!(transfer.payload(), Ok(EventTrbPayload::TransferEvent(transfer)));
    assert_eq!(completion.payload(), Ok(EventTrbPayload::CommandCompletion(completion)));
    assert_eq!(port.payload(), Ok(EventTrbPayload::PortStatusChange(port)));
}

#[test]
fn event_trb_payload_errors() {
    assert_eq!(event(35, true).payload(), Err(EventError::Unexpected(35)));
    assert_eq!(event(6, true).payload(), Err(EventError::Unexpected(6)));
    assert_eq!(event(0, true).payload(), Err(EventError::Unrecognized(0)));
    assert_eq!(event(30, true).payload(), Err(EventError::Unrecognized(30)));
}

#[test]
fn new_event_ring_records_its_segment() {
    let mut pool = Pool::new(0, POOL_SIZE);
    let ring = EventRing::new(32, &mut pool).unwrap();
    assert_eq!(ring.base(), 64);
    // The table goes to the 64-byte multiple that follows the segment's end.
    assert_eq!(ring.segment_table_address(), 640);
    assert_eq!(ring.segment_count(), 1);
    assert_eq!(ring.segment(), SegmentTableEntry { base: 64, size: 32 });
    assert!(ring.cycle_bit());
    assert_eq!(pool.cursor(), 656);
}

#[test]
fn new_event_ring_limits() {
    let mut pool = Pool::new(0, POOL_SIZE);
    assert!(EventRing::new(65536, &mut pool).is_none());
    assert_eq!(pool.cursor(), 0);
    let mut small = Pool::new(0, 64 + 32 + 16);
    // The segment fits, the table after it does not.
    assert!(EventRing::new(2, &mut small).is_none());
}

#[test]
fn fresh_event_ring_has_no_event() {
    let mut pool = Pool::new(0, POOL_SIZE);
    let ring = EventRing::new(4, &mut pool).unwrap();
    for slot in 0..4 {
        assert!(!ring.has_front(ring.base() + 16 * slot));
        assert_eq!(
            ring.front(ring.base() + 16 * slot),
            Some(EventTrb { parameter: 0, status: 0, control: 0 })
        );
    }
    assert!(!ring.has_front(ring.base() + 64));
    assert!(!ring.has_front(ring.base() + 8));
    assert!(!ring.has_front(0));
}

#[test]
fn event_with_the_expected_cycle_bit_is_pending() {
    let mut pool = Pool::new(0, POOL_SIZE);
    let mut ring = EventRing::new(4, &mut pool).unwrap();
    let base = ring.base();
    assert!(ring.write_at(base, event(34, false)));
    assert!(!ring.has_front(base));
    assert!(ring.write_at(base, event(34, true)));
    assert!(ring.has_front(base));
    assert_eq!(ring.front(base), Some(event(34, true)));
    assert!(!ring.write_at(base + 4, event(34, true)));
    assert!(!ring.write_at(base + 64, event(34, true)));
}

#[test]
fn slot_index_of_pointers() {
    let mut pool = Pool::new(0, POOL_SIZE);
    let ring = EventRing::new(4, &mut pool).unwrap();
    assert_eq!(ring.slot_index(64), Some(0));
    assert_eq!(ring.slot_index(64 + 48), Some(3));
    assert_eq!(ring.slot_index(64 + 64), None);
    assert_eq!(ring.slot_index(63), None);
    assert_eq!(ring.slot_index(65), None);
}

#[test]
fn pop_advances_and_wraps() {
    let mut pool = Pool::new(0, POOL_SIZE);
    let mut ring = EventRing::new(3, &mut pool).unwrap();
    let base = ring.base();
    assert_eq!(ring.pop(base), base + 16);
    assert!(ring.cycle_bit());
    assert_eq!(ring.pop(base + 16), base + 32);
    assert!(ring.cycle_bit());
    assert_eq!(ring.pop(base + 32), base);
    assert!(!ring.cycle_bit());
    assert_eq!(ring.pop(base), base + 16);
    assert!(!ring.cycle_bit());
}

#[test]
fn process_event_without_event() {
    let mut pool = Pool::new(0, POOL_SIZE);
    let mut ring = EventRing::new(4, &mut pool).unwrap();
    let base = ring.base();
    assert_eq!(ring.process_event(base), None);
    assert_eq!(ring.process_event(base + 1), None);
    assert!(ring.cycle_bit());
}

#[test]
fn process_event_decodes_and_pops() {
    let mut pool = Pool::new(0, POOL_SIZE);
    let mut ring = EventRing::new(2, &mut pool).unwrap();
    let base = ring.base();
    ring.write_at(base, event(34, true));
    ring.write_at(base + 16, event(40, true));
    assert_eq!(
        ring.process_event(base),
        Some((Ok(EventTrbPayload::PortStatusChange(event(34, true))), base + 16))
    );
    assert_eq!(
        ring.process_event(base + 16),
        Some((Err(EventError::Unrecognized(40)), base))
    );
    assert!(!ring.cycle_bit());
    // The old events carry the cycle bit of the last pass.
    assert_eq!(ring.process_event(base), None);
    ring.write_at(base, event(32, false));
    assert_eq!(
        ring.process_event(base),
        Some((Ok(EventTrbPayload::TransferEvent(event(32, false))), base + 16))
    );
}
