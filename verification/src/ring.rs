//! Rings of 16-byte transfer request blocks (TRBs) shared with the controller.
//!
//! A [`Ring`] is written by the driver and read by the controller; an
//! [`EventRing`] is written by the controller and read by the driver. Both
//! sides agree on which slots are fresh through a cycle bit that flips each
//! time the ring wraps.

use crate::memory::{lemma_start_is_aligned, Demand, Pool};
use crate::usb::Request;
use num_traits::FromPrimitive;
use vstd::prelude::*;
use xhci::ring::trb::{Link, Type};

verus! {

/// Bytes in one TRB.
pub const TRB_BYTES: usize = 16;

/// Alignment of every ring and segment table.
pub const RING_ALIGNMENT: usize = 64;

/// Address multiple that no ring or segment table may reach across.
pub const RING_BOUNDARY: usize = 65536;

/// Type tag of a transfer event.
pub const TRANSFER_EVENT: u32 = 32;

/// Type tag of a command completion event.
pub const COMMAND_COMPLETION: u32 = 33;

/// Type tag of a port status change event.
pub const PORT_STATUS_CHANGE: u32 = 34;

/// The words `data` with the lowest bit of the last word replaced by `cycle`.
pub open spec fn stamped(data: Seq<u32>, cycle: bool) -> Seq<u32> {
    data.update(3, (data[3] & 0xffff_fffe) | (if cycle { 1u32 } else { 0u32 }))
}

/// The words of a link TRB that leads to `segment` and toggles the cycle:
/// the address in the first two words, type 6 and the toggle flag in the last.
pub open spec fn link_words(segment: u64) -> Seq<u32> {
    seq![(segment & 0xffff_ffff) as u32, (segment >> 32) as u32, 0u32, 0x1802u32]
}

/// Whether `tag` is the number of a TRB type.
pub open spec fn is_trb_type(tag: u32) -> bool {
    1 <= tag <= 25 || 32 <= tag <= 39
}

/// The type tag in the last word of a TRB.
pub open spec fn type_tag(control: u32) -> u32 {
    (control >> 10) & 0x3f
}

/// Builds a link TRB with `xhci::ring::trb::Link`: `new`, then
/// `set_ring_segment_pointer` and `set_toggle_cycle`, then `into_raw`. The
/// contract spells out the four words this gives. The setter panics on a
/// pointer that is not 16-byte aligned, hence the precondition.
#[verifier::external_body]
fn link_trb(segment: u64) -> (raw: [u32; 4])
    requires
        segment % 16 == 0,
    ensures
        raw@ == link_words(segment),
{
    let mut link = Link::new();
    link.set_ring_segment_pointer(segment);
    link.set_toggle_cycle();
    link.into_raw()
}

/// Asks `xhci::ring::trb::Type`, through `num_traits::FromPrimitive::from_u32`,
/// whether `tag` numbers a TRB type. The types are numbered 1 to 25 and 32 to
/// 39; for those the number comes back, for every other value nothing.
#[verifier::external_body]
fn known_type(tag: u32) -> (r: Option<u32>)
    ensures
        r == (if is_trb_type(tag) { Some(tag) } else { None }),
{
    match Type::from_u32(tag) {
        Some(t) => Some(t as u32),
        None => None,
    }
}

/// One slot of a producer ring.
#[derive(Clone, Copy, Debug)]
pub struct Trb {
    pub data: [u32; 4],
}

/// What a producer ring is, seen from outside.
pub struct RingView {
    pub slots: Seq<Seq<u32>>,
    pub base: u64,
    pub cycle: bool,
    pub cursor: int,
}

impl RingView {
    /// The ring after `data` was written at the cursor with the ring's cycle bit.
    pub open spec fn written(self, data: Seq<u32>) -> RingView {
        RingView { slots: self.slots.update(self.cursor, stamped(data, self.cycle)), ..self }
    }

    /// The ring after one push: the payload goes to the cursor's slot; where
    /// the cursor then reaches the last slot, a link TRB back to the base goes
    /// there, the cursor returns to the first slot and the cycle bit flips.
    pub open spec fn pushed(self, data: Seq<u32>) -> RingView {
        let filled = self.written(data);
        if self.cursor + 1 == self.slots.len() - 1 {
            RingView {
                slots: filled.slots.update(
                    self.cursor + 1,
                    stamped(link_words(self.base), self.cycle),
                ),
                base: self.base,
                cycle: !self.cycle,
                cursor: 0,
            }
        } else {
            RingView { cursor: self.cursor + 1, ..filled }
        }
    }

    /// The ring after the first `n` of `payloads` were pushed in order.
    pub open spec fn pushed_all(self, payloads: Seq<Seq<u32>>, n: int) -> RingView
        decreases n,
    {
        if n <= 0 {
            self
        } else {
            self.pushed_all(payloads, n - 1).pushed(payloads[n - 1])
        }
    }

    /// A ring that can take a push: two slots or more, and the cursor before
    /// the last one.
    pub open spec fn ready(self) -> bool {
        &&& self.slots.len() >= 2
        &&& 0 <= self.cursor < self.slots.len() - 1
    }
}

/// A producer ring: the driver writes, the controller reads.
#[derive(Debug)]
pub struct Ring {
    buffer: Vec<Trb>,
    base: u64,
    cycle_bit: bool,
    cursor: usize,
}

impl View for Ring {
    type V = RingView;

    closed spec fn view(&self) -> RingView {
        RingView {
            slots: Seq::new(self.buffer@.len(), |i: int| self.buffer@[i].data@),
            base: self.base,
            cycle: self.cycle_bit,
            cursor: self.cursor as int,
        }
    }
}

impl Ring {
    /// The ring lies in the address space, on a 64-byte multiple, and its
    /// cursor is before the last slot (on the first slot of a ring too short
    /// to be pushed to).
    pub closed spec fn wf(&self) -> bool {
        &&& self.base % 64 == 0
        &&& self.base + 16 * self.buffer@.len() <= u64::MAX
        &&& (self.buffer@.len() >= 2 ==> self.cursor < self.buffer@.len() - 1)
        &&& (self.buffer@.len() < 2 ==> self.cursor == 0)
    }

    /// Takes `size` slots from `pool`, on a 64-byte multiple and within one
    /// 64 KiB window, and fills them with zeros. The ring starts at its first
    /// slot with the cycle bit set. Nothing is built where the pool cannot
    /// serve the slots.
    pub fn new(size: usize, pool: &mut Pool) -> (r: Option<Ring>)
        requires
            old(pool).wf(),
        ensures
            final(pool).wf(),
            final(pool).spec_base() == old(pool).spec_base(),
            final(pool).spec_end() == old(pool).spec_end(),
            size * 16 > usize::MAX ==> r.is_none() && final(pool).spec_cursor() == old(
                pool,
            ).spec_cursor(),
            size * 16 <= usize::MAX ==> ({
                let d = Demand {
                    length: (size * 16) as usize,
                    alignment: RING_ALIGNMENT,
                    boundary: RING_BOUNDARY,
                };
                let cursor = old(pool).spec_cursor();
                let end = old(pool).spec_end();
                &&& r.is_some() == d.fits(cursor, end)
                &&& final(pool).spec_cursor() == d.cursor_after(cursor, end)
                &&& r.is_some() ==> r.unwrap()@.base == d.start(cursor)
            }),
            r.is_some() ==> ({
                let ring = r.unwrap();
                &&& ring.wf()
                &&& ring@.base % 64 == 0
                &&& ring@.slots == Seq::new(size as nat, |i: int| seq![0u32, 0u32, 0u32, 0u32])
                &&& ring@.cycle
                &&& ring@.cursor == 0
            }),
    {
        let ghost cursor = pool.spec_cursor();
        let start: usize = match pool.allocate_slice(size, TRB_BYTES, RING_ALIGNMENT, RING_BOUNDARY) {
            Some(start) => start,
            None => {
                return None;
            },
        };
        proof {
            lemma_start_is_aligned(cursor, size * 16, 64, 65536);
        }
        let mut buffer: Vec<Trb> = Vec::new();
        let mut i: usize = 0;
        while i < size
            invariant
                i <= size,
                buffer@.len() == i,
                forall|k: int| 0 <= k < i ==> (#[trigger] buffer@[k]).data@ == seq![0u32, 0u32, 0u32, 0u32],
            decreases size - i,
        {
            let trb = Trb { data: [0, 0, 0, 0] };
            assert(trb.data@ =~= seq![0u32, 0u32, 0u32, 0u32]);
            buffer.push(trb);
            i += 1;
        }
        let ring = Ring { buffer, base: start as u64, cycle_bit: true, cursor: 0 };
        assert(ring@.slots =~= Seq::new(size as nat, |i: int| seq![0u32, 0u32, 0u32, 0u32]));
        Some(ring)
    }

    /// Address of the ring's first slot.
    pub fn base(&self) -> (r: u64)
        ensures
            r == self@.base,
    {
        self.base
    }

    /// The cycle bit that the next written slot gets.
    pub fn cycle_bit(&self) -> (r: bool)
        ensures
            r == self@.cycle,
    {
        self.cycle_bit
    }

    /// Index of the slot that the next push writes.
    pub fn cursor(&self) -> (r: usize)
        ensures
            r == self@.cursor,
    {
        self.cursor
    }

    /// Number of slots, link slot included.
    pub fn len(&self) -> (r: usize)
        ensures
            r == self@.slots.len(),
    {
        self.buffer.len()
    }

    /// The words in slot `index`, or nothing where the ring has no such slot.
    pub fn slot(&self, index: usize) -> (r: Option<[u32; 4]>)
        ensures
            index < self@.slots.len() ==> r.is_some() && r.unwrap()@ == self@.slots[index as int],
            index >= self@.slots.len() ==> r.is_none(),
    {
        if index < self.buffer.len() {
            Some(self.buffer[index].data)
        } else {
            None
        }
    }

    /// Writes `data` into the slot at the cursor, its lowest control bit
    /// replaced by the ring's cycle bit. The cursor stays.
    pub fn copy_to_last(&mut self, data: [u32; 4])
        requires
            old(self).wf(),
            old(self)@.cursor < old(self)@.slots.len(),
        ensures
            final(self).wf(),
            final(self)@ == old(self)@.written(data@),
    {
        self.store(self.cursor, data);
        assert(self@.slots =~= old(self)@.written(data@).slots);
    }

    /// Writes `data` into slot `index` with the ring's cycle bit.
    fn store(&mut self, index: usize, data: [u32; 4])
        requires
            index < old(self).buffer@.len(),
        ensures
            final(self).buffer@.len() == old(self).buffer@.len(),
            final(self).buffer@[index as int].data@ == stamped(data@, old(self).cycle_bit),
            forall|k: int|
                0 <= k < old(self).buffer@.len() && k != index ==> final(self).buffer@[k] == old(
                    self,
                ).buffer@[k],
            final(self).base == old(self).base,
            final(self).cycle_bit == old(self).cycle_bit,
            final(self).cursor == old(self).cursor,
    {
        let bit: u32 = if self.cycle_bit { 1 } else { 0 };
        let trb = Trb { data: [data[0], data[1], data[2], (data[3] & 0xffff_fffe) | bit] };
        assert(trb.data@ =~= stamped(data@, self.cycle_bit));
        self.buffer.set(index, trb);
    }

    /// Puts `data` on the ring and returns the address of the slot after the
    /// one written. See [`RingView::pushed`] for what the ring holds then.
    pub fn push(&mut self, data: [u32; 4]) -> (r: u64)
        requires
            old(self).wf(),
            old(self)@.slots.len() >= 2,
        ensures
            final(self).wf(),
            old(self)@.ready(),
            final(self)@ == old(self)@.pushed(data@),
            r == old(self)@.base + 16 * (old(self)@.cursor + 1),
    {
        let len: usize = self.buffer.len();
        self.store(self.cursor, data);
        let following: usize = self.cursor + 1;
        let next: u64 = self.base + 16 * (following as u64);
        if following == len - 1 {
            let link = link_trb(self.base);
            self.store(following, link);
            self.cursor = 0;
            self.cycle_bit = !self.cycle_bit;
        } else {
            self.cursor = following;
        }
        assert(self@.slots =~= old(self)@.pushed(data@).slots);
        next
    }
}

/// A full pass over a ring: pushing one payload for every slot but the last,
/// starting at the first slot, leaves each payload in its slot with the cycle
/// bit the ring had, puts a link TRB back to the base with that same cycle bit
/// in the last slot, returns the cursor to the first slot and flips the cycle
/// bit exactly once.
pub proof fn lemma_full_pass(ring: RingView, payloads: Seq<Seq<u32>>)
    requires
        ring.slots.len() >= 2,
        ring.cursor == 0,
        payloads.len() == ring.slots.len() - 1,
    ensures
        ({
            let after = ring.pushed_all(payloads, payloads.len() as int);
            &&& after.cursor == 0
            &&& after.cycle == !ring.cycle
            &&& after.base == ring.base
            &&& after.slots.len() == ring.slots.len()
            &&& after.slots[ring.slots.len() - 1] == stamped(link_words(ring.base), ring.cycle)
            &&& forall|i: int|
                0 <= i < payloads.len() ==> after.slots[i] == stamped(
                    #[trigger] payloads[i],
                    ring.cycle,
                )
        }),
{
    let n = payloads.len() as int;
    lemma_partial_pass(ring, payloads, n - 1);
    let before = ring.pushed_all(payloads, n - 1);
    let after = ring.pushed_all(payloads, n);
    assert(after == before.pushed(payloads[n - 1]));
    assert forall|i: int| 0 <= i < payloads.len() implies after.slots[i] == stamped(
        #[trigger] payloads[i],
        ring.cycle,
    ) by {
        if i < n - 1 {
            assert(before.slots[i] == stamped(payloads[i], ring.cycle));
        }
    }
}

/// While the cursor has not reached the last slot, every push fills the next
/// slot and leaves the cycle bit alone.
pub proof fn lemma_partial_pass(ring: RingView, payloads: Seq<Seq<u32>>, n: int)
    requires
        ring.slots.len() >= 2,
        ring.cursor == 0,
        0 <= n <= ring.slots.len() - 2,
        n <= payloads.len(),
    ensures
        ({
            let after = ring.pushed_all(payloads, n);
            &&& after.cursor == n
            &&& after.cycle == ring.cycle
            &&& after.base == ring.base
            &&& after.slots.len() == ring.slots.len()
            &&& forall|i: int|
                0 <= i < n ==> after.slots[i] == stamped(#[trigger] payloads[i], ring.cycle)
            &&& forall|i: int| n <= i < ring.slots.len() ==> after.slots[i] == ring.slots[i]
        }),
    decreases n,
{
    if n > 0 {
        lemma_partial_pass(ring, payloads, n - 1);
        let before = ring.pushed_all(payloads, n - 1);
        let after = ring.pushed_all(payloads, n);
        assert(after == before.pushed(payloads[n - 1]));
        assert forall|i: int| 0 <= i < n implies after.slots[i] == stamped(
            #[trigger] payloads[i],
            ring.cycle,
        ) by {
            if i < n - 1 {
                assert(before.slots[i] == stamped(payloads[i], ring.cycle));
            }
        }
    }
}

/// One slot of an event ring, as the controller writes it.
#[derive(Clone, Copy, Debug, PartialEq, Eq)]
pub struct EventTrb {
    pub parameter: u64,
    pub status: u32,
    pub control: u32,
}

/// An event the driver decodes, with the TRB that carried it.
#[derive(Clone, Copy, Debug, PartialEq, Eq)]
pub enum EventTrbPayload {
    TransferEvent(EventTrb),
    PortStatusChange(EventTrb),
    CommandCompletion(EventTrb),
}

/// Why an event TRB was not decoded.
#[derive(Clone, Copy, Debug, PartialEq, Eq)]
pub enum EventError {
    /// The tag numbers no TRB type.
    Unrecognized(u32),
    /// The tag numbers a TRB type that the driver does not handle.
    Unexpected(u32),
}

/// What `trb` decodes to, by its type tag.
pub open spec fn decoded(trb: EventTrb) -> Result<EventTrbPayload, EventError> {
    let tag = type_tag(trb.control);
    if tag == TRANSFER_EVENT {
        Ok(EventTrbPayload::TransferEvent(trb))
    } else if tag == COMMAND_COMPLETION {
        Ok(EventTrbPayload::CommandCompletion(trb))
    } else if tag == PORT_STATUS_CHANGE {
        Ok(EventTrbPayload::PortStatusChange(trb))
    } else if is_trb_type(tag) {
        Err(EventError::Unexpected(tag))
    } else {
        Err(EventError::Unrecognized(tag))
    }
}

impl EventTrb {
    /// The cycle bit the controller wrote: the lowest bit of the control word.
    pub open spec fn spec_cycle_bit(self) -> bool {
        self.control & 1 != 0
    }

    /// A slot nobody has written yet.
    pub open spec fn zero() -> EventTrb {
        EventTrb { parameter: 0, status: 0, control: 0 }
    }

    /// The cycle bit the controller wrote.
    pub fn cycle_bit(&self) -> (r: bool)
        ensures
            r == self.spec_cycle_bit(),
    {
        (self.control & 1) != 0
    }

    /// The TRB type that the tag in bits 10 to 15 of the control word numbers,
    /// or nothing where it numbers none.
    pub fn ty(&self) -> (r: Option<u32>)
        ensures
            r == (if is_trb_type(type_tag(self.control)) {
                Some(type_tag(self.control))
            } else {
                None
            }),
    {
        known_type((self.control >> 10) & 0x3f)
    }

    /// Decodes the event by its type tag.
    pub fn payload(&self) -> (r: Result<EventTrbPayload, EventError>)
        ensures
            r == decoded(*self),
    {
        let tag: u32 = (self.control >> 10) & 0x3f;
        match self.ty() {
            Some(kind) => {
                if kind == TRANSFER_EVENT {
                    Ok(EventTrbPayload::TransferEvent(*self))
                } else if kind == COMMAND_COMPLETION {
                    Ok(EventTrbPayload::CommandCompletion(*self))
                } else if kind == PORT_STATUS_CHANGE {
                    Ok(EventTrbPayload::PortStatusChange(*self))
                } else {
                    Err(EventError::Unexpected(kind))
                }
            },
            None => Err(EventError::Unrecognized(tag)),
        }
    }
}

/// One entry of an event ring's segment table.
#[derive(Clone, Copy, Debug, PartialEq, Eq)]
pub struct SegmentTableEntry {
    pub base: u64,
    pub size: u16,
}

/// What an event ring is, seen from outside.
pub struct EventRingView {
    pub slots: Seq<EventTrb>,
    pub base: u64,
    pub cycle: bool,
    pub table: Seq<SegmentTableEntry>,
    pub table_base: u64,
}

impl EventRingView {
    /// The slot that `pointer` is the address of, if it is one of the ring's.
    pub open spec fn slot_of(self, pointer: u64) -> Option<int> {
        if self.base <= pointer < self.base + 16 * self.slots.len() && (pointer - self.base) % 16
            == 0 {
            Some((pointer - self.base) / 16)
        } else {
            None
        }
    }

    /// Whether the slot at `pointer` holds an event the driver has not seen:
    /// its cycle bit is the one the ring expects.
    pub open spec fn has_front(self, pointer: u64) -> bool {
        match self.slot_of(pointer) {
            Some(i) => self.slots[i].spec_cycle_bit() == self.cycle,
            None => false,
        }
    }

    /// Whether `pointer` is the address of the segment's last slot.
    pub open spec fn at_last_slot(self, pointer: u64) -> bool {
        pointer + 16 == self.base + 16 * self.slots.len()
    }

    /// The dequeue pointer after the slot at `pointer` was consumed: the next
    /// slot, or the segment's base after the last one.
    pub open spec fn next_pointer(self, pointer: u64) -> int {
        if self.at_last_slot(pointer) {
            self.base as int
        } else {
            pointer + 16
        }
    }

    /// The ring after the slot at `pointer` was consumed: the expected cycle
    /// bit flips when the segment's end was reached.
    pub open spec fn popped(self, pointer: u64) -> EventRingView {
        EventRingView {
            cycle: if self.at_last_slot(pointer) {
                !self.cycle
            } else {
                self.cycle
            },
            ..self
        }
    }

    /// The ring after `trb` was stored at `pointer`.
    pub open spec fn stored(self, pointer: u64, trb: EventTrb) -> EventRingView {
        match self.slot_of(pointer) {
            Some(i) => EventRingView { slots: self.slots.update(i, trb), ..self },
            None => self,
        }
    }

    /// A ring as it is built: every slot zero, the expected cycle bit set.
    pub open spec fn fresh(self) -> bool {
        &&& self.cycle
        &&& forall|i: int| 0 <= i < self.slots.len() ==> #[trigger] self.slots[i] == EventTrb::zero()
    }
}

/// The demand for a segment of `size` slots.
pub open spec fn segment_demand(size: int) -> Demand {
    Demand { length: (size * 16) as usize, alignment: RING_ALIGNMENT, boundary: RING_BOUNDARY }
}

/// The demand for a segment table of one entry.
pub open spec fn table_demand() -> Demand {
    Demand { length: 16, alignment: RING_ALIGNMENT, boundary: RING_BOUNDARY }
}

/// Whether an event ring of `size` slots can be built with the pool's cursor
/// at `cursor`: the size fits a table entry, and the pool serves the segment
/// and then the table.
pub open spec fn event_ring_served(cursor: int, end: int, size: int) -> bool {
    &&& size <= u16::MAX
    &&& segment_demand(size).fits(cursor, end)
    &&& table_demand().fits(segment_demand(size).cursor_after(cursor, end), end)
}

/// The pool's cursor after an event ring of `size` slots was asked for.
pub open spec fn event_ring_cursor(cursor: int, end: int, size: int) -> int {
    if size > u16::MAX {
        cursor
    } else if !segment_demand(size).fits(cursor, end) {
        segment_demand(size).cursor_after(cursor, end)
    } else {
        table_demand().cursor_after(segment_demand(size).cursor_after(cursor, end), end)
    }
}

/// A consumer ring of one segment: the controller writes, the driver reads.
#[derive(Debug)]
pub struct EventRing {
    buffer: Vec<EventTrb>,
    base: u64,
    cycle_bit: bool,
    segment_table: Vec<SegmentTableEntry>,
    table_base: u64,
}

impl View for EventRing {
    type V = EventRingView;

    closed spec fn view(&self) -> EventRingView {
        EventRingView {
            slots: self.buffer@,
            base: self.base,
            cycle: self.cycle_bit,
            table: self.segment_table@,
            table_base: self.table_base,
        }
    }
}

impl EventRing {
    /// The segment and its table lie in the address space on 64-byte
    /// multiples, and the table's one entry describes the segment.
    pub open spec fn wf(&self) -> bool {
        &&& self@.base % 64 == 0
        &&& self@.table_base % 64 == 0
        &&& self@.base + 16 * self@.slots.len() <= u64::MAX
        &&& self@.slots.len() <= u16::MAX
        &&& self@.table == seq![
            SegmentTableEntry { base: self@.base, size: self@.slots.len() as u16 },
        ]
    }

    /// Takes a segment of `size` slots and a segment table of one entry from
    /// `pool`, each on a 64-byte multiple and within one 64 KiB window, fills
    /// the slots with zeros and records the segment in the table. The ring
    /// expects the cycle bit set. Nothing is built where `size` exceeds what a
    /// table entry can record, or where the pool cannot serve both.
    pub fn new(size: usize, pool: &mut Pool) -> (r: Option<EventRing>)
        requires
            old(pool).wf(),
        ensures
            final(pool).wf(),
            final(pool).spec_base() == old(pool).spec_base(),
            final(pool).spec_end() == old(pool).spec_end(),
            r.is_some() == event_ring_served(
                old(pool).spec_cursor(),
                old(pool).spec_end(),
                size as int,
            ),
            final(pool).spec_cursor() == event_ring_cursor(
                old(pool).spec_cursor(),
                old(pool).spec_end(),
                size as int,
            ),
            r.is_some() ==> r.unwrap()@.base == segment_demand(size as int).start(
                old(pool).spec_cursor(),
            ) && r.unwrap()@.table_base == table_demand().start(
                segment_demand(size as int).cursor_after(
                    old(pool).spec_cursor(),
                    old(pool).spec_end(),
                ),
            ),
            r.is_some() ==> ({
                let ring = r.unwrap();
                &&& ring.wf()
                &&& ring@.slots.len() == size
                &&& ring@.fresh()
            }),
    {
        if size > 65535 {
            return None;
        }
        let ghost cursor = pool.spec_cursor();
        let base: usize = match pool.allocate_slice(size, TRB_BYTES, RING_ALIGNMENT, RING_BOUNDARY) {
            Some(start) => start,
            None => {
                return None;
            },
        };
        let ghost middle = pool.spec_cursor();
        let table_base: usize = match pool.allocate_slice(1, TRB_BYTES, RING_ALIGNMENT, RING_BOUNDARY) {
            Some(start) => start,
            None => {
                return None;
            },
        };
        proof {
            lemma_start_is_aligned(cursor, size * 16, 64, 65536);
            lemma_start_is_aligned(middle, 16, 64, 65536);
        }
        let mut buffer: Vec<EventTrb> = Vec::new();
        let mut i: usize = 0;
        while i < size
            invariant
                i <= size,
                buffer@.len() == i,
                forall|k: int| 0 <= k < i ==> #[trigger] buffer@[k] == EventTrb::zero(),
            decreases size - i,
        {
            buffer.push(EventTrb { parameter: 0, status: 0, control: 0 });
            i += 1;
        }
        let mut segment_table: Vec<SegmentTableEntry> = Vec::new();
        segment_table.push(SegmentTableEntry { base: base as u64, size: size as u16 });
        let ring = EventRing {
            buffer,
            base: base as u64,
            cycle_bit: true,
            segment_table,
            table_base: table_base as u64,
        };
        assert(ring@.table =~= seq![
            SegmentTableEntry { base: ring@.base, size: ring@.slots.len() as u16 },
        ]);
        Some(ring)
    }

    /// Address of the segment's first slot: the first dequeue pointer.
    pub fn base(&self) -> (r: u64)
        ensures
            r == self@.base,
    {
        self.base
    }

    /// Address of the segment table.
    pub fn segment_table_address(&self) -> (r: u64)
        ensures
            r == self@.table_base,
    {
        self.table_base
    }

    /// Number of entries in the segment table.
    pub fn segment_count(&self) -> (r: u16)
        requires
            self.wf(),
        ensures
            r == self@.table.len(),
            r == 1,
    {
        self.segment_table.len() as u16
    }

    /// The entry of the segment table for the one segment.
    pub fn segment(&self) -> (r: SegmentTableEntry)
        requires
            self.wf(),
        ensures
            r == self@.table[0],
            r.base == self@.base,
            r.size == self@.slots.len(),
    {
        self.segment_table[0]
    }

    /// The cycle bit the next fresh event carries.
    pub fn cycle_bit(&self) -> (r: bool)
        ensures
            r == self@.cycle,
    {
        self.cycle_bit
    }

    /// The request that reads the dequeue pointer from the controller.
    pub fn read_dequeue_pointer(&self) -> (r: Request)
        ensures
            r == Request::ReadDequeuePointer,
    {
        Request::ReadDequeuePointer
    }

    /// The request that writes `pointer` back to the controller as the
    /// dequeue pointer.
    pub fn write_dequeue_pointer(&self, pointer: u64) -> (r: Request)
        ensures
            r == Request::SetDequeuePointer(pointer),
    {
        Request::SetDequeuePointer(pointer)
    }

    /// Index of the slot at `pointer`, or nothing where `pointer` is not the
    /// address of one of the ring's slots.
    pub fn slot_index(&self, pointer: u64) -> (r: Option<usize>)
        requires
            self.wf(),
        ensures
            match self@.slot_of(pointer) {
                Some(i) => r == Some(i as usize) && 0 <= i < self@.slots.len(),
                None => r.is_none(),
            },
    {
        if pointer < self.base {
            return None;
        }
        let offset: u64 = pointer - self.base;
        let len: usize = self.buffer.len();
        if offset % 16 != 0 || offset / 16 >= len as u64 {
            return None;
        }
        Some((offset / 16) as usize)
    }

    /// Records in the ring's image of the segment what the controller wrote
    /// at `pointer`. Returns whether `pointer` is the address of a slot; where
    /// it is not, the ring stays as it was.
    pub fn write_at(&mut self, pointer: u64, trb: EventTrb) -> (r: bool)
        requires
            old(self).wf(),
        ensures
            final(self).wf(),
            r == old(self)@.slot_of(pointer).is_some(),
            final(self)@ == old(self)@.stored(pointer, trb),
    {
        match self.slot_index(pointer) {
            Some(i) => {
                self.buffer.set(i, trb);
                assert(self@.slots =~= old(self)@.stored(pointer, trb).slots);
                true
            },
            None => false,
        }
    }

    /// The event in the slot at the dequeue pointer, or nothing where the
    /// pointer is not the address of a slot.
    pub fn front(&self, dequeue: u64) -> (r: Option<EventTrb>)
        requires
            self.wf(),
        ensures
            match self@.slot_of(dequeue) {
                Some(i) => r == Some(self@.slots[i]),
                None => r.is_none(),
            },
    {
        match self.slot_index(dequeue) {
            Some(i) => Some(self.buffer[i]),
            None => None,
        }
    }

    /// Whether an event is pending at the dequeue pointer.
    pub fn has_front(&self, dequeue: u64) -> (r: bool)
        requires
            self.wf(),
        ensures
            r == self@.has_front(dequeue),
    {
        match self.front(dequeue) {
            Some(trb) => trb.cycle_bit() == self.cycle_bit,
            None => false,
        }
    }

    /// Consumes the slot at the dequeue pointer and returns the pointer to
    /// write back to the controller.
    pub fn pop(&mut self, dequeue: u64) -> (r: u64)
        requires
            old(self).wf(),
            old(self)@.slot_of(dequeue).is_some(),
        ensures
            final(self).wf(),
            r == old(self)@.next_pointer(dequeue),
            final(self)@ == old(self)@.popped(dequeue),
            final(self)@.slot_of(r).is_some(),
    {
        let len: usize = self.buffer.len();
        let mut next: u64 = dequeue + 16;
        if next == self.base + 16 * (len as u64) {
            next = self.base;
            self.cycle_bit = !self.cycle_bit;
        }
        next
    }

    /// Handles the event pending at the dequeue pointer, if there is one:
    /// decodes it, consumes its slot and returns what it decoded to together
    /// with the dequeue pointer to write back. An event that cannot be decoded
    /// is consumed as well. Without a pending event the ring stays as it was.
    pub fn process_event(&mut self, dequeue: u64) -> (r: Option<
        (Result<EventTrbPayload, EventError>, u64),
    >)
        requires
            old(self).wf(),
        ensures
            final(self).wf(),
            !old(self)@.has_front(dequeue) ==> r.is_none() && final(self)@ == old(self)@,
            old(self)@.has_front(dequeue) ==> ({
                let i = old(self)@.slot_of(dequeue).unwrap();
                &&& r == Some(
                    (decoded(old(self)@.slots[i]), old(self)@.next_pointer(dequeue) as u64),
                )
                &&& final(self)@ == old(self)@.popped(dequeue)
            }),
    {
        if !self.has_front(dequeue) {
            return None;
        }
        let event = match self.front(dequeue) {
            Some(trb) => trb.payload(),
            None => {
                return None;
            },
        };
        let next = self.pop(dequeue);
        Some((event, next))
    }
}

/// A ring as it is built reports no pending event, whatever the pointer.
pub proof fn lemma_fresh_ring_has_no_event(ring: EventRingView, pointer: u64)
    requires
        ring.fresh(),
    ensures
        !ring.has_front(pointer),
{
    assert(0u32 & 1 == 0) by (bit_vector);
}

/// Once a TRB with the expected cycle bit stands in the slot at the dequeue
/// pointer, an event is pending there.
pub proof fn lemma_stored_event_is_pending(ring: EventRingView, pointer: u64, trb: EventTrb)
    requires
        ring.slot_of(pointer).is_some(),
        trb.spec_cycle_bit() == ring.cycle,
    ensures
        ring.stored(pointer, trb).has_front(pointer),
{
}

/// Consuming the last slot of the segment returns the dequeue pointer to the
/// segment's base and flips the expected cycle bit; consuming any other slot
/// moves the pointer one slot on and leaves the bit alone.
pub proof fn lemma_pop_wraps_at_segment_end(ring: EventRingView, pointer: u64)
    requires
        ring.slot_of(pointer).is_some(),
    ensures
        ring.slot_of(pointer) == Some(ring.slots.len() - 1) ==> ring.next_pointer(pointer)
            == ring.base && ring.popped(pointer).cycle == !ring.cycle,
        ring.slot_of(pointer) != Some(ring.slots.len() - 1) ==> ring.next_pointer(pointer)
            == pointer + 16 && ring.popped(pointer).cycle == ring.cycle,
        ring.popped(pointer).slots == ring.slots,
{
}

} // verus!
