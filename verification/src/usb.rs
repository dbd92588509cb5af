//! Bring-up of an xHCI host controller, as a machine that asks for register
//! accesses and is told their results.
//!
//! The driver never reads or writes a register itself. Each operation of the
//! [`Controller`] or of a [`Port`] returns a [`Step`]: a [`Request`] for the
//! caller to carry out on the hardware, or the end of the operation. The
//! caller answers a request with a [`Reply`] through `advance`. Every wait
//! for the hardware is a poll with a fixed budget of reads.

use crate::memory::{cursor_after_all, lemma_start_is_aligned, Demand, Pool};
use crate::ring::{
    event_ring_cursor, event_ring_served, segment_demand, table_demand, EventRing, Ring,
    RING_ALIGNMENT, RING_BOUNDARY,
};
use vstd::prelude::*;

verus! {

/// Slots of the event ring that [`Controller::ring`] builds.
pub const EVENT_RING_SIZE: usize = 32;

/// Bytes in one pointer of a hardware pointer array.
pub const POINTER_BYTES: usize = 8;

/// Bytes in one page, which is also the alignment and the boundary of a
/// scratchpad buffer and the boundary of the pointer arrays.
pub const PAGE_BYTES: usize = 4096;

/// Alignment of the pointer arrays.
pub const ARRAY_ALIGNMENT: usize = 64;

/// How far the configuration of a port has come.
#[derive(Clone, Copy, Debug, PartialEq, Eq)]
pub enum ConfigPhase {
    NotConnected,
    WaitingAddressed,
    ResettingPort,
    EnablingSlot,
    AddressingDevice,
    InitializingDevice,
    ConfiguringEndpoints,
    Configured,
}

/// What the driver reads of a port's status and control register.
#[derive(Clone, Copy, Debug, PartialEq, Eq)]
pub struct PortStatus {
    /// Current connect status.
    pub connected: bool,
    /// Port reset: set while the port is being reset.
    pub reset: bool,
}

/// One access to the hardware that the driver asks its caller to perform.
#[derive(Clone, Copy, Debug, PartialEq, Eq)]
pub enum Request {
    /// Look for the legacy support capability and read its OS-owned
    /// semaphore. Answered by `Flag`, or by `Absent` without the capability.
    ReadOsOwned,
    /// Set the OS-owned semaphore.
    SetOsOwned,
    /// Read the halted bit of the status register.
    ReadHalted,
    /// Clear the interrupter, host-system-error and wrap-event enables of the
    /// command register, and run/stop too if `stop` is set.
    Quiesce { stop: bool },
    /// Set the host-controller-reset bit of the command register.
    SetHostControllerReset,
    /// Read the host-controller-reset bit of the command register.
    ReadHostControllerReset,
    /// Read the controller-not-ready bit of the status register.
    ReadNotReady,
    /// Read the number of device slots. Answered by `Value`.
    ReadMaxSlots,
    /// Read the number of scratchpad buffers. Answered by `Value`.
    ReadMaxScratchpadBuffers,
    /// Write the address of the device context pointer array.
    SetDeviceContextBase(u64),
    /// Set the run/stop bit of the command register.
    SetRunStop,
    /// Write the number of event ring segments of interrupter 0.
    SetSegmentTableSize(u16),
    /// Read the event ring dequeue pointer of interrupter 0. Answered by
    /// `Value`.
    ReadDequeuePointer,
    /// Write the event ring dequeue pointer of interrupter 0.
    SetDequeuePointer(u64),
    /// Write the address of the event ring segment table of interrupter 0.
    SetSegmentTableBase(u64),
    /// Clear interrupt-pending and set interrupt-enable of interrupter 0.
    ArmInterrupter,
    /// Set the interrupter-enable bit of the command register.
    SetInterrupterEnable,
    /// Set the ring cycle state and write the address of the command ring.
    SetCommandRing(u64),
    /// Set port-reset and clear connect-status-change of a port.
    ResetPort(usize),
    /// Read the status of a port. Answered by `Port`.
    ReadPortStatus(usize),
}

/// The result of a [`Request`].
#[derive(Clone, Copy, Debug, PartialEq, Eq)]
pub enum Reply {
    /// A write was carried out.
    Done,
    /// What was to be read does not exist on this controller.
    Absent,
    /// The bit that was read.
    Flag(bool),
    /// The number that was read.
    Value(u64),
    /// The port status that was read.
    Port(PortStatus),
}

/// Why an operation was given up.
#[derive(Clone, Copy, Debug, PartialEq, Eq)]
pub enum Fault {
    /// The hardware did not reach the awaited state within the poll budget.
    Timeout,
    /// The pool could not serve a structure.
    OutOfMemory,
    /// The reply does not answer the pending request, or none was pending.
    UnexpectedReply,
    /// An operation was started while another was still under way.
    Busy,
    /// The controller was initialized before.
    AlreadyInitialized,
}

/// What the caller does next.
#[derive(Clone, Copy, Debug, PartialEq, Eq)]
pub enum Step {
    /// Perform the request and hand its reply to `advance`.
    Ask(Request),
    /// The operation is complete.
    Done,
    /// The operation was given up.
    Failed(Fault),
}

/// What a port is waiting for.
#[derive(Clone, Copy, Debug, PartialEq, Eq)]
pub enum PortWait {
    /// Nothing.
    Idle,
    /// The reset to be written.
    ResetWritten,
    /// The hardware to report the reset as over.
    ResetCleared,
}

/// A port, seen from outside.
pub struct PortView {
    pub number: usize,
    pub phase: ConfigPhase,
    pub wait: PortWait,
    pub polls_left: u32,
}

impl PortView {
    /// The port with nothing pending.
    pub open spec fn idle(self) -> PortView {
        PortView { wait: PortWait::Idle, ..self }
    }

    /// Start of a reset: the reset is to be written. A port that is in the
    /// middle of a reset refuses another.
    pub open spec fn reset(self, poll_limit: u32) -> (PortView, Step) {
        if self.wait != PortWait::Idle {
            (self, Step::Failed(Fault::Busy))
        } else {
            (
                PortView { wait: PortWait::ResetWritten, polls_left: poll_limit, ..self },
                Step::Ask(Request::ResetPort(self.number)),
            )
        }
    }

    /// Start of the configuration: a port that is not connected is reset,
    /// any other is left alone.
    pub open spec fn configure(self, poll_limit: u32) -> (PortView, Step) {
        if self.phase == ConfigPhase::NotConnected {
            self.reset(poll_limit)
        } else {
            (self, Step::Done)
        }
    }

    /// The port and the next step after `reply`. The phase becomes
    /// `ResettingPort` when the hardware reports the reset as over.
    pub open spec fn advanced(self, reply: Reply) -> (PortView, Step) {
        match (self.wait, reply) {
            (PortWait::ResetWritten, Reply::Done) => (
                PortView { wait: PortWait::ResetCleared, ..self },
                Step::Ask(Request::ReadPortStatus(self.number)),
            ),
            (PortWait::ResetCleared, Reply::Port(status)) => if !status.reset {
                (PortView { phase: ConfigPhase::ResettingPort, ..self.idle() }, Step::Done)
            } else if self.polls_left == 0 {
                (self.idle(), Step::Failed(Fault::Timeout))
            } else {
                (
                    PortView { polls_left: (self.polls_left - 1) as u32, ..self },
                    Step::Ask(Request::ReadPortStatus(self.number)),
                )
            },
            _ => (self.idle(), Step::Failed(Fault::UnexpectedReply)),
        }
    }
}

/// One port of the controller.
#[derive(Debug)]
pub struct Port {
    number: usize,
    config_phase: ConfigPhase,
    wait: PortWait,
    polls_left: u32,
}

impl View for Port {
    type V = PortView;

    closed spec fn view(&self) -> PortView {
        PortView {
            number: self.number,
            phase: self.config_phase,
            wait: self.wait,
            polls_left: self.polls_left,
        }
    }
}

impl Port {
    /// A port that is not connected and waits for nothing.
    pub fn new(number: usize) -> (port: Port)
        ensures
            port@ == (PortView {
                number,
                phase: ConfigPhase::NotConnected,
                wait: PortWait::Idle,
                polls_left: 0,
            }),
    {
        Port { number, config_phase: ConfigPhase::NotConnected, wait: PortWait::Idle, polls_left: 0 }
    }

    /// The port's index among the controller's ports.
    pub fn number(&self) -> (r: usize)
        ensures
            r == self@.number,
    {
        self.number
    }

    /// How far the configuration has come.
    pub fn phase(&self) -> (r: ConfigPhase)
        ensures
            r == self@.phase,
    {
        self.config_phase
    }

    /// The request that reads this port's status.
    pub fn status_request(&self) -> (r: Request)
        ensures
            r == Request::ReadPortStatus(self@.number),
    {
        Request::ReadPortStatus(self.number)
    }

    /// Whether a device is connected, by the status just read. The port keeps
    /// nothing of an earlier status.
    pub fn is_connected(&self, status: PortStatus) -> (r: bool)
        ensures
            r == status.connected,
    {
        status.connected
    }

    /// Starts the configuration: resets the port if it is not connected yet.
    pub fn configure(&mut self, poll_limit: u32) -> (r: Step)
        ensures
            (final(self)@, r) == old(self)@.configure(poll_limit),
    {
        match self.config_phase {
            ConfigPhase::NotConnected => self.reset(poll_limit),
            _ => Step::Done,
        }
    }

    /// Starts a reset of the port. The reset is over when `advance` returns
    /// `Done`, which it does only on a status that reports no reset.
    pub fn reset(&mut self, poll_limit: u32) -> (r: Step)
        ensures
            (final(self)@, r) == old(self)@.reset(poll_limit),
    {
        match self.wait {
            PortWait::Idle => {
                self.wait = PortWait::ResetWritten;
                self.polls_left = poll_limit;
                Step::Ask(Request::ResetPort(self.number))
            },
            _ => Step::Failed(Fault::Busy),
        }
    }

    /// Takes the reply to the pending request and says what to do next.
    pub fn advance(&mut self, reply: Reply) -> (r: Step)
        ensures
            (final(self)@, r) == old(self)@.advanced(reply),
    {
        match (self.wait, reply) {
            (PortWait::ResetWritten, Reply::Done) => {
                self.wait = PortWait::ResetCleared;
                Step::Ask(Request::ReadPortStatus(self.number))
            },
            (PortWait::ResetCleared, Reply::Port(status)) => {
                if !status.reset {
                    self.config_phase = ConfigPhase::ResettingPort;
                    self.wait = PortWait::Idle;
                    Step::Done
                } else if self.polls_left == 0 {
                    self.wait = PortWait::Idle;
                    Step::Failed(Fault::Timeout)
                } else {
                    self.polls_left = self.polls_left - 1;
                    Step::Ask(Request::ReadPortStatus(self.number))
                }
            },
            _ => {
                self.wait = PortWait::Idle;
                Step::Failed(Fault::UnexpectedReply)
            },
        }
    }
}

/// A reset ends well only on a status that reports the reset as over; until
/// then the port asks for its status again or gives up. The phase becomes
/// `ResettingPort` at that moment and not before, and no other reply changes
/// it.
pub proof fn lemma_reset_waits_for_hardware(port: PortView, poll_limit: u32, reply: Reply)
    ensures
        port.wait == PortWait::Idle ==> port.reset(poll_limit).1 == Step::Ask(
            Request::ResetPort(port.number),
        ) && port.reset(poll_limit).0.phase == port.phase && port.reset(poll_limit).0.advanced(
            reply,
        ).1 != Step::Done,
        port.advanced(reply).1 == Step::Done <==> port.wait == PortWait::ResetCleared && reply
            == Reply::Port(PortStatus { connected: reply->Port_0.connected, reset: false }),
        port.advanced(reply).1 == Step::Done ==> port.advanced(reply).0.phase
            == ConfigPhase::ResettingPort,
        port.advanced(reply).1 != Step::Done ==> port.advanced(reply).0.phase == port.phase,
{
}

/// The ports of a controller, one after the other.
#[derive(Clone, Copy, Debug)]
pub struct PortIter {
    len: usize,
    cursor: usize,
}

impl PortIter {
    /// Number of ports that are still to come.
    pub closed spec fn remaining(&self) -> int {
        self.len - self.cursor
    }

    /// Number of the port that comes next.
    pub closed spec fn position(&self) -> int {
        self.cursor as int
    }

    /// The next port, not connected, or nothing after the last one.
    pub fn next(&mut self) -> (r: Option<Port>)
        ensures
            old(self).remaining() > 0 ==> r.is_some() && r.unwrap()@ == (PortView {
                number: old(self).position() as usize,
                phase: ConfigPhase::NotConnected,
                wait: PortWait::Idle,
                polls_left: 0,
            }) && final(self).remaining() == old(self).remaining() - 1 && final(self).position()
                == old(self).position() + 1,
            old(self).remaining() <= 0 ==> r.is_none() && *final(self) == *old(self),
    {
        if self.cursor < self.len {
            let port = Port::new(self.cursor);
            self.cursor += 1;
            Some(port)
        } else {
            None
        }
    }
}

/// The demand for a zeroed array of `count` pointers.
pub open spec fn pointer_array(count: int) -> Demand {
    Demand {
        length: (count * 8) as usize,
        alignment: ARRAY_ALIGNMENT,
        boundary: PAGE_BYTES,
    }
}

/// The demand for one scratchpad buffer: a page on a page boundary.
pub open spec fn scratchpad_page() -> Demand {
    Demand { length: PAGE_BYTES, alignment: PAGE_BYTES, boundary: PAGE_BYTES }
}

/// The demands for `count` scratchpad buffers: first the array of their
/// addresses, then one page for each.
pub open spec fn scratchpad_demands(count: int) -> Seq<Demand> {
    Seq::new(
        (count + 1) as nat,
        |k: int|
            if k == 0 {
                pointer_array(count)
            } else {
                scratchpad_page()
            },
    )
}

/// Whether the first `n` of `demands` are all served, one after the other.
#[verifier::opaque]
pub open spec fn served(cursor: int, end: int, demands: Seq<Demand>, n: int) -> bool {
    forall|k: int|
        0 <= k < n ==> (#[trigger] demands[k]).fits(cursor_after_all(cursor, end, demands, k), end)
}

/// Nothing has to be served for no demand.
pub proof fn lemma_served_none(cursor: int, end: int, demands: Seq<Demand>)
    ensures
        served(cursor, end, demands, 0),
{
    reveal(served);
}

/// One more demand is served when it fits where the ones before left the cursor.
pub proof fn lemma_served_next(cursor: int, end: int, demands: Seq<Demand>, n: int)
    requires
        0 <= n,
        served(cursor, end, demands, n),
        demands[n].fits(cursor_after_all(cursor, end, demands, n), end),
    ensures
        served(cursor, end, demands, n + 1),
{
    reveal(served);
}

/// A demand that does not fit is not served.
pub proof fn lemma_served_stops(cursor: int, end: int, demands: Seq<Demand>, n: int, m: int)
    requires
        0 <= n < m,
        !demands[n].fits(cursor_after_all(cursor, end, demands, n), end),
    ensures
        !served(cursor, end, demands, m),
{
    reveal(served);
}

/// Where page `k` of `count` scratchpad buffers starts.
pub open spec fn scratchpad_page_start(cursor: int, end: int, count: int, k: int) -> int {
    scratchpad_page().start(cursor_after_all(cursor, end, scratchpad_demands(count), k + 1))
}

/// The device context pointer array: one zeroed pointer for each device slot
/// and one for slot 0, which is reserved.
#[derive(Debug)]
pub struct DeviceManager {
    max_slots: usize,
    base: usize,
    device_context_pointers: Vec<u64>,
}

impl DeviceManager {
    /// Number of device slots.
    pub closed spec fn spec_max_slots(&self) -> int {
        self.max_slots as int
    }

    /// Address of the pointer array.
    pub closed spec fn spec_base(&self) -> int {
        self.base as int
    }

    /// The pointers in the array.
    pub closed spec fn pointers(&self) -> Seq<u64> {
        self.device_context_pointers@
    }

    /// Takes the array for `max_slots` device slots from `pool`, on a 64-byte
    /// multiple and within one page window. Nothing is built where the pool
    /// cannot serve it.
    pub fn new(max_slots: usize, pool: &mut Pool) -> (r: Option<DeviceManager>)
        requires
            old(pool).wf(),
        ensures
            final(pool).wf(),
            final(pool).spec_base() == old(pool).spec_base(),
            final(pool).spec_end() == old(pool).spec_end(),
            (max_slots + 1) * 8 > usize::MAX ==> r.is_none() && final(pool).spec_cursor() == old(
                pool,
            ).spec_cursor(),
            (max_slots + 1) * 8 <= usize::MAX ==> ({
                let d = pointer_array(max_slots + 1);
                let cursor = old(pool).spec_cursor();
                let end = old(pool).spec_end();
                &&& r.is_some() == d.fits(cursor, end)
                &&& final(pool).spec_cursor() == d.cursor_after(cursor, end)
                &&& r.is_some() ==> r.unwrap().spec_base() == d.start(cursor)
            }),
            r.is_some() ==> ({
                let manager = r.unwrap();
                &&& manager.spec_max_slots() == max_slots
                &&& manager.spec_base() % 64 == 0
                &&& manager.pointers() == Seq::new((max_slots + 1) as nat, |i: int| 0u64)
            }),
    {
        if max_slots == usize::MAX {
            return None;
        }
        let count: usize = max_slots + 1;
        let ghost cursor = pool.spec_cursor();
        let base: usize = match pool.allocate_slice(count, POINTER_BYTES, ARRAY_ALIGNMENT, PAGE_BYTES) {
            Some(start) => start,
            None => {
                return None;
            },
        };
        proof {
            lemma_start_is_aligned(cursor, count * 8, 64, 4096);
        }
        let mut device_context_pointers: Vec<u64> = Vec::new();
        let mut i: usize = 0;
        while i < count
            invariant
                i <= count,
                device_context_pointers@.len() == i,
                forall|k: int| 0 <= k < i ==> #[trigger] device_context_pointers@[k] == 0,
            decreases count - i,
        {
            device_context_pointers.push(0);
            i += 1;
        }
        assert(device_context_pointers@ =~= Seq::new((max_slots + 1) as nat, |i: int| 0u64));
        Some(DeviceManager { max_slots, base, device_context_pointers })
    }

    /// Number of device slots.
    pub fn max_slots(&self) -> (r: usize)
        ensures
            r == self.spec_max_slots(),
    {
        self.max_slots
    }

    /// Address of the pointer array.
    pub fn base(&self) -> (r: usize)
        ensures
            r == self.spec_base(),
    {
        self.base
    }

    /// Number of pointers in the array.
    pub fn len(&self) -> (r: usize)
        ensures
            r == self.pointers().len(),
    {
        self.device_context_pointers.len()
    }

    /// The pointer of `slot`, or nothing where the array has no such slot.
    pub fn pointer(&self, slot: usize) -> (r: Option<u64>)
        ensures
            slot < self.pointers().len() ==> r == Some(self.pointers()[slot as int]),
            slot >= self.pointers().len() ==> r.is_none(),
    {
        if slot < self.device_context_pointers.len() {
            Some(self.device_context_pointers[slot])
        } else {
            None
        }
    }
}

/// The scratchpad buffers of a controller: the address of the array that
/// lists them, and the address of each page.
#[derive(Debug)]
pub struct Scratchpad {
    array: usize,
    pages: Vec<usize>,
}

impl Scratchpad {
    /// Address of the array of page addresses.
    pub closed spec fn spec_array(&self) -> int {
        self.array as int
    }

    /// Addresses of the pages.
    pub closed spec fn spec_pages(&self) -> Seq<usize> {
        self.pages@
    }

    /// Takes the array and then `count` pages from `pool`, and stops at the
    /// first that the pool cannot serve.
    pub fn new(count: usize, pool: &mut Pool) -> (r: Option<Scratchpad>)
        requires
            old(pool).wf(),
        ensures
            final(pool).wf(),
            final(pool).spec_base() == old(pool).spec_base(),
            final(pool).spec_end() == old(pool).spec_end(),
            count * 8 > usize::MAX ==> r.is_none() && final(pool).spec_cursor() == old(
                pool,
            ).spec_cursor(),
            count * 8 <= usize::MAX ==> ({
                let demands = scratchpad_demands(count as int);
                let cursor = old(pool).spec_cursor();
                let end = old(pool).spec_end();
                &&& r.is_some() == served(cursor, end, demands, count + 1)
                &&& r.is_some() ==> final(pool).spec_cursor() == cursor_after_all(
                    cursor,
                    end,
                    demands,
                    count + 1,
                )
                &&& r.is_none() ==> exists|k: int|
                    0 <= k <= count && served(cursor, end, demands, k) && !(#[trigger] demands[k]).fits(
                        cursor_after_all(cursor, end, demands, k),
                        end,
                    ) && final(pool).spec_cursor() == cursor_after_all(cursor, end, demands, k + 1)
                &&& r.is_some() ==> {
                    let pad = r.unwrap();
                    &&& pad.spec_array() == pointer_array(count as int).start(cursor)
                    &&& pad.spec_pages().len() == count
                    &&& forall|k: int|
                        0 <= k < count ==> #[trigger] pad.spec_pages()[k] == scratchpad_page_start(
                            cursor,
                            end,
                            count as int,
                            k,
                        )
                }
            }),
    {
        let ghost cursor = pool.spec_cursor();
        let ghost end = pool.spec_end();
        let ghost demands = scratchpad_demands(count as int);
        if count > usize::MAX / 8 {
            return None;
        }
        proof {
            lemma_served_none(cursor, end, demands);
            assert(cursor_after_all(cursor, end, demands, 0) == cursor);
            assert(demands[0] == pointer_array(count as int));
            assert(cursor_after_all(cursor, end, demands, 1) == demands[0].cursor_after(
                cursor_after_all(cursor, end, demands, 0),
                end,
            ));
        }
        let array: usize = match pool.allocate_slice(count, POINTER_BYTES, ARRAY_ALIGNMENT, PAGE_BYTES) {
            Some(start) => start,
            None => {
                proof {
                    lemma_served_stops(cursor, end, demands, 0, count + 1);
                }
                return None;
            },
        };
        proof {
            lemma_served_next(cursor, end, demands, 0);
        }
        let mut pages: Vec<usize> = Vec::new();
        let mut i: usize = 0;
        while i < count
            invariant
                i <= count,
                pool.wf(),
                pool.spec_base() == old(pool).spec_base(),
                pool.spec_end() == end,
                end == old(pool).spec_end(),
                cursor == old(pool).spec_cursor(),
                count * 8 <= usize::MAX,
                demands == scratchpad_demands(count as int),
                pool.spec_cursor() == cursor_after_all(cursor, end, demands, i + 1),
                served(cursor, end, demands, i + 1),
                pages@.len() == i,
                forall|k: int|
                    0 <= k < i ==> #[trigger] pages@[k] == scratchpad_page_start(
                        cursor,
                        end,
                        count as int,
                        k,
                    ),
            decreases count - i,
        {
            let ghost before = pool.spec_cursor();
            proof {
                assert(demands[i + 1] == scratchpad_page());
                assert(cursor_after_all(cursor, end, demands, i + 2) == demands[i + 1].cursor_after(
                    cursor_after_all(cursor, end, demands, i + 1),
                    end,
                ));
            }
            match pool.allocate(PAGE_BYTES, PAGE_BYTES, PAGE_BYTES) {
                Some(page) => {
                    proof {
                        assert(scratchpad_page().fits(before, end));
                        lemma_served_next(cursor, end, demands, i + 1);
                        assert(page == scratchpad_page_start(cursor, end, count as int, i as int));
                    }
                    pages.push(page);
                },
                None => {
                    proof {
                        lemma_served_stops(cursor, end, demands, i + 1, count + 1);
                    }
                    return None;
                },
            }
            i += 1;
        }
        Some(Scratchpad { array, pages })
    }

    /// Address of the array of page addresses.
    pub fn array(&self) -> (r: usize)
        ensures
            r == self.spec_array(),
    {
        self.array
    }

    /// Number of pages.
    pub fn len(&self) -> (r: usize)
        ensures
            r == self.spec_pages().len(),
    {
        self.pages.len()
    }

    /// Address of page `index`, or nothing where there is no such page.
    pub fn page(&self, index: usize) -> (r: Option<usize>)
        ensures
            index < self.spec_pages().len() ==> r == Some(self.spec_pages()[index as int]),
            index >= self.spec_pages().len() ==> r.is_none(),
    {
        if index < self.pages.len() {
            Some(self.pages[index])
        } else {
            None
        }
    }
}

/// What a controller is waiting for.
#[derive(Clone, Copy, Debug, PartialEq, Eq)]
pub enum State {
    /// Nothing: an operation can be started.
    Idle,
    /// The OS-owned semaphore, read for the first time.
    OwnershipProbe,
    /// The semaphore to be set.
    OwnershipClaim,
    /// The hardware to show the semaphore as set.
    OwnershipWait,
    /// The halted bit, read before the command register is changed.
    ResetProbe,
    /// The enables, and run/stop where needed, to be cleared.
    ResetQuiesce,
    /// The hardware to report the controller as halted.
    ResetWaitHalted,
    /// The reset bit to be set.
    ResetStart,
    /// The hardware to clear the reset bit.
    ResetWaitCleared,
    /// The hardware to report the controller as ready.
    ResetWaitReady,
    /// The number of device slots.
    ReadSlots,
    /// The number of scratchpad buffers.
    ReadScratchpads,
    /// The address of the device context pointer array to be written.
    SetContexts,
    /// Run/stop to be set.
    RunStart,
    /// The hardware to report the controller as running.
    RunWait,
    /// The number of segments to be written.
    RingSize,
    /// The dequeue pointer to be written.
    RingDequeue,
    /// The address of the segment table to be written.
    RingTable,
    /// The interrupter to be armed.
    RingArm,
    /// The interrupter enable to be set.
    RingEnable,
    /// The command ring to be written.
    CommandRing,
}

/// A controller, seen from outside.
pub struct ControllerView {
    pub base: usize,
    pub ports: usize,
    pub poll_limit: u32,
    pub state: State,
    /// Whether the pending operation is part of an initialization.
    pub initializing: bool,
    pub polls_left: u32,
    pub max_slots: u64,
    pub event_base: u64,
    pub event_table: u64,
    /// Whether the device context pointer array was built.
    pub initialized: bool,
}

impl ControllerView {
    /// The operation is given up.
    pub open spec fn failed(self, fault: Fault) -> (ControllerView, Step) {
        (ControllerView { state: State::Idle, initializing: false, ..self }, Step::Failed(fault))
    }

    /// The operation is complete.
    pub open spec fn finished(self) -> (ControllerView, Step) {
        (ControllerView { state: State::Idle, initializing: false, ..self }, Step::Done)
    }

    /// The controller moves on to `state` and asks for `request`.
    pub open spec fn asks(self, state: State, request: Request) -> (ControllerView, Step) {
        (ControllerView { state, ..self }, Step::Ask(request))
    }

    /// The controller starts to wait in `state`, with a full budget of polls.
    pub open spec fn waits(self, state: State, request: Request) -> (ControllerView, Step) {
        (ControllerView { state, polls_left: self.poll_limit, ..self }, Step::Ask(request))
    }

    /// The awaited state was not reached: ask again, or give up when the
    /// budget is spent.
    pub open spec fn polls_again(self, request: Request) -> (ControllerView, Step) {
        if self.polls_left == 0 {
            self.failed(Fault::Timeout)
        } else {
            (
                ControllerView { polls_left: (self.polls_left - 1) as u32, ..self },
                Step::Ask(request),
            )
        }
    }

    /// The controller belongs to the driver, or has no firmware to take it
    /// from: an initialization goes on to the reset.
    pub open spec fn owned(self) -> (ControllerView, Step) {
        if self.initializing {
            self.asks(State::ResetProbe, Request::ReadHalted)
        } else {
            self.finished()
        }
    }

    /// The controller was reset: an initialization goes on to read what the
    /// controller offers.
    pub open spec fn was_reset(self) -> (ControllerView, Step) {
        if self.initializing {
            self.asks(State::ReadSlots, Request::ReadMaxSlots)
        } else {
            self.finished()
        }
    }

    /// Whether `reply` makes the controller take structures from the pool.
    pub open spec fn allocates(self, reply: Reply) -> bool {
        self.state == State::ReadScratchpads && reply is Value
    }

    /// The controller and the next step after `reply`, for every reply that
    /// takes nothing from the pool.
    pub open spec fn advanced(self, reply: Reply) -> (ControllerView, Step) {
        match (self.state, reply) {
            (State::OwnershipProbe, Reply::Absent) => self.owned(),
            (State::OwnershipProbe, Reply::Flag(true)) => self.owned(),
            (State::OwnershipProbe, Reply::Flag(false)) => self.asks(
                State::OwnershipClaim,
                Request::SetOsOwned,
            ),
            (State::OwnershipClaim, Reply::Done) => self.waits(
                State::OwnershipWait,
                Request::ReadOsOwned,
            ),
            (State::OwnershipWait, Reply::Flag(true)) => self.owned(),
            (State::OwnershipWait, Reply::Flag(false)) => self.polls_again(Request::ReadOsOwned),
            (State::ResetProbe, Reply::Flag(halted)) => self.asks(
                State::ResetQuiesce,
                Request::Quiesce { stop: !halted },
            ),
            (State::ResetQuiesce, Reply::Done) => self.waits(
                State::ResetWaitHalted,
                Request::ReadHalted,
            ),
            (State::ResetWaitHalted, Reply::Flag(true)) => self.asks(
                State::ResetStart,
                Request::SetHostControllerReset,
            ),
            (State::ResetWaitHalted, Reply::Flag(false)) => self.polls_again(Request::ReadHalted),
            (State::ResetStart, Reply::Done) => self.waits(
                State::ResetWaitCleared,
                Request::ReadHostControllerReset,
            ),
            (State::ResetWaitCleared, Reply::Flag(false)) => self.waits(
                State::ResetWaitReady,
                Request::ReadNotReady,
            ),
            (State::ResetWaitCleared, Reply::Flag(true)) => self.polls_again(
                Request::ReadHostControllerReset,
            ),
            (State::ResetWaitReady, Reply::Flag(false)) => self.was_reset(),
            (State::ResetWaitReady, Reply::Flag(true)) => self.polls_again(Request::ReadNotReady),
            (State::ReadSlots, Reply::Value(slots)) => (
                ControllerView { state: State::ReadScratchpads, max_slots: slots, ..self },
                Step::Ask(Request::ReadMaxScratchpadBuffers),
            ),
            (State::SetContexts, Reply::Done) => self.finished(),
            (State::RunStart, Reply::Done) => self.waits(State::RunWait, Request::ReadHalted),
            (State::RunWait, Reply::Flag(false)) => self.finished(),
            (State::RunWait, Reply::Flag(true)) => self.polls_again(Request::ReadHalted),
            (State::RingSize, Reply::Done) => self.asks(
                State::RingDequeue,
                Request::SetDequeuePointer(self.event_base),
            ),
            (State::RingDequeue, Reply::Done) => self.asks(
                State::RingTable,
                Request::SetSegmentTableBase(self.event_table),
            ),
            (State::RingTable, Reply::Done) => self.asks(State::RingArm, Request::ArmInterrupter),
            (State::RingArm, Reply::Done) => self.asks(
                State::RingEnable,
                Request::SetInterrupterEnable,
            ),
            (State::RingEnable, Reply::Done) => self.finished(),
            (State::CommandRing, Reply::Done) => self.finished(),
            _ => self.failed(Fault::UnexpectedReply),
        }
    }

    /// An operation that begins with `request` is started: the controller
    /// must be idle.
    pub open spec fn started(self, state: State, request: Request, initializing: bool) -> (
        ControllerView,
        Step,
    ) {
        if self.state != State::Idle {
            (self, Step::Failed(Fault::Busy))
        } else {
            (ControllerView { state, initializing, ..self }, Step::Ask(request))
        }
    }

    /// Start of an initialization: a controller is initialized once.
    pub open spec fn initialize(self) -> (ControllerView, Step) {
        if self.state == State::Idle && self.initialized {
            (self, Step::Failed(Fault::AlreadyInitialized))
        } else {
            self.started(State::OwnershipProbe, Request::ReadOsOwned, true)
        }
    }

    /// Whether the pool serves `count` scratchpad buffers and their array.
    pub open spec fn scratchpad_served(cursor: int, end: int, count: u64) -> bool {
        count == 0 || (count * 8 <= usize::MAX && served(
            cursor,
            end,
            scratchpad_demands(count as int),
            count + 1,
        ))
    }

    /// The pool's cursor after `count` scratchpad buffers were served.
    pub open spec fn scratchpad_cursor(cursor: int, end: int, count: u64) -> int {
        if count == 0 {
            cursor
        } else {
            cursor_after_all(cursor, end, scratchpad_demands(count as int), count + 1)
        }
    }

    /// Whether the pool serves everything that the controller needs for
    /// `count` scratchpad buffers and its device slots.
    pub open spec fn structures_served(self, cursor: int, end: int, count: u64) -> bool {
        &&& Self::scratchpad_served(cursor, end, count)
        &&& (self.max_slots + 1) * 8 <= usize::MAX
        &&& pointer_array(self.max_slots + 1).fits(Self::scratchpad_cursor(cursor, end, count), end)
    }

    /// Where the device context pointer array starts.
    pub open spec fn contexts_start(self, cursor: int, end: int, count: u64) -> int {
        pointer_array(self.max_slots + 1).start(Self::scratchpad_cursor(cursor, end, count))
    }
}

/// The driver's side of one xHCI host controller.
#[derive(Debug)]
pub struct Controller {
    base: usize,
    ports: usize,
    poll_limit: u32,
    state: State,
    initializing: bool,
    polls_left: u32,
    max_slots: u64,
    event_base: u64,
    event_table: u64,
    manager: Option<DeviceManager>,
    scratchpad: Option<Scratchpad>,
}

impl View for Controller {
    type V = ControllerView;

    closed spec fn view(&self) -> ControllerView {
        ControllerView {
            base: self.base,
            ports: self.ports,
            poll_limit: self.poll_limit,
            state: self.state,
            initializing: self.initializing,
            polls_left: self.polls_left,
            max_slots: self.max_slots,
            event_base: self.event_base,
            event_table: self.event_table,
            initialized: self.manager.is_some(),
        }
    }
}

impl Controller {
    /// The device context pointer array, once it was built.
    pub closed spec fn spec_manager(&self) -> Option<DeviceManager> {
        self.manager
    }

    /// The scratchpad buffers, where the controller asked for any.
    pub closed spec fn spec_scratchpad(&self) -> Option<Scratchpad> {
        self.scratchpad
    }

    /// Whether the controller holds the scratchpad buffers that the pool
    /// served for a count of `count`, with the cursor at `cursor` before: the
    /// array first, then each page; for a count of 0 what `before` held.
    pub open spec fn holds_scratchpad(
        &self,
        before: &Controller,
        cursor: int,
        end: int,
        count: u64,
    ) -> bool {
        if count == 0 {
            self.spec_scratchpad() == before.spec_scratchpad()
        } else {
            &&& self.spec_scratchpad().is_some()
            &&& self.spec_scratchpad().unwrap().spec_array() == pointer_array(count as int).start(
                cursor,
            )
            &&& self.spec_scratchpad().unwrap().spec_pages().len() == count
            &&& forall|k: int|
                0 <= k < count ==> #[trigger] self.spec_scratchpad().unwrap().spec_pages()[k]
                    == scratchpad_page_start(cursor, end, count as int, k)
        }
    }

    /// What holds of the controller, the pool's cursor and the step `r` once
    /// the number of scratchpad buffers, `count`, was told to the controller
    /// `before`, with the pool's cursor at `cursor`. Where the pool serves
    /// everything, the controller holds the buffers and a zeroed device
    /// context pointer array and asks for the array's address to be written.
    /// Where it does not, the operation fails: at the first structure that
    /// is not served, with what was served before it kept.
    pub open spec fn built(
        &self,
        before: &Controller,
        cursor: int,
        end: int,
        cursor_after: int,
        count: u64,
        r: Step,
    ) -> bool {
        let view = before@;
        let middle = ControllerView::scratchpad_cursor(cursor, end, count);
        let array = pointer_array(view.max_slots + 1);
        let demands = scratchpad_demands(count as int);
        if view.structures_served(cursor, end, count) {
            &&& r == Step::Ask(
                Request::SetDeviceContextBase(view.contexts_start(cursor, end, count) as u64),
            )
            &&& self@ == (ControllerView { state: State::SetContexts, initialized: true, ..view })
            &&& cursor_after == array.cursor_after(middle, end)
            &&& self.spec_manager().is_some()
            &&& self.spec_manager().unwrap().spec_base() == view.contexts_start(cursor, end, count)
            &&& self.spec_manager().unwrap().spec_max_slots() == view.max_slots
            &&& self.spec_manager().unwrap().pointers() == Seq::new(
                (view.max_slots + 1) as nat,
                |i: int| 0u64,
            )
            &&& self.holds_scratchpad(before, cursor, end, count)
        } else {
            &&& (self@, r) == view.failed(Fault::OutOfMemory)
            &&& self.spec_manager() == before.spec_manager()
            &&& if !ControllerView::scratchpad_served(cursor, end, count) {
                &&& self.spec_scratchpad() == before.spec_scratchpad()
                &&& count * 8 > usize::MAX ==> cursor_after == cursor
                &&& count * 8 <= usize::MAX ==> exists|k: int|
                    0 <= k <= count && served(cursor, end, demands, k) && !(#[trigger] demands[k]).fits(
                        cursor_after_all(cursor, end, demands, k),
                        end,
                    ) && cursor_after == cursor_after_all(cursor, end, demands, k + 1)
            } else {
                &&& self.holds_scratchpad(before, cursor, end, count)
                &&& cursor_after == (if (view.max_slots + 1) * 8 > usize::MAX {
                    middle
                } else {
                    array.cursor_after(middle, end)
                })
            }
        }
    }

    /// A controller whose registers start at `mmio_base`, with `ports` ports.
    /// Every wait for the hardware reads at most `poll_limit` times after the
    /// first read before it gives up.
    pub fn new(mmio_base: usize, ports: usize, poll_limit: u32) -> (controller: Controller)
        ensures
            controller@ == (ControllerView {
                base: mmio_base,
                ports,
                poll_limit,
                state: State::Idle,
                initializing: false,
                polls_left: 0,
                max_slots: 0,
                event_base: 0,
                event_table: 0,
                initialized: false,
            }),
            controller.spec_manager().is_none(),
            controller.spec_scratchpad().is_none(),
    {
        Controller {
            base: mmio_base,
            ports,
            poll_limit,
            state: State::Idle,
            initializing: false,
            polls_left: 0,
            max_slots: 0,
            event_base: 0,
            event_table: 0,
            manager: None,
            scratchpad: None,
        }
    }

    /// Address of the controller's registers.
    pub fn base(&self) -> (r: usize)
        ensures
            r == self@.base,
    {
        self.base
    }

    /// What the controller is waiting for.
    pub fn state(&self) -> (r: State)
        ensures
            r == self@.state,
    {
        self.state
    }

    /// Number of device slots, as read during the initialization.
    pub fn max_slots(&self) -> (r: u64)
        ensures
            r == self@.max_slots,
    {
        self.max_slots
    }

    /// The device context pointer array, once it was built.
    pub fn manager(&self) -> (r: &Option<DeviceManager>)
        ensures
            *r == self.spec_manager(),
    {
        &self.manager
    }

    /// The scratchpad buffers, where the controller asked for any.
    pub fn scratchpad(&self) -> (r: &Option<Scratchpad>)
        ensures
            *r == self.spec_scratchpad(),
    {
        &self.scratchpad
    }

    /// The controller's ports from the first on, each not connected. Every
    /// call starts anew.
    pub fn iter(&self) -> (r: PortIter)
        ensures
            r.position() == 0,
            r.remaining() == self@.ports,
    {
        PortIter { len: self.ports, cursor: 0 }
    }

    /// Starts an operation on an idle controller.
    fn start(&mut self, state: State, request: Request, initializing: bool) -> (r: Step)
        ensures
            (final(self)@, r) == old(self)@.started(state, request, initializing),
            final(self).spec_manager() == old(self).spec_manager(),
            final(self).spec_scratchpad() == old(self).spec_scratchpad(),
    {
        match self.state {
            State::Idle => {
                self.state = state;
                self.initializing = initializing;
                Step::Ask(request)
            },
            _ => Step::Failed(Fault::Busy),
        }
    }

    /// Starts the initialization: ownership is taken from the firmware, the
    /// controller is reset, its numbers of device slots and scratchpad
    /// buffers are read, the buffers and the device context pointer array are
    /// taken from the pool, and the array's address is written.
    pub fn initialize(&mut self) -> (r: Step)
        ensures
            (final(self)@, r) == old(self)@.initialize(),
            final(self).spec_manager() == old(self).spec_manager(),
            final(self).spec_scratchpad() == old(self).spec_scratchpad(),
    {
        match (self.state, &self.manager) {
            (State::Idle, Some(_)) => Step::Failed(Fault::AlreadyInitialized),
            _ => self.start(State::OwnershipProbe, Request::ReadOsOwned, true),
        }
    }

    /// Starts the handover from the firmware alone.
    pub fn request_hc_ownership(&mut self) -> (r: Step)
        ensures
            (final(self)@, r) == old(self)@.started(
                State::OwnershipProbe,
                Request::ReadOsOwned,
                false,
            ),
            final(self).spec_manager() == old(self).spec_manager(),
            final(self).spec_scratchpad() == old(self).spec_scratchpad(),
    {
        self.start(State::OwnershipProbe, Request::ReadOsOwned, false)
    }

    /// Starts a reset alone.
    pub fn reset(&mut self) -> (r: Step)
        ensures
            (final(self)@, r) == old(self)@.started(State::ResetProbe, Request::ReadHalted, false),
            final(self).spec_manager() == old(self).spec_manager(),
            final(self).spec_scratchpad() == old(self).spec_scratchpad(),
    {
        self.start(State::ResetProbe, Request::ReadHalted, false)
    }

    /// Starts the controller: run/stop is set, then the driver waits until
    /// the controller no longer reports itself halted.
    pub fn run(&mut self) -> (r: Step)
        ensures
            (final(self)@, r) == old(self)@.started(State::RunStart, Request::SetRunStop, false),
            final(self).spec_manager() == old(self).spec_manager(),
            final(self).spec_scratchpad() == old(self).spec_scratchpad(),
    {
        self.start(State::RunStart, Request::SetRunStop, false)
    }

    /// Builds the event ring from `pool` and starts to wire it to interrupter
    /// 0: number of segments, dequeue pointer, segment table, interrupter
    /// armed, interrupter enable. A controller that is busy, or a pool that
    /// cannot serve the ring, gives no ring and leaves the controller as it
    /// was.
    pub fn ring(&mut self, pool: &mut Pool) -> (r: (Option<EventRing>, Step))
        requires
            old(pool).wf(),
        ensures
            final(pool).wf(),
            final(pool).spec_base() == old(pool).spec_base(),
            final(pool).spec_end() == old(pool).spec_end(),
            final(self).spec_manager() == old(self).spec_manager(),
            final(self).spec_scratchpad() == old(self).spec_scratchpad(),
            old(self)@.state != State::Idle ==> r.0.is_none() && r.1 == Step::Failed(Fault::Busy)
                && final(self)@ == old(self)@ && final(pool).spec_cursor() == old(
                pool,
            ).spec_cursor(),
            old(self)@.state == State::Idle ==> ({
                let cursor = old(pool).spec_cursor();
                let end = old(pool).spec_end();
                &&& final(pool).spec_cursor() == event_ring_cursor(cursor, end, 32)
                &&& r.0.is_some() == event_ring_served(cursor, end, 32)
                &&& r.0.is_none() ==> r.1 == Step::Failed(Fault::OutOfMemory) && final(self)@
                    == old(self)@
            }),
            r.0.is_some() ==> ({
                let ring = r.0.unwrap();
                &&& ring.wf()
                &&& ring@.slots.len() == 32
                &&& ring@.fresh()
                &&& ring@.base == segment_demand(32).start(old(pool).spec_cursor())
                &&& ring@.table_base == table_demand().start(
                    segment_demand(32).cursor_after(old(pool).spec_cursor(), old(pool).spec_end()),
                )
                &&& r.1 == Step::Ask(Request::SetSegmentTableSize(1))
                &&& final(self)@ == (ControllerView {
                    state: State::RingSize,
                    initializing: false,
                    event_base: ring@.base,
                    event_table: ring@.table_base,
                    ..old(self)@
                })
            }),
    {
        match self.state {
            State::Idle => {},
            _ => {
                return (None, Step::Failed(Fault::Busy));
            },
        }
        match EventRing::new(EVENT_RING_SIZE, pool) {
            Some(ring) => {
                self.state = State::RingSize;
                self.initializing = false;
                self.event_base = ring.base();
                self.event_table = ring.segment_table_address();
                let count = ring.segment_count();
                (Some(ring), Step::Ask(Request::SetSegmentTableSize(count)))
            },
            None => (None, Step::Failed(Fault::OutOfMemory)),
        }
    }

    /// Builds a command ring of `size` slots from `pool` and asks for its
    /// address to be written, with the ring cycle state set. A controller
    /// that is busy, or a pool that cannot serve the ring, gives no ring and
    /// leaves the controller as it was.
    pub fn command_ring(&mut self, size: usize, pool: &mut Pool) -> (r: (Option<Ring>, Step))
        requires
            old(pool).wf(),
        ensures
            final(pool).wf(),
            final(pool).spec_base() == old(pool).spec_base(),
            final(pool).spec_end() == old(pool).spec_end(),
            final(self).spec_manager() == old(self).spec_manager(),
            final(self).spec_scratchpad() == old(self).spec_scratchpad(),
            old(self)@.state != State::Idle ==> r.0.is_none() && r.1 == Step::Failed(Fault::Busy)
                && final(self)@ == old(self)@ && final(pool).spec_cursor() == old(
                pool,
            ).spec_cursor(),
            old(self)@.state == State::Idle && size * 16 > usize::MAX ==> r.0.is_none()
                && final(pool).spec_cursor() == old(pool).spec_cursor(),
            old(self)@.state == State::Idle && size * 16 <= usize::MAX ==> ({
                let d = Demand {
                    length: (size * 16) as usize,
                    alignment: RING_ALIGNMENT,
                    boundary: RING_BOUNDARY,
                };
                let cursor = old(pool).spec_cursor();
                let end = old(pool).spec_end();
                &&& r.0.is_some() == d.fits(cursor, end)
                &&& final(pool).spec_cursor() == d.cursor_after(cursor, end)
                &&& r.0.is_some() ==> r.0.unwrap()@.base == d.start(cursor)
            }),
            old(self)@.state == State::Idle && r.0.is_none() ==> r.1 == Step::Failed(
                Fault::OutOfMemory,
            ) && final(self)@ == old(self)@,
            r.0.is_some() ==> ({
                let ring = r.0.unwrap();
                &&& ring.wf()
                &&& ring@.slots == Seq::new(size as nat, |i: int| seq![0u32, 0u32, 0u32, 0u32])
                &&& ring@.cycle
                &&& ring@.cursor == 0
                &&& r.1 == Step::Ask(Request::SetCommandRing(ring@.base))
                &&& final(self)@ == (ControllerView {
                    state: State::CommandRing,
                    initializing: false,
                    ..old(self)@
                })
            }),
    {
        match self.state {
            State::Idle => {},
            _ => {
                return (None, Step::Failed(Fault::Busy));
            },
        }
        match Ring::new(size, pool) {
            Some(ring) => {
                self.state = State::CommandRing;
                self.initializing = false;
                let pointer = ring.base();
                (Some(ring), Step::Ask(Request::SetCommandRing(pointer)))
            },
            None => (None, Step::Failed(Fault::OutOfMemory)),
        }
    }

    /// Gives the operation up.
    fn fail(&mut self, fault: Fault) -> (r: Step)
        ensures
            (final(self)@, r) == old(self)@.failed(fault),
            final(self).spec_manager() == old(self).spec_manager(),
            final(self).spec_scratchpad() == old(self).spec_scratchpad(),
    {
        self.state = State::Idle;
        self.initializing = false;
        Step::Failed(fault)
    }

    /// Ends the operation.
    fn finish(&mut self) -> (r: Step)
        ensures
            (final(self)@, r) == old(self)@.finished(),
            final(self).spec_manager() == old(self).spec_manager(),
            final(self).spec_scratchpad() == old(self).spec_scratchpad(),
    {
        self.state = State::Idle;
        self.initializing = false;
        Step::Done
    }

    /// Moves on to `state` and asks for `request`.
    fn ask(&mut self, state: State, request: Request) -> (r: Step)
        ensures
            (final(self)@, r) == old(self)@.asks(state, request),
            final(self).spec_manager() == old(self).spec_manager(),
            final(self).spec_scratchpad() == old(self).spec_scratchpad(),
    {
        self.state = state;
        Step::Ask(request)
    }

    /// Starts to wait in `state` with a full budget.
    fn wait(&mut self, state: State, request: Request) -> (r: Step)
        ensures
            (final(self)@, r) == old(self)@.waits(state, request),
            final(self).spec_manager() == old(self).spec_manager(),
            final(self).spec_scratchpad() == old(self).spec_scratchpad(),
    {
        self.state = state;
        self.polls_left = self.poll_limit;
        Step::Ask(request)
    }

    /// Asks again, or gives up when the budget is spent.
    fn poll_again(&mut self, request: Request) -> (r: Step)
        ensures
            (final(self)@, r) == old(self)@.polls_again(request),
            final(self).spec_manager() == old(self).spec_manager(),
            final(self).spec_scratchpad() == old(self).spec_scratchpad(),
    {
        if self.polls_left == 0 {
            self.fail(Fault::Timeout)
        } else {
            self.polls_left = self.polls_left - 1;
            Step::Ask(request)
        }
    }

    /// Goes on after the handover.
    fn own(&mut self) -> (r: Step)
        ensures
            (final(self)@, r) == old(self)@.owned(),
            final(self).spec_manager() == old(self).spec_manager(),
            final(self).spec_scratchpad() == old(self).spec_scratchpad(),
    {
        if self.initializing {
            self.ask(State::ResetProbe, Request::ReadHalted)
        } else {
            self.finish()
        }
    }

    /// Goes on after the reset.
    fn after_reset(&mut self) -> (r: Step)
        ensures
            (final(self)@, r) == old(self)@.was_reset(),
            final(self).spec_manager() == old(self).spec_manager(),
            final(self).spec_scratchpad() == old(self).spec_scratchpad(),
    {
        if self.initializing {
            self.ask(State::ReadSlots, Request::ReadMaxSlots)
        } else {
            self.finish()
        }
    }

    /// Takes the scratchpad buffers and the device context pointer array from
    /// the pool, once the number of buffers is known.
    fn build_structures(&mut self, pool: &mut Pool, count: u64) -> (r: Step)
        requires
            old(pool).wf(),
        ensures
            final(pool).wf(),
            final(pool).spec_base() == old(pool).spec_base(),
            final(pool).spec_end() == old(pool).spec_end(),
            final(self).built(
                old(self),
                old(pool).spec_cursor(),
                old(pool).spec_end(),
                final(pool).spec_cursor(),
                count,
                r,
            ),
    {
        let limit: u64 = (usize::MAX / 8) as u64;
        if count > 0 {
            if count > limit {
                return self.fail(Fault::OutOfMemory);
            }
            match Scratchpad::new(count as usize, pool) {
                Some(pad) => {
                    self.scratchpad = Some(pad);
                },
                None => {
                    return self.fail(Fault::OutOfMemory);
                },
            }
        }
        if self.max_slots >= limit {
            return self.fail(Fault::OutOfMemory);
        }
        match DeviceManager::new(self.max_slots as usize, pool) {
            Some(manager) => {
                let address: u64 = manager.base() as u64;
                self.manager = Some(manager);
                self.state = State::SetContexts;
                Step::Ask(Request::SetDeviceContextBase(address))
            },
            None => self.fail(Fault::OutOfMemory),
        }
    }

    /// Takes the reply to the pending request and says what to do next. Only
    /// the reply that tells the number of scratchpad buffers touches the pool.
    pub fn advance(&mut self, pool: &mut Pool, reply: Reply) -> (r: Step)
        requires
            old(pool).wf(),
        ensures
            final(pool).wf(),
            final(pool).spec_base() == old(pool).spec_base(),
            final(pool).spec_end() == old(pool).spec_end(),
            !old(self)@.allocates(reply) ==> {
                &&& (final(self)@, r) == old(self)@.advanced(reply)
                &&& final(pool).spec_cursor() == old(pool).spec_cursor()
                &&& final(self).spec_manager() == old(self).spec_manager()
                &&& final(self).spec_scratchpad() == old(self).spec_scratchpad()
            },
            old(self)@.allocates(reply) ==> final(self).built(
                old(self),
                old(pool).spec_cursor(),
                old(pool).spec_end(),
                final(pool).spec_cursor(),
                reply->Value_0,
                r,
            ),
    {
        match (self.state, reply) {
            (State::OwnershipProbe, Reply::Absent) => self.own(),
            (State::OwnershipProbe, Reply::Flag(true)) => self.own(),
            (State::OwnershipProbe, Reply::Flag(false)) => self.ask(
                State::OwnershipClaim,
                Request::SetOsOwned,
            ),
            (State::OwnershipClaim, Reply::Done) => self.wait(
                State::OwnershipWait,
                Request::ReadOsOwned,
            ),
            (State::OwnershipWait, Reply::Flag(true)) => self.own(),
            (State::OwnershipWait, Reply::Flag(false)) => self.poll_again(Request::ReadOsOwned),
            (State::ResetProbe, Reply::Flag(halted)) => self.ask(
                State::ResetQuiesce,
                Request::Quiesce { stop: !halted },
            ),
            (State::ResetQuiesce, Reply::Done) => self.wait(
                State::ResetWaitHalted,
                Request::ReadHalted,
            ),
            (State::ResetWaitHalted, Reply::Flag(true)) => self.ask(
                State::ResetStart,
                Request::SetHostControllerReset,
            ),
            (State::ResetWaitHalted, Reply::Flag(false)) => self.poll_again(Request::ReadHalted),
            (State::ResetStart, Reply::Done) => self.wait(
                State::ResetWaitCleared,
                Request::ReadHostControllerReset,
            ),
            (State::ResetWaitCleared, Reply::Flag(false)) => self.wait(
                State::ResetWaitReady,
                Request::ReadNotReady,
            ),
            (State::ResetWaitCleared, Reply::Flag(true)) => self.poll_again(
                Request::ReadHostControllerReset,
            ),
            (State::ResetWaitReady, Reply::Flag(false)) => self.after_reset(),
            (State::ResetWaitReady, Reply::Flag(true)) => self.poll_again(Request::ReadNotReady),
            (State::ReadSlots, Reply::Value(slots)) => {
                self.max_slots = slots;
                self.ask(State::ReadScratchpads, Request::ReadMaxScratchpadBuffers)
            },
            (State::ReadScratchpads, Reply::Value(count)) => self.build_structures(pool, count),
            (State::SetContexts, Reply::Done) => self.finish(),
            (State::RunStart, Reply::Done) => self.wait(State::RunWait, Request::ReadHalted),
            (State::RunWait, Reply::Flag(false)) => self.finish(),
            (State::RunWait, Reply::Flag(true)) => self.poll_again(Request::ReadHalted),
            (State::RingSize, Reply::Done) => {
                let pointer = self.event_base;
                self.ask(State::RingDequeue, Request::SetDequeuePointer(pointer))
            },
            (State::RingDequeue, Reply::Done) => {
                let table = self.event_table;
                self.ask(State::RingTable, Request::SetSegmentTableBase(table))
            },
            (State::RingTable, Reply::Done) => self.ask(State::RingArm, Request::ArmInterrupter),
            (State::RingArm, Reply::Done) => self.ask(
                State::RingEnable,
                Request::SetInterrupterEnable,
            ),
            (State::RingEnable, Reply::Done) => self.finish(),
            (State::CommandRing, Reply::Done) => self.finish(),
            _ => self.fail(Fault::UnexpectedReply),
        }
    }
}

/// The reset of a controller that reports itself halted: the driver never
/// asks to clear run/stop, waits for the halted bit, sets the reset bit,
/// waits for it to clear, and is done as soon as the controller reports
/// itself ready.
pub proof fn lemma_reset_of_halted_controller(controller: ControllerView)
    requires
        controller.state == State::Idle,
    ensures
        ({
            let (c0, s0) = controller.started(State::ResetProbe, Request::ReadHalted, false);
            let (c1, s1) = c0.advanced(Reply::Flag(true));
            let (c2, s2) = c1.advanced(Reply::Done);
            let (c3, s3) = c2.advanced(Reply::Flag(true));
            let (c4, s4) = c3.advanced(Reply::Done);
            let (c5, s5) = c4.advanced(Reply::Flag(false));
            let (c6, s6) = c5.advanced(Reply::Flag(false));
            &&& s0 == Step::Ask(Request::ReadHalted)
            &&& s1 == Step::Ask(Request::Quiesce { stop: false })
            &&& s2 == Step::Ask(Request::ReadHalted)
            &&& s3 == Step::Ask(Request::SetHostControllerReset)
            &&& s4 == Step::Ask(Request::ReadHostControllerReset)
            &&& s5 == Step::Ask(Request::ReadNotReady)
            &&& s6 == Step::Done
            &&& c6.state == State::Idle
        }),
{
}

/// The driver asks to clear run/stop only after it has read the halted bit
/// as clear, and a reset ends only on a read that shows the controller ready.
pub proof fn lemma_reset_decisions(controller: ControllerView, reply: Reply)
    ensures
        controller.advanced(reply).1 == Step::Ask(Request::Quiesce { stop: true })
            <==> controller.state == State::ResetProbe && reply == Reply::Flag(false),
        controller.advanced(reply).1 == Step::Ask(Request::Quiesce { stop: false })
            <==> controller.state == State::ResetProbe && reply == Reply::Flag(true),
        controller.state == State::ResetWaitReady && controller.advanced(reply).1 == Step::Done
            ==> reply == Reply::Flag(false),
        controller.state == State::ResetWaitReady && reply == Reply::Flag(false)
            && !controller.initializing ==> controller.advanced(reply).1 == Step::Done,
{
}

/// The handover from the firmware: with the semaphore already set, or
/// without the capability, nothing is written and the driver goes on; with
/// the semaphore clear the driver sets it and goes on only after a read that
/// shows it set.
pub proof fn lemma_ownership_handover(controller: ControllerView, reply: Reply)
    requires
        controller.state == State::OwnershipProbe,
    ensures
        reply == Reply::Absent || reply == Reply::Flag(true) ==> controller.advanced(reply)
            == controller.owned(),
        reply == Reply::Flag(false) ==> ({
            let (c1, s1) = controller.advanced(reply);
            let (c2, s2) = c1.advanced(Reply::Done);
            &&& s1 == Step::Ask(Request::SetOsOwned)
            &&& s2 == Step::Ask(Request::ReadOsOwned)
            &&& c2.advanced(Reply::Flag(true)) == c2.owned()
            &&& c2.advanced(Reply::Flag(false)).1 != c2.owned().1
        }),
        controller.owned().1 == (if controller.initializing {
            Step::Ask(Request::ReadHalted)
        } else {
            Step::Done
        }),
{
}

/// A controller that needs no scratchpad buffers takes none from the pool:
/// the cursor from which the device context pointer array is placed is the
/// one the pool had.
pub proof fn lemma_no_scratchpad_takes_nothing(cursor: int, end: int)
    ensures
        ControllerView::scratchpad_served(cursor, end, 0),
        ControllerView::scratchpad_cursor(cursor, end, 0) == cursor,
{
}

/// A wait never outlasts its budget: with no polls left, a reply that does
/// not show the awaited state ends the operation with a timeout.
pub proof fn lemma_wait_is_bounded(controller: ControllerView, request: Request)
    ensures
        controller.polls_left == 0 ==> controller.polls_again(request).1 == Step::Failed(
            Fault::Timeout,
        ),
        controller.polls_left > 0 ==> controller.polls_again(request).1 == Step::Ask(request)
            && controller.polls_again(request).0.polls_left == controller.polls_left - 1,
{
}

/// How far an operation has come: the place of `state` in the order in
/// which an initialization passes through the states; the other operations
/// pass through theirs in the same order.
pub open spec fn stage(state: State) -> int {
    match state {
        State::OwnershipProbe => 1,
        State::OwnershipClaim => 2,
        State::OwnershipWait => 3,
        State::ResetProbe => 4,
        State::ResetQuiesce => 5,
        State::ResetWaitHalted => 6,
        State::ResetStart => 7,
        State::ResetWaitCleared => 8,
        State::ResetWaitReady => 9,
        State::ReadSlots => 10,
        State::ReadScratchpads => 11,
        State::SetContexts => 12,
        State::RunStart => 13,
        State::RunWait => 14,
        State::RingSize => 15,
        State::RingDequeue => 16,
        State::RingTable => 17,
        State::RingArm => 18,
        State::RingEnable => 19,
        State::CommandRing => 20,
        State::Idle => 21,
    }
}

/// Whether the controller polls the hardware in `state`.
pub open spec fn polls(state: State) -> bool {
    state == State::OwnershipWait || state == State::ResetWaitHalted || state
        == State::ResetWaitCleared || state == State::ResetWaitReady || state == State::RunWait
}

/// Whether a controller that polls has no more polls left than its budget.
/// Every controller is within its budget from the start and stays so.
pub open spec fn within_budget(controller: ControllerView) -> bool {
    polls(controller.state) ==> controller.polls_left <= controller.poll_limit
}

/// An upper bound on the requests that the pending operation can still make:
/// the stages ahead, each with a full budget of polls, and the polls left in
/// the current wait.
pub open spec fn requests_ahead(controller: ControllerView) -> int {
    (21 - stage(controller.state)) * (controller.poll_limit + 2) + (if polls(controller.state) {
        controller.polls_left as int
    } else {
        controller.poll_limit as int
    })
}

/// No operation runs forever: whenever a reply makes the controller ask for
/// something more, the bound on the requests still ahead has gone down, and
/// it never goes below zero. The poll budget stays as it was set.
pub proof fn lemma_advance_makes_progress(controller: ControllerView, reply: Reply)
    requires
        within_budget(controller),
    ensures
        within_budget(controller.advanced(reply).0),
        0 <= requests_ahead(controller),
        controller.advanced(reply).0.poll_limit == controller.poll_limit,
        controller.advanced(reply).1 is Ask ==> requests_ahead(controller.advanced(reply).0)
            < requests_ahead(controller),
{
    let limit = controller.poll_limit as int;
    let next = controller.advanced(reply).0;
    let here = 21 - stage(controller.state);
    let there = 21 - stage(next.state);
    assert(0 <= here * (limit + 2)) by (nonlinear_arith)
        requires
            0 <= here,
            0 <= limit,
    ;
    if controller.advanced(reply).1 is Ask && next.state != controller.state {
        assert(there <= here - 1);
        assert(there * (limit + 2) <= here * (limit + 2) - (limit + 2)) by (nonlinear_arith)
            requires
                there <= here - 1,
                0 <= limit,
        ;
    }
}

/// An upper bound on the requests that a port's pending reset can still make.
pub open spec fn port_requests_ahead(port: PortView) -> int {
    match port.wait {
        PortWait::Idle => 0,
        PortWait::ResetWritten => 0x1_0000_0001,
        PortWait::ResetCleared => port.polls_left as int,
    }
}

/// No reset runs forever: whenever a reply makes the port ask for something
/// more, the bound on the requests still ahead has gone down.
pub proof fn lemma_port_makes_progress(port: PortView, reply: Reply)
    ensures
        0 <= port_requests_ahead(port),
        port.advanced(reply).1 is Ask ==> port_requests_ahead(port.advanced(reply).0)
            < port_requests_ahead(port),
{
}

} // verus!
