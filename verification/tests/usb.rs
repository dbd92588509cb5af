use mikan_xhci::memory::{Pool, POOL_SIZE};
use mikan_xhci::ring::{EventTrb, EventTrbPayload};
use mikan_xhci::usb::{
    ConfigPhase, Controller, DeviceManager, Fault, Port, PortStatus, Reply, Request, Scratchpad,
    State, Step,
};

/// Registers of a controller that answers as real hardware would, with
/// delays that are counted in reads.
struct Registers {
    legacy_support: bool,
    os_owned: bool,
    ownership_delay: u32,
    run_stop: bool,
    halted: bool,
    halt_delay: u32,
    resetting: u32,
    not_ready: u32,
    interrupter_enable: bool,
    slots: u64,
    scratchpads: u64,
    dcbaap: u64,
    crcr: u64,
    erstsz: u16,
    erdp: u64,
    erstba: u64,
    armed: bool,
    port_connected: Vec<bool>,
    port_resetting: Vec<u32>,
    log: Vec<Request>,
}

impl Registers {
    fn new() -> Registers {
        Registers {
            legacy_support: true,
            os_owned: false,
            ownership_delay: 0,
            run_stop: false,
            halted: true,
            halt_delay: 0,
            resetting: 0,
            not_ready: 0,
            interrupter_enable: true,
            slots: 4,
            scratchpads: 0,
            dcbaap: 0,
            crcr: 0,
            erstsz: 0,
            erdp: 0,
            erstba: 0,
            armed: false,
            port_connected: vec![false, true, false, true],
            port_resetting: vec![0; 4],
            log: Vec::new(),
        }
    }

    fn perform(&mut self, request: Request) -> Reply {
        self.log.push(request);
        match request {
            Request::ReadOsOwned => {
                if !self.legacy_support {
                    return Reply::Absent;
                }
                if self.ownership_delay > 0 {
                    self.ownership_delay -= 1;
                    if self.ownership_delay == 0 {
                        self.os_owned = true;
                    }
                }
                Reply::Flag(self.os_owned)
            }
            Request::SetOsOwned => {
                if self.ownership_delay == 0 {
                    self.os_owned = true;
                }
                Reply::Done
            }
            Request::ReadHalted => {
                if self.halt_delay > 0 {
                    self.halt_delay -= 1;
                    if self.halt_delay == 0 {
                        self.halted = !self.run_stop;
                    }
                }
                Reply::Flag(self.halted)
            }
            Request::Quiesce { stop } => {
                self.interrupter_enable = false;
                if stop {
                    self.run_stop = false;
                    if self.halt_delay == 0 {
                        self.halted = true;
                    }
                }
                Reply::Done
            }
            Request::SetHostControllerReset => Reply::Done,
            Request::ReadHostControllerReset => {
                if self.resetting > 0 {
                    self.resetting -= 1;
                    Reply::Flag(true)
                } else {
                    Reply::Flag(false)
                }
            }
            Request::ReadNotReady => {
                if self.not_ready > 0 {
                    self.not_ready -= 1;
                    Reply::Flag(true)
                } else {
                    Reply::Flag(false)
                }
            }
            Request::ReadMaxSlots => Reply::Value(self.slots),
            Request::ReadMaxScratchpadBuffers => Reply::Value(self.scratchpads),
            Request::SetDeviceContextBase(address) => {
                self.dcbaap = address;
                Reply::Done
            }
            Request::SetRunStop => {
                self.run_stop = true;
                if self.halt_delay == 0 {
                    self.halted = false;
                }
                Reply::Done
            }
            Request::SetSegmentTableSize(size) => {
                self.erstsz = size;
                Reply::Done
            }
            Request::ReadDequeuePointer => Reply::Value(self.erdp),
            Request::SetDequeuePointer(pointer) => {
                self.erdp = pointer;
                Reply::Done
            }
            Request::SetSegmentTableBase(address) => {
                self.erstba = address;
                Reply::Done
            }
            Request::ArmInterrupter => {
                self.armed = true;
                Reply::Done
            }
            Request::SetInterrupterEnable => {
                self.interrupter_enable = true;
                Reply::Done
            }
            Request::SetCommandRing(pointer) => {
                self.crcr = pointer | 1;
                Reply::Done
            }
            Request::ResetPort(port) => {
                self.port_resetting[port] += 2;
                Reply::Done
            }
            Request::ReadPortStatus(port) => {
                let reset = self.port_resetting[port] > 0;
                if reset {
                    self.port_resetting[port] -= 1;
                }
                Reply::Port(PortStatus { connected: self.port_connected[port], reset })
            }
        }
    }
}

fn drive(controller: &mut Controller, pool: &mut Pool, registers: &mut Registers, first: Step) -> Step {
    let mut step = first;
    while let Step::Ask(request) = step {
        let reply = registers.perform(request);
        step = controller.advance(pool, reply);
    }
    step
}

fn drive_port(port: &mut Port, registers: &mut Registers, first: Step) -> Step {
    let mut step = first;
    while let Step::Ask(request) = step {
        let reply = registers.perform(request);
        step = port.advance(reply);
    }
    step
}

#[test]
fn is_connected_follows_each_status() {
    let port = Port::new(1);
    assert!(port.is_connected(PortStatus { connected: true, reset: false }));
    assert!(!port.is_connected(PortStatus { connected: false, reset: false }));
    assert!(port.is_connected(PortStatus { connected: true, reset: true }));
    assert_eq!(port.status_request(), Request::ReadPortStatus(1));
}

#[test]
fn is_connected_reads_the_hardware_anew() {
    let mut registers = Registers::new();
    let port = Port::new(0);
    let mut seen = Vec::new();
    for connected in [false, true] {
        registers.port_connected[0] = connected;
        match registers.perform(port.status_request()) {
            Reply::Port(status) => seen.push(port.is_connected(status)),
            other => panic!("{:?}", other),
        }
    }
    assert_eq!(seen, vec![false, true]);
    assert_eq!(registers.log, vec![Request::ReadPortStatus(0), Request::ReadPortStatus(0)]);
}

#[test]
fn port_reset_waits_until_the_reset_has_cleared() {
    let mut registers = Registers::new();
    let mut port = Port::new(3);
    assert_eq!(port.phase(), ConfigPhase::NotConnected);
    let first = port.reset(10);
    assert_eq!(first, Step::Ask(Request::ResetPort(3)));
    assert_eq!(port.phase(), ConfigPhase::NotConnected);
    assert_eq!(drive_port(&mut port, &mut registers, first), Step::Done);
    assert_eq!(
        registers.log,
        vec![
            Request::ResetPort(3),
            Request::ReadPortStatus(3),
            Request::ReadPortStatus(3),
            Request::ReadPortStatus(3),
        ]
    );
    assert_eq!(registers.port_resetting[3], 0);
    assert_eq!(port.phase(), ConfigPhase::ResettingPort);
}

#[test]
fn port_reset_step_by_step() {
    let mut port = Port::new(2);
    assert_eq!(port.reset(1), Step::Ask(Request::ResetPort(2)));
    assert_eq!(port.advance(Reply::Done), Step::Ask(Request::ReadPortStatus(2)));
    assert_eq!(port.reset(1), Step::Failed(Fault::Busy));
    let pending = Reply::Port(PortStatus { connected: true, reset: true });
    assert_eq!(port.advance(pending), Step::Ask(Request::ReadPortStatus(2)));
    assert_eq!(port.advance(pending), Step::Failed(Fault::Timeout));
    assert_eq!(port.phase(), ConfigPhase::NotConnected);
    assert_eq!(port.advance(pending), Step::Failed(Fault::UnexpectedReply));
    // A reset that was given up can be started again.
    assert_eq!(port.reset(1), Step::Ask(Request::ResetPort(2)));
    assert_eq!(port.advance(Reply::Done), Step::Ask(Request::ReadPortStatus(2)));
    let over = Reply::Port(PortStatus { connected: true, reset: false });
    assert_eq!(port.advance(over), Step::Done);
    assert_eq!(port.phase(), ConfigPhase::ResettingPort);
}

#[test]
fn port_reset_rejects_a_wrong_reply() {
    let mut port = Port::new(2);
    port.reset(5);
    assert_eq!(port.advance(Reply::Flag(true)), Step::Failed(Fault::UnexpectedReply));
    let mut idle = Port::new(0);
    assert_eq!(idle.advance(Reply::Done), Step::Failed(Fault::UnexpectedReply));
}

#[test]
fn configure_resets_a_port_that_is_not_connected() {
    let mut port = Port::new(1);
    assert_eq!(port.configure(8), Step::Ask(Request::ResetPort(1)));
    assert_eq!(port.phase(), ConfigPhase::NotConnected);
    port.advance(Reply::Done);
    port.advance(Reply::Port(PortStatus { connected: true, reset: false }));
    assert_eq!(port.phase(), ConfigPhase::ResettingPort);
    // A port that is past the first phase is left alone.
    assert_eq!(port.configure(8), Step::Done);
    assert_eq!(port.phase(), ConfigPhase::ResettingPort);
}

#[test]
fn iter_lists_the_ports() {
    let controller = Controller::new(0x1000, 3, 10);
    let mut ports = controller.iter();
    let mut numbers = Vec::new();
    while let Some(port) = ports.next() {
        assert_eq!(port.phase(), ConfigPhase::NotConnected);
        numbers.push(port.number());
    }
    assert_eq!(numbers, vec![0, 1, 2]);
    assert!(ports.next().is_none());
    // A second call starts anew.
    assert_eq!(controller.iter().next().unwrap().number(), 0);
    assert!(Controller::new(0, 0, 0).iter().next().is_none());
}

#[test]
fn reset_of_a_halted_controller() {
    let mut registers = Registers::new();
    registers.not_ready = 3;
    let mut pool = Pool::new(0x10000, POOL_SIZE);
    let mut controller = Controller::new(0x1000, 4, 100);
    let first = controller.reset();
    assert_eq!(drive(&mut controller, &mut pool, &mut registers, first), Step::Done);
    assert_eq!(
        registers.log,
        vec![
            Request::ReadHalted,
            Request::Quiesce { stop: false },
            Request::ReadHalted,
            Request::SetHostControllerReset,
            Request::ReadHostControllerReset,
            Request::ReadNotReady,
            Request::ReadNotReady,
            Request::ReadNotReady,
            Request::ReadNotReady,
        ]
    );
    assert_eq!(controller.state(), State::Idle);
    assert_eq!(pool.cursor(), 0x10000);
}

#[test]
fn reset_of_a_running_controller_stops_it_first() {
    let mut registers = Registers::new();
    registers.run_stop = true;
    registers.halted = false;
    registers.halt_delay = 3;
    registers.resetting = 2;
    let mut pool = Pool::new(0x10000, POOL_SIZE);
    let mut controller = Controller::new(0x1000, 4, 100);
    let first = controller.reset();
    assert_eq!(drive(&mut controller, &mut pool, &mut registers, first), Step::Done);
    assert_eq!(registers.log[1], Request::Quiesce { stop: true });
    assert!(!registers.run_stop);
    assert!(!registers.interrupter_enable);
    let resets = registers.log.iter().filter(|r| **r == Request::ReadHostControllerReset).count();
    assert_eq!(resets, 3);
}

#[test]
fn reset_gives_up_on_a_controller_that_never_halts() {
    let mut pool = Pool::new(0x10000, POOL_SIZE);
    let mut controller = Controller::new(0x1000, 4, 2);
    assert_eq!(controller.reset(), Step::Ask(Request::ReadHalted));
    assert_eq!(
        controller.advance(&mut pool, Reply::Flag(false)),
        Step::Ask(Request::Quiesce { stop: true })
    );
    assert_eq!(controller.advance(&mut pool, Reply::Done), Step::Ask(Request::ReadHalted));
    assert_eq!(controller.advance(&mut pool, Reply::Flag(false)), Step::Ask(Request::ReadHalted));
    assert_eq!(controller.advance(&mut pool, Reply::Flag(false)), Step::Ask(Request::ReadHalted));
    assert_eq!(controller.advance(&mut pool, Reply::Flag(false)), Step::Failed(Fault::Timeout));
    assert_eq!(controller.state(), State::Idle);
}

#[test]
fn ownership_is_taken_from_the_firmware() {
    let mut registers = Registers::new();
    registers.ownership_delay = 4;
    let mut pool = Pool::new(0x10000, POOL_SIZE);
    let mut controller = Controller::new(0x1000, 4, 100);
    let first = controller.request_hc_ownership();
    assert_eq!(first, Step::Ask(Request::ReadOsOwned));
    assert_eq!(drive(&mut controller, &mut pool, &mut registers, first), Step::Done);
    assert!(registers.os_owned);
    assert_eq!(registers.log[1], Request::SetOsOwned);
    assert_eq!(registers.log.len(), 5);
}

#[test]
fn ownership_already_held_is_left_alone() {
    let mut registers = Registers::new();
    registers.os_owned = true;
    let mut pool = Pool::new(0x10000, POOL_SIZE);
    let mut controller = Controller::new(0x1000, 4, 100);
    let first = controller.request_hc_ownership();
    assert_eq!(drive(&mut controller, &mut pool, &mut registers, first), Step::Done);
    assert_eq!(registers.log, vec![Request::ReadOsOwned]);
}

#[test]
fn ownership_without_legacy_support_is_skipped() {
    let mut registers = Registers::new();
    registers.legacy_support = false;
    let mut pool = Pool::new(0x10000, POOL_SIZE);
    let mut controller = Controller::new(0x1000, 4, 100);
    let first = controller.request_hc_ownership();
    assert_eq!(drive(&mut controller, &mut pool, &mut registers, first), Step::Done);
    assert_eq!(registers.log, vec![Request::ReadOsOwned]);
    assert!(!registers.os_owned);
}

#[test]
fn initialize_end_to_end() {
    let mut registers = Registers::new();
    registers.slots = 4;
    registers.scratchpads = 0;
    registers.os_owned = false;
    let mut pool = Pool::new(0x10000, POOL_SIZE);
    let mut controller = Controller::new(0x1000, 4, 100);
    let first = controller.initialize();
    assert_eq!(drive(&mut controller, &mut pool, &mut registers, first), Step::Done);
    assert!(registers.os_owned);
    let manager = controller.manager().as_ref().unwrap();
    assert_eq!(registers.dcbaap, manager.base() as u64);
    assert_eq!(manager.base(), 0x10040);
    assert_eq!(manager.max_slots(), 4);
    assert_eq!(manager.len(), 5);
    for slot in 0..5 {
        assert_eq!(manager.pointer(slot), Some(0));
    }
    assert_eq!(manager.pointer(5), None);
    // Nothing but the array was taken from the pool.
    assert!(controller.scratchpad().is_none());
    assert_eq!(pool.cursor(), 0x10040 + 5 * 8);
    assert_eq!(controller.max_slots(), 4);
    assert_eq!(
        registers.log,
        vec![
            Request::ReadOsOwned,
            Request::SetOsOwned,
            Request::ReadOsOwned,
            Request::ReadHalted,
            Request::Quiesce { stop: false },
            Request::ReadHalted,
            Request::SetHostControllerReset,
            Request::ReadHostControllerReset,
            Request::ReadNotReady,
            Request::ReadMaxSlots,
            Request::ReadMaxScratchpadBuffers,
            Request::SetDeviceContextBase(0x10040),
        ]
    );
}

#[test]
fn initialize_with_scratchpad_buffers() {
    let mut registers = Registers::new();
    registers.slots = 8;
    registers.scratchpads = 2;
    let mut pool = Pool::new(0x10000, POOL_SIZE);
    let mut controller = Controller::new(0x1000, 4, 100);
    let first = controller.initialize();
    assert_eq!(drive(&mut controller, &mut pool, &mut registers, first), Step::Done);
    let pad = controller.scratchpad().as_ref().unwrap();
    assert_eq!(pad.array(), 0x10040);
    assert_eq!(pad.len(), 2);
    assert_eq!(pad.page(0), Some(0x11000));
    assert_eq!(pad.page(1), Some(0x13000));
    assert_eq!(pad.page(2), None);
    let manager = controller.manager().as_ref().unwrap();
    assert_eq!(manager.base(), 0x14040);
    assert_eq!(manager.len(), 9);
    assert_eq!(registers.dcbaap, 0x14040);
}

#[test]
fn initialize_twice_is_refused() {
    let mut registers = Registers::new();
    let mut pool = Pool::new(0x10000, POOL_SIZE);
    let mut controller = Controller::new(0x1000, 4, 100);
    let first = controller.initialize();
    assert_eq!(drive(&mut controller, &mut pool, &mut registers, first), Step::Done);
    assert_eq!(controller.initialize(), Step::Failed(Fault::AlreadyInitialized));
    assert_eq!(controller.state(), State::Idle);
}

#[test]
fn initialize_without_room_fails() {
    let mut registers = Registers::new();
    registers.scratchpads = 3;
    let mut pool = Pool::new(0x10000, 0x3000);
    let mut controller = Controller::new(0x1000, 4, 100);
    let first = controller.initialize();
    assert_eq!(
        drive(&mut controller, &mut pool, &mut registers, first),
        Step::Failed(Fault::OutOfMemory)
    );
    assert!(controller.manager().is_none());
    assert_eq!(registers.dcbaap, 0);
    assert_eq!(controller.state(), State::Idle);
}

#[test]
fn operations_do_not_interleave() {
    let mut pool = Pool::new(0x10000, POOL_SIZE);
    let mut controller = Controller::new(0x1000, 4, 100);
    assert_eq!(controller.run(), Step::Ask(Request::SetRunStop));
    assert_eq!(controller.reset(), Step::Failed(Fault::Busy));
    assert_eq!(controller.initialize(), Step::Failed(Fault::Busy));
    assert_eq!(controller.request_hc_ownership(), Step::Failed(Fault::Busy));
    assert_eq!(controller.run(), Step::Failed(Fault::Busy));
    let (ring, step) = controller.ring(&mut pool);
    assert!(ring.is_none());
    assert_eq!(step, Step::Failed(Fault::Busy));
    assert_eq!(pool.cursor(), 0x10000);
    assert_eq!(controller.state(), State::RunStart);
}

#[test]
fn advance_rejects_a_reply_nobody_asked_for() {
    let mut pool = Pool::new(0x10000, POOL_SIZE);
    let mut controller = Controller::new(0x1000, 4, 100);
    assert_eq!(controller.advance(&mut pool, Reply::Done), Step::Failed(Fault::UnexpectedReply));
    controller.run();
    assert_eq!(
        controller.advance(&mut pool, Reply::Value(3)),
        Step::Failed(Fault::UnexpectedReply)
    );
    assert_eq!(controller.state(), State::Idle);
}

#[test]
fn run_waits_until_the_controller_runs() {
    let mut registers = Registers::new();
    registers.halt_delay = 3;
    let mut pool = Pool::new(0x10000, POOL_SIZE);
    let mut controller = Controller::new(0x1000, 4, 100);
    let first = controller.run();
    assert_eq!(drive(&mut controller, &mut pool, &mut registers, first), Step::Done);
    assert!(registers.run_stop);
    assert!(!registers.halted);
    assert_eq!(
        registers.log,
        vec![Request::SetRunStop, Request::ReadHalted, Request::ReadHalted, Request::ReadHalted]
    );
}

#[test]
fn ring_wires_the_event_ring() {
    let mut registers = Registers::new();
    registers.interrupter_enable = false;
    let mut pool = Pool::new(0x10000, POOL_SIZE);
    let mut controller = Controller::new(0x1000, 4, 100);
    let (ring, first) = controller.ring(&mut pool);
    let ring = ring.unwrap();
    assert_eq!(drive(&mut controller, &mut pool, &mut registers, first), Step::Done);
    assert_eq!(ring.base(), 0x10040);
    assert_eq!(ring.segment().size, 32);
    assert_eq!(
        registers.log,
        vec![
            Request::SetSegmentTableSize(1),
            Request::SetDequeuePointer(0x10040),
            Request::SetSegmentTableBase(ring.segment_table_address()),
            Request::ArmInterrupter,
            Request::SetInterrupterEnable,
        ]
    );
    assert_eq!(registers.erstsz, 1);
    assert_eq!(registers.erdp, ring.base());
    assert_eq!(registers.erstba, 0x10040 + 32 * 16 + 64);
    assert!(registers.armed);
    assert!(registers.interrupter_enable);
    assert!(!ring.has_front(registers.erdp));
}

#[test]
fn ring_without_room_fails() {
    let mut pool = Pool::new(0x10000, 256);
    let mut controller = Controller::new(0x1000, 4, 100);
    let (ring, step) = controller.ring(&mut pool);
    assert!(ring.is_none());
    assert_eq!(step, Step::Failed(Fault::OutOfMemory));
    assert_eq!(controller.state(), State::Idle);
}

#[test]
fn command_ring_is_handed_to_the_controller() {
    let mut registers = Registers::new();
    let mut pool = Pool::new(0x10000, POOL_SIZE);
    let mut controller = Controller::new(0x1000, 4, 100);
    let (ring, first) = controller.command_ring(16, &mut pool);
    let ring = ring.unwrap();
    assert_eq!(first, Step::Ask(Request::SetCommandRing(0x10040)));
    assert_eq!(drive(&mut controller, &mut pool, &mut registers, first), Step::Done);
    assert_eq!(registers.crcr, 0x10041);
    assert_eq!(ring.len(), 16);
    assert!(ring.cycle_bit());
}

#[test]
fn device_manager_new() {
    let mut pool = Pool::new(0, POOL_SIZE);
    let manager = DeviceManager::new(4, &mut pool).unwrap();
    assert_eq!(manager.base(), 64);
    assert_eq!(manager.len(), 5);
    assert_eq!(manager.max_slots(), 4);
    assert_eq!(pool.cursor(), 104);
    assert!(DeviceManager::new(usize::MAX, &mut pool).is_none());
    let mut small = Pool::new(0, 100);
    assert!(DeviceManager::new(4, &mut small).is_none());
}

#[test]
fn scratchpad_new() {
    let mut pool = Pool::new(0, 0x4000);
    let pad = Scratchpad::new(2, &mut pool).unwrap();
    assert_eq!(pad.array(), 64);
    assert_eq!((pad.page(0), pad.page(1)), (Some(0x1000), Some(0x3000)));
    assert_eq!(pool.cursor(), 0x4000);
    assert!(Scratchpad::new(1, &mut pool).is_none());
    let mut other = Pool::new(0, 0x4000);
    let none = Scratchpad::new(0, &mut other).unwrap();
    assert_eq!(none.len(), 0);
}

#[test]
fn events_are_polled_through_the_dequeue_pointer() {
    let mut registers = Registers::new();
    let mut pool = Pool::new(0x10000, POOL_SIZE);
    let mut controller = Controller::new(0x1000, 4, 100);
    let (ring, first) = controller.ring(&mut pool);
    let mut ring = ring.unwrap();
    assert_eq!(drive(&mut controller, &mut pool, &mut registers, first), Step::Done);
    assert_eq!(ring.read_dequeue_pointer(), Request::ReadDequeuePointer);
    let dequeue = match registers.perform(ring.read_dequeue_pointer()) {
        Reply::Value(pointer) => pointer,
        other => panic!("{:?}", other),
    };
    assert_eq!(ring.process_event(dequeue), None);
    let event = EventTrb { parameter: 0x0100_0000, status: 0, control: (34 << 10) | 1 };
    assert!(ring.write_at(dequeue, event));
    let (decoded, next) = ring.process_event(dequeue).unwrap();
    assert_eq!(decoded, Ok(EventTrbPayload::PortStatusChange(event)));
    assert_eq!(ring.write_dequeue_pointer(next), Request::SetDequeuePointer(dequeue + 16));
    registers.perform(ring.write_dequeue_pointer(next));
    assert_eq!(registers.erdp, dequeue + 16);
}
