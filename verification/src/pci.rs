//! The PCI configuration window and the search for the xHCI controller in it.
//!
//! Each function of each device of each bus has a 4 KiB header at
//! `base + (bus << 20) + (device << 15) + (function << 12)`. A [`Scan`]
//! walks the headers in that order: it says which header to read next and is
//! handed what was read.

use vstd::prelude::*;

verus! {

/// Bits of the command word of a configuration header.
pub const COMMAND_INTERRUPT_DISABLE: u16 = 0x400;

pub const COMMAND_FAST_B2B_ENABLE: u16 = 0x200;

pub const COMMAND_SERR_ENABLE: u16 = 0x100;

pub const COMMAND_PARITY_ERROR_RESPONSE: u16 = 0x40;

pub const COMMAND_VGA_PALETTE_SNOOP: u16 = 0x20;

pub const COMMAND_MEMORY_WRITE_INVALIDATE_ENABLE: u16 = 0x10;

pub const COMMAND_SPECIAL_CYCLES: u16 = 0x8;

pub const COMMAND_BUS_MASTER: u16 = 0x4;

pub const COMMAND_MEMORY_SPACE: u16 = 0x2;

pub const COMMAND_IO_SPACE: u16 = 0x1;

/// Class value of an xHCI controller: serial bus, USB, xHCI.
pub const XHCI_CLASS: u32 = 0x0c0330;

/// Vendor number that an absent function reads as.
pub const NO_VENDOR: u16 = 0xffff;

/// Bytes between the headers of two functions.
pub const FUNCTION_STRIDE: u64 = 0x1000;

/// Bytes between the headers of two devices.
pub const DEVICE_STRIDE: u64 = 0x8000;

/// Bytes between the headers of two buses.
pub const BUS_STRIDE: u64 = 0x10_0000;

/// Functions of a device.
pub const FUNCTIONS: usize = 8;

/// Devices of a bus.
pub const DEVICES: usize = 32;

/// The start of a configuration header.
#[derive(Clone, Copy, Debug, PartialEq, Eq)]
pub struct Descriptor {
    pub vendor_id: u16,
    pub device_id: u16,
    pub command: u16,
    pub status: u16,
    pub revision_id: u8,
    pub prog_if: u8,
    pub sub_class: u8,
    pub class_code: u8,
    pub cache_line_size: u8,
    pub latency_timer: u8,
    pub header_type: u8,
    pub bist: u8,
    pub bar0: u32,
    pub bar1: u32,
    pub bar2: u32,
    pub bar3: u32,
    pub bar4: u32,
    pub bar5: u32,
}

/// Two 32-bit registers as one 64-bit number, `high` above `low`.
pub open spec fn joined(high: u32, low: u32) -> int {
    high * 0x1_0000_0000 + low
}

/// Joins two registers.
fn join(high: u32, low: u32) -> (r: u64)
    ensures
        r == joined(high, low),
{
    let r: u64 = ((high as u64) << 32) | (low as u64);
    assert(((high as u64) << 32) | (low as u64) == (high as u64) * 0x1_0000_0000 + (low as u64))
        by (bit_vector);
    r
}

impl Descriptor {
    /// Class code, subclass and programming interface as one number.
    pub open spec fn spec_class(self) -> int {
        self.class_code * 0x1_0000 + self.sub_class * 0x100 + self.prog_if
    }

    /// Whether a function answers at this header.
    pub open spec fn spec_is_valid(self) -> bool {
        self.vendor_id != NO_VENDOR
    }

    /// Whether this is the header of an xHCI controller.
    pub open spec fn is_xhci(self) -> bool {
        self.spec_is_valid() && self.spec_class() == XHCI_CLASS
    }

    /// The address of the registers: the first two base address registers
    /// joined, without the four flag bits.
    pub open spec fn spec_mmio_base(self) -> u64 {
        (joined(self.bar1, self.bar0) as u64) & 0xffff_ffff_ffff_fff0
    }

    /// Class code, subclass and programming interface as one number.
    pub fn class(&self) -> (r: u32)
        ensures
            r == self.spec_class(),
    {
        let c: u8 = self.class_code;
        let s: u8 = self.sub_class;
        assert(((c as u32) << 16) == (c as u32) * 0x1_0000) by (bit_vector);
        assert(((s as u32) << 8) == (s as u32) * 0x100) by (bit_vector);
        ((self.class_code as u32) << 16) + ((self.sub_class as u32) << 8) + (self.prog_if as u32)
    }

    /// Base address registers 0 and 1 as one address.
    pub fn bar64_01(&self) -> (r: u64)
        ensures
            r == joined(self.bar1, self.bar0),
    {
        join(self.bar1, self.bar0)
    }

    /// Base address registers 2 and 3 as one address.
    pub fn bar64_23(&self) -> (r: u64)
        ensures
            r == joined(self.bar3, self.bar2),
    {
        join(self.bar3, self.bar2)
    }

    /// Base address registers 4 and 5 as one address.
    pub fn bar64_45(&self) -> (r: u64)
        ensures
            r == joined(self.bar5, self.bar4),
    {
        join(self.bar5, self.bar4)
    }

    /// Whether a function answers at this header.
    pub fn is_valid(&self) -> (r: bool)
        ensures
            r == self.spec_is_valid(),
    {
        self.vendor_id != NO_VENDOR
    }

    /// The address of the controller's registers.
    pub fn mmio_base(&self) -> (r: u64)
        ensures
            r == self.spec_mmio_base(),
    {
        self.bar64_01() & 0xffff_ffff_ffff_fff0
    }

    /// The command word with access through memory space switched on, which
    /// has to be written before the registers are used.
    pub fn command_with_memory_space(&self) -> (r: u16)
        ensures
            r == self.command | COMMAND_MEMORY_SPACE,
    {
        self.command | COMMAND_MEMORY_SPACE
    }
}

/// One entry of the firmware's table of configuration windows.
#[derive(Clone, Copy, Debug, PartialEq, Eq)]
pub struct McfgEntry {
    pub ptr: u64,
    pub segment: u16,
    pub bus_start: u8,
    pub bus_end: u8,
}

/// A function of a device, by the address of its header.
#[derive(Clone, Copy, Debug, PartialEq, Eq)]
pub struct Function {
    pub address: u64,
}

/// A device of a bus, by the address of its first header.
#[derive(Clone, Copy, Debug, PartialEq, Eq)]
pub struct Device {
    pub address: u64,
}

/// A bus, by the address of its first header.
#[derive(Clone, Copy, Debug, PartialEq, Eq)]
pub struct Bus {
    pub address: u64,
}

/// The functions of a device.
#[derive(Clone, Copy, Debug)]
pub struct DeviceIter {
    address: u64,
    len: usize,
    cursor: usize,
}

/// The devices of a bus.
#[derive(Clone, Copy, Debug)]
pub struct BusIter {
    address: u64,
    len: usize,
    cursor: usize,
}

/// The buses of a configuration window.
#[derive(Clone, Copy, Debug)]
pub struct ConfigurationIter {
    address: u64,
    len: usize,
    cursor: usize,
}

impl Device {
    /// The headers of all the device's functions lie in the address space.
    pub open spec fn wf(&self) -> bool {
        self.address + FUNCTIONS * FUNCTION_STRIDE <= u64::MAX
    }

    /// The device's eight functions, from the first.
    pub fn iter(&self) -> (r: DeviceIter)
        requires
            self.wf(),
        ensures
            r.wf(),
            r.base() == self.address,
            r.position() == 0,
            r.count() == FUNCTIONS,
    {
        DeviceIter { address: self.address, len: FUNCTIONS, cursor: 0 }
    }
}

impl DeviceIter {
    /// The cursor is not past the end and every header lies in the address
    /// space.
    pub closed spec fn wf(&self) -> bool {
        &&& self.cursor <= self.len
        &&& self.address + self.len * FUNCTION_STRIDE <= u64::MAX
    }

    /// Address of the first function's header.
    pub closed spec fn base(&self) -> int {
        self.address as int
    }

    /// Index of the function that comes next.
    pub closed spec fn position(&self) -> int {
        self.cursor as int
    }

    /// Number of functions, those already passed included.
    pub closed spec fn count(&self) -> int {
        self.len as int
    }

    /// The next function, or nothing after the last.
    pub fn next(&mut self) -> (r: Option<Function>)
        requires
            old(self).wf(),
        ensures
            final(self).wf(),
            final(self).base() == old(self).base(),
            final(self).count() == old(self).count(),
            old(self).position() < old(self).count() ==> r == Some(
                Function { address: (old(self).base() + old(self).position() * 0x1000) as u64 },
            ) && final(self).position() == old(self).position() + 1,
            old(self).position() >= old(self).count() ==> r.is_none() && final(self).position()
                == old(self).position(),
    {
        if self.cursor < self.len {
            assert(self.cursor * 0x1000 <= self.len * 0x1000) by (nonlinear_arith)
                requires
                    self.cursor <= self.len,
            ;
            let address: u64 = self.address + (self.cursor as u64) * FUNCTION_STRIDE;
            self.cursor += 1;
            Some(Function { address })
        } else {
            None
        }
    }
}

impl Bus {
    /// The headers of all the bus's devices lie in the address space.
    pub open spec fn wf(&self) -> bool {
        self.address + BUS_STRIDE <= u64::MAX
    }

    /// The bus's 32 devices, from the first.
    pub fn iter(&self) -> (r: BusIter)
        requires
            self.wf(),
        ensures
            r.wf(),
            r.base() == self.address,
            r.position() == 0,
            r.count() == DEVICES,
    {
        BusIter { address: self.address, len: DEVICES, cursor: 0 }
    }
}

impl BusIter {
    /// The cursor is not past the end and every header lies in the address
    /// space.
    pub closed spec fn wf(&self) -> bool {
        &&& self.cursor <= self.len
        &&& self.address + self.len * DEVICE_STRIDE <= u64::MAX
    }

    /// Address of the first device's header.
    pub closed spec fn base(&self) -> int {
        self.address as int
    }

    /// Index of the device that comes next.
    pub closed spec fn position(&self) -> int {
        self.cursor as int
    }

    /// Number of devices, those already passed included.
    pub closed spec fn count(&self) -> int {
        self.len as int
    }

    /// The next device, or nothing after the last.
    pub fn next(&mut self) -> (r: Option<Device>)
        requires
            old(self).wf(),
        ensures
            final(self).wf(),
            final(self).base() == old(self).base(),
            final(self).count() == old(self).count(),
            old(self).position() < old(self).count() ==> r == Some(
                Device { address: (old(self).base() + old(self).position() * 0x8000) as u64 },
            ) && r.unwrap().wf() && final(self).position() == old(self).position() + 1,
            old(self).position() >= old(self).count() ==> r.is_none() && final(self).position()
                == old(self).position(),
    {
        if self.cursor < self.len {
            assert((self.cursor + 1) * 0x8000 <= self.len * 0x8000) by (nonlinear_arith)
                requires
                    self.cursor < self.len,
            ;
            let address: u64 = self.address + (self.cursor as u64) * DEVICE_STRIDE;
            self.cursor += 1;
            Some(Device { address })
        } else {
            None
        }
    }
}

/// A configuration window: the headers of the buses from `bus_start` up to,
/// but not including, `bus_end`.
#[derive(Clone, Copy, Debug)]
pub struct Configuration {
    address: u64,
    bus_start: usize,
    bus_end: usize,
}

impl Configuration {
    /// The bus range is in order and the window lies in the address space.
    pub closed spec fn wf(&self) -> bool {
        &&& self.bus_start <= self.bus_end
        &&& self.address + (self.bus_end - self.bus_start) * BUS_STRIDE <= u64::MAX
    }

    /// Address of the first bus's first header.
    pub closed spec fn base(&self) -> int {
        self.address as int
    }

    /// Number of buses in the window.
    pub closed spec fn buses(&self) -> int {
        self.bus_end - self.bus_start
    }

    /// Whether `entry` describes a window that can be walked: its bus range
    /// is in order and the window lies in the address space.
    pub open spec fn accepts(entry: McfgEntry) -> bool {
        &&& entry.bus_start <= entry.bus_end
        &&& entry.ptr + (entry.bus_end - entry.bus_start) * BUS_STRIDE <= u64::MAX
    }

    /// The window that `entry` describes, or nothing where it cannot be walked.
    pub fn new(entry: McfgEntry) -> (r: Option<Configuration>)
        ensures
            r.is_some() == Self::accepts(entry),
            r.is_some() ==> r.unwrap().wf() && r.unwrap().base() == entry.ptr && r.unwrap().buses()
                == entry.bus_end - entry.bus_start,
    {
        if entry.bus_start > entry.bus_end {
            return None;
        }
        let buses: u64 = (entry.bus_end - entry.bus_start) as u64;
        let window: u64 = buses * BUS_STRIDE;
        if entry.ptr > u64::MAX - window {
            return None;
        }
        Some(
            Configuration {
                address: entry.ptr,
                bus_start: entry.bus_start as usize,
                bus_end: entry.bus_end as usize,
            },
        )
    }

    /// The window's buses, from the first.
    pub fn iter(&self) -> (r: ConfigurationIter)
        requires
            self.wf(),
        ensures
            r.wf(),
            r.base() == self.base(),
            r.position() == 0,
            r.count() == self.buses(),
    {
        ConfigurationIter { address: self.address, len: self.bus_end - self.bus_start, cursor: 0 }
    }
}

impl ConfigurationIter {
    /// The cursor is not past the end and every header lies in the address
    /// space.
    pub closed spec fn wf(&self) -> bool {
        &&& self.cursor <= self.len
        &&& self.address + self.len * BUS_STRIDE <= u64::MAX
    }

    /// Address of the first bus's first header.
    pub closed spec fn base(&self) -> int {
        self.address as int
    }

    /// Index of the bus that comes next.
    pub closed spec fn position(&self) -> int {
        self.cursor as int
    }

    /// Number of buses, those already passed included.
    pub closed spec fn count(&self) -> int {
        self.len as int
    }

    /// The next bus, or nothing after the last.
    pub fn next(&mut self) -> (r: Option<Bus>)
        requires
            old(self).wf(),
        ensures
            final(self).wf(),
            final(self).base() == old(self).base(),
            final(self).count() == old(self).count(),
            old(self).position() < old(self).count() ==> r == Some(
                Bus { address: (old(self).base() + old(self).position() * 0x10_0000) as u64 },
            ) && r.unwrap().wf() && final(self).position() == old(self).position() + 1,
            old(self).position() >= old(self).count() ==> r.is_none() && final(self).position()
                == old(self).position(),
    {
        if self.cursor < self.len {
            assert((self.cursor + 1) * 0x10_0000 <= self.len * 0x10_0000) by (nonlinear_arith)
                requires
                    self.cursor < self.len,
            ;
            let address: u64 = self.address + (self.cursor as u64) * BUS_STRIDE;
            self.cursor += 1;
            Some(Bus { address })
        } else {
            None
        }
    }
}

/// Which kind of header a scan has asked for.
#[derive(Clone, Copy, Debug, PartialEq, Eq)]
pub enum Level {
    /// The first header of a bus: an absent vendor rules the whole bus out.
    Bus,
    /// The first header of a device: an absent vendor rules the device out.
    Device,
    /// The header of a function.
    Function,
}

/// The xHCI controller that a scan found.
#[derive(Clone, Copy, Debug, PartialEq, Eq)]
pub struct Xhc {
    /// Address of the function's configuration header.
    pub address: u64,
    /// Address of the controller's registers.
    pub mmio_base: u64,
    /// The command word to write to the header before the registers are used.
    pub command: u16,
}

/// What the caller of a scan does next.
#[derive(Clone, Copy, Debug, PartialEq, Eq)]
pub enum ScanStep {
    /// Read the header at this address and hand it to `advance`.
    Read(u64),
    /// The controller was found; the scan is over.
    Found(Xhc),
    /// No function of the window is an xHCI controller; the scan is over.
    Exhausted,
}

/// A scan, seen from outside.
pub struct ScanView {
    pub base: int,
    pub buses: int,
    pub bus: int,
    pub device: int,
    pub function: int,
    pub level: Level,
    pub done: bool,
}

impl ScanView {
    /// Address of the header that the scan stands at.
    pub open spec fn address(self) -> int {
        self.base + self.bus * 0x10_0000 + self.device * 0x8000 + self.function * 0x1000
    }

    /// The scan stands inside its window.
    pub open spec fn wf(self) -> bool {
        &&& 0 <= self.base
        &&& 0 <= self.buses
        &&& self.base + self.buses * 0x10_0000 <= u64::MAX
        &&& !self.done ==> {
            &&& 0 <= self.bus < self.buses
            &&& 0 <= self.device < 32
            &&& 0 <= self.function < 8
            &&& self.level == Level::Bus ==> self.device == 0
            &&& self.level != Level::Function ==> self.function == 0
        }
    }

    /// The place of the scan's header in the order in which headers are
    /// asked for: bus by bus, device by device, function by function, and at
    /// one address first for the bus, then for the device, then for the
    /// function.
    pub open spec fn rank(self) -> int {
        ((self.bus * 32 + self.device) * 8 + self.function) * 3 + (match self.level {
            Level::Bus => 0int,
            Level::Device => 1int,
            Level::Function => 2int,
        })
    }

    /// The scan goes to a header and asks for it.
    pub open spec fn at(self, bus: int, device: int, function: int, level: Level) -> (
        ScanView,
        ScanStep,
    ) {
        let next = ScanView { bus, device, function, level, ..self };
        (next, ScanStep::Read(next.address() as u64))
    }

    /// The scan ends without a controller.
    pub open spec fn exhausted(self) -> (ScanView, ScanStep) {
        (ScanView { done: true, ..self }, ScanStep::Exhausted)
    }

    /// On to the next bus, if there is one.
    pub open spec fn next_bus(self) -> (ScanView, ScanStep) {
        if self.bus + 1 < self.buses {
            self.at(self.bus + 1, 0, 0, Level::Bus)
        } else {
            self.exhausted()
        }
    }

    /// On to the next device of the bus, or to the next bus.
    pub open spec fn next_device(self) -> (ScanView, ScanStep) {
        if self.device + 1 < 32 {
            self.at(self.bus, self.device + 1, 0, Level::Device)
        } else {
            self.next_bus()
        }
    }

    /// On to the next function of the device, or to the next device.
    pub open spec fn next_function(self) -> (ScanView, ScanStep) {
        if self.function + 1 < 8 {
            self.at(self.bus, self.device, self.function + 1, Level::Function)
        } else {
            self.next_device()
        }
    }

    /// The controller that `header`, read at the scan's place, describes.
    pub open spec fn controller(self, header: Descriptor) -> Xhc {
        Xhc {
            address: self.address() as u64,
            mmio_base: header.spec_mmio_base(),
            command: header.command | COMMAND_MEMORY_SPACE,
        }
    }

    /// The scan and the next step after `header` was read at the scan's place.
    pub open spec fn advanced(self, header: Descriptor) -> (ScanView, ScanStep) {
        if self.done {
            (self, ScanStep::Exhausted)
        } else {
            match self.level {
                Level::Bus => if header.spec_is_valid() {
                    self.at(self.bus, 0, 0, Level::Device)
                } else {
                    self.next_bus()
                },
                Level::Device => if header.spec_is_valid() {
                    self.at(self.bus, self.device, 0, Level::Function)
                } else {
                    self.next_device()
                },
                Level::Function => if header.is_xhci() {
                    (ScanView { done: true, ..self }, ScanStep::Found(self.controller(header)))
                } else {
                    self.next_function()
                },
            }
        }
    }
}

/// The search for the first xHCI controller of a configuration window.
#[derive(Clone, Copy, Debug)]
pub struct Scan {
    configuration: Configuration,
    bus: usize,
    device: usize,
    function: usize,
    level: Level,
    done: bool,
}

impl View for Scan {
    type V = ScanView;

    closed spec fn view(&self) -> ScanView {
        ScanView {
            base: self.configuration.base(),
            buses: self.configuration.buses(),
            bus: self.bus as int,
            device: self.device as int,
            function: self.function as int,
            level: self.level,
            done: self.done,
        }
    }
}

impl Scan {
    /// The window can be walked and the scan stands inside it.
    pub closed spec fn wf(&self) -> bool {
        self.configuration.wf() && self@.wf()
    }

    /// A scan of `configuration` and its first step: the first header of the
    /// first bus, or the end at once for a window without buses.
    pub fn new(configuration: Configuration) -> (r: (Scan, ScanStep))
        requires
            configuration.wf(),
        ensures
            r.0.wf(),
            r.0@ == (ScanView {
                base: configuration.base(),
                buses: configuration.buses(),
                bus: 0,
                device: 0,
                function: 0,
                level: Level::Bus,
                done: configuration.buses() == 0,
            }),
            r.1 == (if configuration.buses() == 0 {
                ScanStep::Exhausted
            } else {
                ScanStep::Read(configuration.base() as u64)
            }),
    {
        let empty: bool = configuration.bus_end == configuration.bus_start;
        let scan = Scan {
            configuration,
            bus: 0,
            device: 0,
            function: 0,
            level: Level::Bus,
            done: empty,
        };
        if empty {
            (scan, ScanStep::Exhausted)
        } else {
            (scan, ScanStep::Read(configuration.address))
        }
    }

    /// Whether the scan is over.
    pub fn is_done(&self) -> (r: bool)
        ensures
            r == self@.done,
    {
        self.done
    }

    /// Goes to a header and asks for it.
    fn go(&mut self, bus: usize, device: usize, function: usize, level: Level) -> (r: ScanStep)
        requires
            old(self).wf(),
            bus < old(self)@.buses,
            device < 32,
            function < 8,
            level == Level::Bus ==> device == 0,
            level != Level::Function ==> function == 0,
            !old(self)@.done,
        ensures
            final(self).wf(),
            (final(self)@, r) == old(self)@.at(bus as int, device as int, function as int, level),
    {
        assert(bus * 0x10_0000 + 0x10_0000 <= self.configuration.buses() * 0x10_0000)
            by (nonlinear_arith)
            requires
                bus < self.configuration.buses(),
        ;
        self.bus = bus;
        self.device = device;
        self.function = function;
        self.level = level;
        let address: u64 = self.configuration.address + (bus as u64) * BUS_STRIDE + (device as u64)
            * DEVICE_STRIDE + (function as u64) * FUNCTION_STRIDE;
        ScanStep::Read(address)
    }

    /// Ends the scan without a controller.
    fn exhaust(&mut self) -> (r: ScanStep)
        requires
            old(self).wf(),
        ensures
            final(self).wf(),
            (final(self)@, r) == old(self)@.exhausted(),
    {
        self.done = true;
        ScanStep::Exhausted
    }

    /// Goes on to the next bus.
    fn next_bus(&mut self) -> (r: ScanStep)
        requires
            old(self).wf(),
            !old(self)@.done,
        ensures
            final(self).wf(),
            (final(self)@, r) == old(self)@.next_bus(),
    {
        if self.bus + 1 < self.configuration.bus_end - self.configuration.bus_start {
            self.go(self.bus + 1, 0, 0, Level::Bus)
        } else {
            self.exhaust()
        }
    }

    /// Goes on to the next device.
    fn next_device(&mut self) -> (r: ScanStep)
        requires
            old(self).wf(),
            !old(self)@.done,
        ensures
            final(self).wf(),
            (final(self)@, r) == old(self)@.next_device(),
    {
        if self.device + 1 < DEVICES {
            self.go(self.bus, self.device + 1, 0, Level::Device)
        } else {
            self.next_bus()
        }
    }

    /// Goes on to the next function.
    fn next_function(&mut self) -> (r: ScanStep)
        requires
            old(self).wf(),
            !old(self)@.done,
        ensures
            final(self).wf(),
            (final(self)@, r) == old(self)@.next_function(),
    {
        if self.function + 1 < FUNCTIONS {
            self.go(self.bus, self.device, self.function + 1, Level::Function)
        } else {
            self.next_device()
        }
    }

    /// Takes the header that was read and says what to do next. A bus or a
    /// device whose first header shows no vendor is passed over; the first
    /// function that shows a vendor and the xHCI class ends the scan.
    pub fn advance(&mut self, header: &Descriptor) -> (r: ScanStep)
        requires
            old(self).wf(),
        ensures
            final(self).wf(),
            (final(self)@, r) == old(self)@.advanced(*header),
    {
        if self.done {
            return ScanStep::Exhausted;
        }
        match self.level {
            Level::Bus => {
                if header.is_valid() {
                    self.go(self.bus, 0, 0, Level::Device)
                } else {
                    self.next_bus()
                }
            },
            Level::Device => {
                if header.is_valid() {
                    self.go(self.bus, self.device, 0, Level::Function)
                } else {
                    self.next_device()
                }
            },
            Level::Function => {
                if header.is_valid() && header.class() == XHCI_CLASS {
                    assert(self.bus * 0x10_0000 + 0x10_0000 <= self.configuration.buses()
                        * 0x10_0000) by (nonlinear_arith)
                        requires
                            self.bus < self.configuration.buses(),
                    ;
                    let address: u64 = self.configuration.address + (self.bus as u64) * BUS_STRIDE
                        + (self.device as u64) * DEVICE_STRIDE + (self.function as u64)
                        * FUNCTION_STRIDE;
                    self.done = true;
                    ScanStep::Found(
                        Xhc {
                            address,
                            mmio_base: header.mmio_base(),
                            command: header.command_with_memory_space(),
                        },
                    )
                } else {
                    self.next_function()
                }
            },
        }
    }
}

/// A scan reports a controller only for a function that shows a vendor and
/// the xHCI class; what it reports is the address of that function's header,
/// its first two base address registers joined without the flag bits, and
/// its command word with memory space switched on. The scan is over then.
pub proof fn lemma_found_is_xhci(scan: ScanView, header: Descriptor)
    ensures
        scan.advanced(header).1 is Found <==> !scan.done && scan.level == Level::Function
            && header.is_xhci(),
        scan.advanced(header).1 is Found ==> scan.advanced(header).1->Found_0 == (Xhc {
            address: scan.address() as u64,
            mmio_base: header.spec_mmio_base(),
            command: header.command | COMMAND_MEMORY_SPACE,
        }) && scan.advanced(header).0.done,
{
}

/// The address of the registers has its four flag bits clear, and the
/// command word that goes with it has memory space switched on.
pub proof fn lemma_controller_is_usable(scan: ScanView, header: Descriptor)
    ensures
        scan.controller(header).mmio_base % 16 == 0,
        scan.controller(header).command & COMMAND_MEMORY_SPACE == COMMAND_MEMORY_SPACE,
{
    let joint = joined(header.bar1, header.bar0) as u64;
    assert((joint & 0xffff_ffff_ffff_fff0) % 16 == 0) by (bit_vector);
    let command = header.command;
    assert((command | 0x2u16) & 0x2u16 == 0x2u16) by (bit_vector);
}

/// Every header that a scan asks for lies inside the configuration window,
/// on a multiple of the function stride from its base.
pub proof fn lemma_scan_stays_in_window(scan: ScanView, header: Descriptor)
    requires
        scan.wf(),
    ensures
        scan.advanced(header).0.wf(),
        scan.advanced(header).1 is Read ==> ({
            let address = scan.advanced(header).1->Read_0;
            &&& address == scan.advanced(header).0.address()
            &&& scan.base <= address < scan.base + scan.buses * 0x10_0000
            &&& (address - scan.base) % 0x1000 == 0
        }),
{
    let next = scan.advanced(header).0;
    if scan.advanced(header).1 is Read {
        assert(next.bus * 0x10_0000 + 0x10_0000 <= next.buses * 0x10_0000) by (nonlinear_arith)
            requires
                0 <= next.bus < next.buses,
        ;
    }
}

/// A scan only moves forward: every header it asks for comes later in the
/// order of the window than the one before, and lies inside the window.
pub proof fn lemma_scan_makes_progress(scan: ScanView, header: Descriptor)
    requires
        scan.wf(),
        !scan.done,
    ensures
        0 <= scan.rank() < scan.buses * 768,
        scan.advanced(header).1 is Read ==> scan.rank() < scan.advanced(header).0.rank()
            && !scan.advanced(header).0.done,
{
    assert(scan.bus * 768 + 768 <= scan.buses * 768) by (nonlinear_arith)
        requires
            0 <= scan.bus < scan.buses,
    ;
}

/// What a scan ends with when the header at each address is what `headers`
/// tells, and the scan may read `reads` headers: the step after the last
/// header read.
pub open spec fn run(
    scan: ScanView,
    step: ScanStep,
    headers: spec_fn(u64) -> Descriptor,
    reads: nat,
) -> ScanStep
    decreases reads,
{
    match step {
        ScanStep::Read(address) => if reads == 0 {
            step
        } else {
            let next = scan.advanced(headers(address));
            run(next.0, next.1, headers, (reads - 1) as nat)
        },
        _ => step,
    }
}

/// A scan comes to an end, after no more reads than the window has places
/// left in its order. Where it ends with a controller, the header at the
/// address it reports shows a vendor and the xHCI class, and the address of
/// the registers and the command word are taken from that header.
pub proof fn lemma_scan_ends(scan: ScanView, headers: spec_fn(u64) -> Descriptor, reads: nat)
    requires
        scan.wf(),
        !scan.done,
        reads >= scan.buses * 768 - scan.rank(),
    ensures
        !(run(scan, ScanStep::Read(scan.address() as u64), headers, reads) is Read),
        run(scan, ScanStep::Read(scan.address() as u64), headers, reads) is Found ==> ({
            let xhc = run(scan, ScanStep::Read(scan.address() as u64), headers, reads)->Found_0;
            &&& headers(xhc.address).is_xhci()
            &&& xhc.mmio_base == headers(xhc.address).spec_mmio_base()
            &&& xhc.command == headers(xhc.address).command | COMMAND_MEMORY_SPACE
            &&& scan.base <= xhc.address < scan.base + scan.buses * 0x10_0000
        }),
    decreases reads,
{
    let header = headers(scan.address() as u64);
    let next = scan.advanced(header);
    lemma_scan_makes_progress(scan, header);
    lemma_scan_stays_in_window(scan, header);
    lemma_found_is_xhci(scan, header);
    assert(scan.bus * 0x10_0000 + 0x10_0000 <= scan.buses * 0x10_0000) by (nonlinear_arith)
        requires
            0 <= scan.bus < scan.buses,
    ;
    if next.1 is Read {
        lemma_scan_ends(next.0, headers, (reads - 1) as nat);
    }
}

/// Address of the header of function `f` of device `d` of bus `b` in the
/// window that starts at `base`.
pub open spec fn header_address(base: int, b: int, d: int, f: int) -> u64 {
    (base + b * 0x10_0000 + d * 0x8000 + f * 0x1000) as u64
}

/// Whether `(b, d, f)` names a function of a window of `buses` buses.
pub open spec fn in_window(buses: int, b: int, d: int, f: int) -> bool {
    0 <= b < buses && 0 <= d < 32 && 0 <= f < 8
}

/// Whether function `(b, d, f)` comes before function `(b2, d2, f2)`.
pub open spec fn comes_before(b: int, d: int, f: int, b2: int, d2: int, f2: int) -> bool {
    b < b2 || (b == b2 && (d < d2 || (d == d2 && f < f2)))
}

/// Whether an xHCI controller answers as function `(b, d, f)`: the first
/// header of its bus and the first header of its device show a vendor, and
/// its own header shows a vendor and the xHCI class.
pub open spec fn answers(
    base: int,
    headers: spec_fn(u64) -> Descriptor,
    b: int,
    d: int,
    f: int,
) -> bool {
    &&& headers(header_address(base, b, 0, 0)).spec_is_valid()
    &&& headers(header_address(base, b, d, 0)).spec_is_valid()
    &&& headers(header_address(base, b, d, f)).is_xhci()
}

/// Whether no xHCI controller answers as a function of the window that
/// comes before `(b2, d2, f2)`.
pub open spec fn none_before(
    base: int,
    buses: int,
    headers: spec_fn(u64) -> Descriptor,
    b2: int,
    d2: int,
    f2: int,
) -> bool {
    forall|b: int, d: int, f: int|
        in_window(buses, b, d, f) && comes_before(b, d, f, b2, d2, f2) ==> !#[trigger] answers(
            base,
            headers,
            b,
            d,
            f,
        )
}

/// Whether `(b, d, f)` is the first function of the window as which an xHCI
/// controller answers.
pub open spec fn first_controller(
    base: int,
    buses: int,
    headers: spec_fn(u64) -> Descriptor,
    b: int,
    d: int,
    f: int,
) -> bool {
    &&& in_window(buses, b, d, f)
    &&& answers(base, headers, b, d, f)
    &&& none_before(base, buses, headers, b, d, f)
}

/// What a scan has established when it asks for a header: no controller
/// answers before its place, and the headers that led it to its place show
/// a vendor.
pub open spec fn searched(scan: ScanView, headers: spec_fn(u64) -> Descriptor) -> bool {
    &&& none_before(scan.base, scan.buses, headers, scan.bus, scan.device, scan.function)
    &&& scan.level != Level::Bus ==> headers(
        header_address(scan.base, scan.bus, 0, 0),
    ).spec_is_valid()
    &&& scan.level == Level::Function ==> headers(
        header_address(scan.base, scan.bus, scan.device, 0),
    ).spec_is_valid()
}

/// One step of a scan keeps what the scan has established, reports a
/// controller only at the first function as which one answers, and ends
/// without one only when none answers in the whole window.
pub proof fn lemma_scan_step_is_thorough(scan: ScanView, headers: spec_fn(u64) -> Descriptor)
    requires
        scan.wf(),
        !scan.done,
        searched(scan, headers),
    ensures
        ({
            let next = scan.advanced(headers(scan.address() as u64));
            &&& next.1 is Read ==> searched(next.0, headers)
            &&& next.1 is Found ==> first_controller(
                scan.base,
                scan.buses,
                headers,
                scan.bus,
                scan.device,
                scan.function,
            ) && next.1->Found_0.address == header_address(
                scan.base,
                scan.bus,
                scan.device,
                scan.function,
            )
            &&& next.1 is Exhausted ==> none_before(scan.base, scan.buses, headers, scan.buses, 0, 0)
        }),
{
    let header = headers(scan.address() as u64);
    let next = scan.advanced(header);
    assert(scan.address() as u64 == header_address(
        scan.base,
        scan.bus,
        scan.device,
        scan.function,
    ));
    assert forall|b: int, d: int, f: int|
        in_window(scan.buses, b, d, f) && comes_before(
            b,
            d,
            f,
            next.0.bus,
            next.0.device,
            next.0.function,
        ) && !(next.1 is Exhausted) implies !#[trigger] answers(scan.base, headers, b, d, f) by {
        if comes_before(b, d, f, scan.bus, scan.device, scan.function) {
        } else {
            // A place that the step passed over: it lies on the bus, or on
            // the device, or is the function, whose header ruled it out.
            assert(b == scan.bus);
            if scan.level == Level::Bus {
                assert(!header.spec_is_valid());
            } else if scan.level == Level::Device {
                assert(d == scan.device);
                assert(!header.spec_is_valid());
            } else {
                assert(d == scan.device && f == scan.function);
                assert(!header.is_xhci());
            }
        }
    }
    if next.1 is Exhausted {
        assert forall|b: int, d: int, f: int|
            in_window(scan.buses, b, d, f) && comes_before(
                b,
                d,
                f,
                scan.buses,
                0,
                0,
            ) implies !#[trigger] answers(scan.base, headers, b, d, f) by {
            if comes_before(b, d, f, scan.bus, scan.device, scan.function) {
            } else {
                assert(b == scan.bus);
                if scan.level == Level::Bus {
                    assert(!header.spec_is_valid());
                } else if scan.level == Level::Device {
                    assert(d == scan.device);
                    assert(!header.spec_is_valid());
                } else {
                    assert(d == scan.device && f == scan.function);
                    assert(!header.is_xhci());
                }
            }
        }
    }
}

/// A scan finds the first controller of its window: where it ends with a
/// controller, that is the first function as which an xHCI controller
/// answers, and where it ends without one, none answers in the window.
pub proof fn lemma_scan_finds_the_first(
    scan: ScanView,
    headers: spec_fn(u64) -> Descriptor,
    reads: nat,
)
    requires
        scan.wf(),
        !scan.done,
        searched(scan, headers),
        reads >= scan.buses * 768 - scan.rank(),
    ensures
        ({
            let end = run(scan, ScanStep::Read(scan.address() as u64), headers, reads);
            &&& end is Found ==> exists|b: int, d: int, f: int|
                #[trigger] first_controller(scan.base, scan.buses, headers, b, d, f)
                    && end->Found_0.address == header_address(scan.base, b, d, f)
            &&& end is Exhausted ==> none_before(scan.base, scan.buses, headers, scan.buses, 0, 0)
        }),
    decreases reads,
{
    let header = headers(scan.address() as u64);
    let next = scan.advanced(header);
    lemma_scan_makes_progress(scan, header);
    lemma_scan_stays_in_window(scan, header);
    lemma_scan_step_is_thorough(scan, headers);
    assert(reads > 0);
    assert(run(scan, ScanStep::Read(scan.address() as u64), headers, reads) == run(
        next.0,
        next.1,
        headers,
        (reads - 1) as nat,
    ));
    assert(next.0.base == scan.base && next.0.buses == scan.buses);
    if next.1 is Read {
        assert(next.1 == ScanStep::Read(next.0.address() as u64));
        lemma_scan_finds_the_first(next.0, headers, (reads - 1) as nat);
    } else if next.1 is Found {
        assert(first_controller(
            scan.base,
            scan.buses,
            headers,
            scan.bus,
            scan.device,
            scan.function,
        ));
    }
}

/// A scan that starts at the first header of its window has nothing to
/// establish yet.
pub proof fn lemma_new_scan_has_searched(scan: ScanView, headers: spec_fn(u64) -> Descriptor)
    requires
        scan.bus == 0,
        scan.device == 0,
        scan.function == 0,
        scan.level == Level::Bus,
    ensures
        searched(scan, headers),
{
}

} // verus!
