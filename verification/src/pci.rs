//! PCI configuration-space access through the legacy I/O ports
//! (`CONFIG_ADDRESS` / `CONFIG_DATA`) and the bus scan built on it.
//!
//! Port I/O stays with the caller: every scan is a small state machine
//! ([`PciScan`]) that asks for configuration dwords ([`PciAction::ReadConfig`])
//! and is resumed with the value that was read.
use vstd::prelude::*;

verus! {

/// I/O port of the `CONFIG_ADDRESS` register.
pub const K_CONFIG_ADDRESS: u16 = 0x0cf8;

/// I/O port of the `CONFIG_DATA` register.
pub const K_CONFIG_DATA: u16 = 0x0cfc;

/// Number of entries of the device table of a [`Pci`].
pub const MAX_DEVICE_NUM: usize = 32;

/// Configuration register offsets used by the scan.
pub const REG_ID: u8 = 0x00;
pub const REG_CLASS: u8 = 0x08;
pub const REG_HEADER: u8 = 0x0c;
pub const REG_BUS_NUMBERS: u8 = 0x18;

#[derive(Debug, Copy, Clone)]
pub enum PciError {
    NullError,
    InitializeValue,
}

#[derive(Copy, Clone)]
struct Device {
    bus: u8,
    device: u8,
    function: u8,
    header_type: u8,
}

#[derive(Copy, Clone)]
pub struct Pci {
    devices: [Device; 32],
    num_devices: usize,
}

/// The value written to `CONFIG_ADDRESS` to select a register: the enable bit,
/// the bus, device and function numbers shifted into place, and the register
/// offset rounded down to a dword.
pub open spec fn config_address_spec(bus: u8, device: u8, function: u8, reg_addr: u8) -> u32 {
    (1u32 << 31u32) | ((bus as u32) << 16u32) | ((device as u32) << 11u32) | ((function as u32)
        << 8u32) | ((reg_addr as u32) & 0xfcu32)
}

/// Vendor id: the low half of the identification dword.
pub open spec fn vendor_id_of(data: u32) -> u16 {
    (data & 0xffff) as u16
}

/// Device id: the high half of the identification dword.
pub open spec fn device_id_of(data: u32) -> u16 {
    (data >> 16u32) as u16
}

/// Header type: bits 16..24 of the dword at offset 0x0c.
pub open spec fn header_type_of(data: u32) -> u8 {
    (data >> 16u32) as u8
}

/// A header type describes a single-function device when bit 7 is clear.
pub open spec fn single_function_spec(header_type: u8) -> bool {
    header_type & 0x80u8 == 0
}

impl Pci {
    #[verifier::type_invariant]
    spec fn wf(self) -> bool {
        self.num_devices <= MAX_DEVICE_NUM
    }

    /// Number of occupied entries of the device table.
    pub closed spec fn device_count(self) -> nat {
        self.num_devices as nat
    }

    /// The entries of the device table: bus, device, function and header type.
    pub closed spec fn device_entries(self) -> Seq<(u8, u8, u8, u8)> {
        self.devices@.map_values(|d: Device| (d.bus, d.device, d.function, d.header_type))
    }

    /// The device table has no free entry.
    pub closed spec fn is_full(self) -> bool {
        self.num_devices == MAX_DEVICE_NUM
    }

    /// A table of 32 zeroed entries whose count is set to the table size, so
    /// the table starts out full. No method changes a table afterwards: they
    /// take it by value or by shared reference.
    pub fn new() -> (pci: Self)
        ensures
            pci.device_count() == MAX_DEVICE_NUM,
            pci.is_full(),
            pci.device_entries() == Seq::new(32, |i: int| (0u8, 0u8, 0u8, 0u8)),
    {
        let pci = Pci {
            devices: [Device { bus: 0, device: 0, function: 0, header_type: 0 }; 32],
            num_devices: MAX_DEVICE_NUM,
        };
        assert(pci.device_entries() =~= Seq::new(32, |i: int| (0u8, 0u8, 0u8, 0u8)));
        pci
    }

    /// Records a device in a copy of the table. The table is taken by value,
    /// so the caller's table is not changed; the result says whether there was
    /// room for the entry.
    pub fn add_device(self, bus: u8, device: u8, function: u8, header_type: u8) -> (r: Result<
        (),
        PciError,
    >)
        ensures
            r == (if self.is_full() {
                Err::<(), PciError>(PciError::NullError)
            } else {
                Ok::<(), PciError>(())
            }),
    {
        let mut table = self;
        proof {
            use_type_invariant(&table);
        }
        if table.num_devices == MAX_DEVICE_NUM {
            return Err(PciError::NullError);
        }
        let index = table.num_devices;
        table.devices[index] = Device { bus: bus, device: device, function: function, header_type };
        table.num_devices = table.num_devices + 1;
        Ok(())
    }

    /// Address of a configuration register.
    pub fn make_address(self, bus: u8, device: u8, function: u8, reg_addr: u8) -> (address: u32)
        ensures
            address == config_address_spec(bus, device, function, reg_addr),
    {
        (1u32 << 31u32) | ((bus as u32) << 16u32) | ((device as u32) << 11u32) | ((function as u32)
            << 8u32) | ((reg_addr as u32) & 0xfcu32)
    }

    /// Vendor id out of the dword read at offset 0x00.
    pub fn read_vendor_id(self, data: u32) -> (vendor_id: u16)
        ensures
            vendor_id == vendor_id_of(data),
            vendor_id == data % 0x10000,
    {
        assert((data & 0xffff) == data % 0x10000) by (bit_vector);
        (data & 0xffff) as u16
    }

    /// Device id out of the dword read at offset 0x00.
    pub fn read_device_id(self, data: u32) -> (device_id: u16)
        ensures
            device_id == device_id_of(data),
            device_id == data / 0x10000,
    {
        assert((data >> 16u32) == data / 0x10000) by (bit_vector);
        (data >> 16u32) as u16
    }

    /// Header type out of the dword read at offset 0x0c.
    pub fn read_header_type(self, data: u32) -> (header_type: u8)
        ensures
            header_type == header_type_of(data),
            header_type == (data / 0x10000) % 0x100,
    {
        assert(((data >> 16u32) as u8) == (data / 0x10000) % 0x100) by (bit_vector);
        let ret = data >> 16u32;
        ret as u8
    }

    /// The low half of the dword read at offset 0x08 (revision id and
    /// programming interface).
    pub fn read_class_code(self, data: u32) -> (class_code: u16)
        ensures
            class_code == data % 0x10000,
    {
        assert((data as u16) == data % 0x10000) by (bit_vector);
        data as u16
    }

    /// The low byte of the dword read at offset 0x18 (the primary bus number).
    pub fn read_bus_number(self, data: u32) -> (bus_number: u8)
        ensures
            bus_number == data % 0x100,
    {
        assert((data as u8) == data % 0x100) by (bit_vector);
        data as u8
    }

    pub fn is_single_function_device(self, header_type: u8) -> (single: bool)
        ensures
            single == single_function_spec(header_type),
            single == (header_type < 0x80),
    {
        assert((header_type & 0x80u8 == 0) == (header_type < 0x80u8)) by (bit_vector);
        (header_type & 0x80u8) == 0
    }
}

/// What a scan asks of the caller next.
#[derive(Debug, Copy, Clone)]
pub enum PciAction {
    /// Write this address to `CONFIG_ADDRESS`, read `CONFIG_DATA`, and hand
    /// the value to [`PciScan::resume`].
    ReadConfig(u32),
    /// The scan is over with this result.
    Finished(Result<(), PciError>),
    /// The scan shifted the 16-bit class code by 24 bits, which overflows; the
    /// caller stops as an overflowing shift does.
    ShiftOverflow,
}

/// Where a scan stands: which register it waits for, or how it ended.
#[derive(Debug, Copy, Clone)]
pub enum ScanStage {
    /// `scan_bus`: waiting for the identification dword of function 0 of `device`.
    BusVendor { bus: u8, device: u8 },
    /// `scan_function`: waiting for the header-type dword.
    FunctionHeader { bus: u8, device: u8, function: u8 },
    /// `scan_function`, after the device was recorded: waiting for the class dword.
    FunctionClass { bus: u8, device: u8, function: u8 },
    /// `scan_all_bus`: waiting for the header-type dword of 0:0.0.
    RootHeader,
    /// `scan_all_bus` on a multi-function host bridge: waiting for the
    /// identification dword of function `function` of 0:0.
    RootDeviceId { function: u8 },
    /// The scan ended with this result.
    Done(Result<(), PciError>),
    /// The scan ended in an overflowing shift.
    Fault,
}

/// A scan in progress: the device table it works with and where it stands.
pub struct PciScan {
    pci: Pci,
    stage: ScanStage,
}

/// The action that belongs to a stage.
pub open spec fn stage_action(stage: ScanStage) -> PciAction {
    match stage {
        ScanStage::BusVendor { bus, device } => PciAction::ReadConfig(
            config_address_spec(bus, device, 0, REG_ID),
        ),
        ScanStage::FunctionHeader { bus, device, function } => PciAction::ReadConfig(
            config_address_spec(bus, device, function, REG_HEADER),
        ),
        ScanStage::FunctionClass { bus, device, function } => PciAction::ReadConfig(
            config_address_spec(bus, device, function, REG_CLASS),
        ),
        ScanStage::RootHeader => PciAction::ReadConfig(config_address_spec(0, 0, 0, REG_HEADER)),
        ScanStage::RootDeviceId { function } => PciAction::ReadConfig(
            config_address_spec(0, 0, function, REG_ID),
        ),
        ScanStage::Done(r) => PciAction::Finished(r),
        ScanStage::Fault => PciAction::ShiftOverflow,
    }
}

/// The stage is waiting for a configuration dword.
pub open spec fn stage_reads(stage: ScanStage) -> bool {
    stage_action(stage) is ReadConfig
}

/// The stage that follows `stage` once `data` was read, for a scan whose
/// device table is full (`full`) or not.
pub open spec fn next_stage(full: bool, stage: ScanStage, data: u32) -> ScanStage {
    match stage {
        ScanStage::BusVendor { bus, device } => {
            if vendor_id_of(data) == 0xffff {
                if device + 1 < 32 {
                    ScanStage::BusVendor { bus, device: (device + 1) as u8 }
                } else {
                    ScanStage::Done(Ok(()))
                }
            } else {
                ScanStage::FunctionHeader { bus, device, function: 0 }
            }
        },
        ScanStage::FunctionHeader { bus, device, function } => {
            if full {
                ScanStage::Done(Err(PciError::NullError))
            } else {
                ScanStage::FunctionClass { bus, device, function }
            }
        },
        ScanStage::FunctionClass { .. } => ScanStage::Fault,
        ScanStage::RootHeader => {
            if single_function_spec(header_type_of(data)) {
                ScanStage::BusVendor { bus: 0, device: 0 }
            } else {
                ScanStage::RootDeviceId { function: 1 }
            }
        },
        ScanStage::RootDeviceId { function } => {
            if function + 1 < 8 {
                ScanStage::RootDeviceId { function: (function + 1) as u8 }
            } else {
                ScanStage::Done(Ok(()))
            }
        },
        _ => stage,
    }
}

impl Pci {
    /// Scans bus `bus`: function 0 of devices 0..32 is probed in order, and
    /// the first device whose vendor id is not 0xffff is scanned with
    /// [`Pci::scan_device`], whose result ends the bus scan.
    pub fn scan_bus(&self, bus: u8) -> (scan: PciScan)
        ensures
            scan.table() == *self,
            scan.stage() == (ScanStage::BusVendor { bus, device: 0 }),
    {
        PciScan { pci: *self, stage: ScanStage::BusVendor { bus, device: 0 } }
    }

    /// Scans a device, starting with its function 0. The rest of a device
    /// scan (reading the header type again and scanning functions 1..8 of a
    /// multi-function device) follows only a successful scan of function 0,
    /// and a function scan never succeeds: it either fails to record the
    /// device or overflows. So the device scan is the scan of function 0.
    pub fn scan_device(self, bus: u8, device: u8) -> (scan: PciScan)
        ensures
            scan.table() == self,
            scan.stage() == (ScanStage::FunctionHeader { bus, device, function: 0 }),
    {
        self.scan_function(bus, device, 0)
    }

    /// Scans a function: reads its header type and records it in a copy of the
    /// device table. When that fails the scan ends with the error; otherwise
    /// the class dword is read and its 16-bit low half is shifted by 24 bits,
    /// which overflows before the class can be compared with that of a
    /// PCI-to-PCI bridge (whose secondary bus would be scanned next).
    pub fn scan_function(self, bus: u8, device: u8, function: u8) -> (scan: PciScan)
        ensures
            scan.table() == self,
            scan.stage() == (ScanStage::FunctionHeader { bus, device, function }),
    {
        PciScan { pci: self, stage: ScanStage::FunctionHeader { bus, device, function } }
    }

    /// Scans from the host bridge: reads the header type of 0:0.0; a
    /// single-function host bridge leads to a scan of bus 0, otherwise the
    /// device ids of functions 1..8 of 0:0 are read and the scan succeeds.
    pub fn scan_all_bus(&self) -> (scan: PciScan)
        ensures
            scan.table() == *self,
            scan.stage() == ScanStage::RootHeader,
    {
        PciScan { pci: *self, stage: ScanStage::RootHeader }
    }
}

impl PciScan {
    /// The device table the scan works with.
    pub closed spec fn table(self) -> Pci {
        self.pci
    }

    pub closed spec fn stage(self) -> ScanStage {
        self.stage
    }

    /// What the scan asks for now.
    pub fn action(&self) -> (action: PciAction)
        ensures
            action == stage_action(self.stage()),
    {
        match self.stage {
            ScanStage::BusVendor { bus, device } => PciAction::ReadConfig(
                self.pci.make_address(bus, device, 0, REG_ID),
            ),
            ScanStage::FunctionHeader { bus, device, function } => PciAction::ReadConfig(
                self.pci.make_address(bus, device, function, REG_HEADER),
            ),
            ScanStage::FunctionClass { bus, device, function } => PciAction::ReadConfig(
                self.pci.make_address(bus, device, function, REG_CLASS),
            ),
            ScanStage::RootHeader => PciAction::ReadConfig(self.pci.make_address(0, 0, 0, REG_HEADER)),
            ScanStage::RootDeviceId { function } => PciAction::ReadConfig(
                self.pci.make_address(0, 0, function, REG_ID),
            ),
            ScanStage::Done(r) => PciAction::Finished(r),
            ScanStage::Fault => PciAction::ShiftOverflow,
        }
    }

    /// Hands the scan the dword read for its last [`PciAction::ReadConfig`].
    pub fn resume(&mut self, data: u32)
        requires
            stage_reads(old(self).stage()),
        ensures
            final(self).table() == old(self).table(),
            final(self).stage() == next_stage(old(self).table().is_full(), old(self).stage(), data),
    {
        let pci = self.pci;
        let next = match self.stage {
            ScanStage::BusVendor { bus, device } => {
                if pci.read_vendor_id(data) == 0xffff {
                    if device < 31 {
                        ScanStage::BusVendor { bus, device: device + 1 }
                    } else {
                        ScanStage::Done(Ok(()))
                    }
                } else {
                    ScanStage::FunctionHeader { bus, device, function: 0 }
                }
            },
            ScanStage::FunctionHeader { bus, device, function } => {
                let header_type = pci.read_header_type(data);
                match pci.add_device(bus, device, function, header_type) {
                    Ok(()) => ScanStage::FunctionClass { bus, device, function },
                    Err(e) => ScanStage::Done(Err(e)),
                }
            },
            ScanStage::FunctionClass { .. } => ScanStage::Fault,
            ScanStage::RootHeader => {
                let header_type = pci.read_header_type(data);
                if pci.is_single_function_device(header_type) {
                    ScanStage::BusVendor { bus: 0, device: 0 }
                } else {
                    ScanStage::RootDeviceId { function: 1 }
                }
            },
            ScanStage::RootDeviceId { function } => {
                let _device_id = pci.read_device_id(data);
                if function < 7 {
                    ScanStage::RootDeviceId { function: function + 1 }
                } else {
                    ScanStage::Done(Ok(()))
                }
            },
            ScanStage::Done(r) => ScanStage::Done(r),
            ScanStage::Fault => ScanStage::Fault,
        };
        self.stage = next;
    }
}

/// The action a scan ends with when each read is answered with the value
/// that `config` gives for the address, or `None` when the scan asks for more
/// than `fuel` reads.
pub open spec fn run_scan(
    full: bool,
    stage: ScanStage,
    config: spec_fn(u32) -> u32,
    fuel: nat,
) -> Option<PciAction>
    decreases fuel,
{
    match stage_action(stage) {
        PciAction::ReadConfig(address) => {
            if fuel == 0 {
                None
            } else {
                run_scan(full, next_stage(full, stage, config(address)), config, (fuel - 1) as nat)
            }
        },
        other => Some(other),
    }
}

/// Function 0 of `device` on `bus` answers with a vendor id other than 0xffff.
pub open spec fn device_present(config: spec_fn(u32) -> u32, bus: u8, device: u8) -> bool {
    vendor_id_of(config(config_address_spec(bus, device, 0, REG_ID))) != 0xffff
}

/// Some device in `from..32` on `bus` is present.
pub open spec fn some_device_present_from(config: spec_fn(u32) -> u32, bus: u8, from: int) -> bool {
    exists|d: u8| from <= d < 32 && #[trigger] device_present(config, bus, d)
}

/// How a function scan ends: with `NullError` when the device table is full,
/// otherwise in the overflowing shift.
pub open spec fn function_scan_outcome(full: bool) -> PciAction {
    if full {
        PciAction::Finished(Err(PciError::NullError))
    } else {
        PciAction::ShiftOverflow
    }
}

/// How a bus scan ends: as a function scan when some device of the bus is
/// present, otherwise with `Ok`.
pub open spec fn bus_scan_outcome(full: bool, config: spec_fn(u32) -> u32, bus: u8) -> PciAction {
    if some_device_present_from(config, bus, 0) {
        function_scan_outcome(full)
    } else {
        PciAction::Finished(Ok(()))
    }
}

/// How a scan from the host bridge ends: as the scan of bus 0 when 0:0.0 is a
/// single-function device, otherwise with `Ok`.
pub open spec fn all_bus_scan_outcome(full: bool, config: spec_fn(u32) -> u32) -> PciAction {
    if single_function_spec(header_type_of(config(config_address_spec(0, 0, 0, REG_HEADER)))) {
        bus_scan_outcome(full, config, 0)
    } else {
        PciAction::Finished(Ok(()))
    }
}

/// A function scan ends after at most two reads, with `NullError` on a full
/// device table and in the overflowing shift otherwise, whatever is read.
pub proof fn lemma_function_scan_outcome(
    pci: Pci,
    config: spec_fn(u32) -> u32,
    bus: u8,
    device: u8,
    function: u8,
)
    ensures
        run_scan(pci.is_full(), ScanStage::FunctionHeader { bus, device, function }, config, 2)
            == Some(function_scan_outcome(pci.is_full())),
{
    lemma_function_scan_from(pci.is_full(), config, bus, device, function, 2);
}

/// In a bus scan every read stays on the scanned bus and goes through its
/// devices in order: after the vendor id of function 0 of `device` on `bus`,
/// an absent device (vendor id 0xffff) leads to the identification register
/// of function 0 of the next device of the same bus, or ends the scan with
/// `Ok` after device 31; a present one leads to the header-type register of
/// function 0 of that same device and bus.
pub proof fn lemma_bus_scan_next_read(full: bool, bus: u8, device: u8, data: u32)
    requires
        device < 32,
    ensures
        ({
            let next = stage_action(next_stage(full, ScanStage::BusVendor { bus, device }, data));
            if data & 0xffff != 0xffff {
                next matches PciAction::ReadConfig(a) && a >> 31u32 == 1 && (a >> 16u32) & 0xff
                    == bus as u32 && (a >> 11u32) & 0x1f == device as u32 && (a >> 8u32) & 0x7 == 0
                    && a & 0xff == 0x0c
            } else if device < 31 {
                next matches PciAction::ReadConfig(a) && a >> 31u32 == 1 && (a >> 16u32) & 0xff
                    == bus as u32 && (a >> 11u32) & 0x1f == device + 1 && (a >> 8u32) & 0x7 == 0
                    && a & 0xff == 0
            } else {
                next == PciAction::Finished(Ok(()))
            }
        }),
{
    let d: u32 = data;
    assert(((d & 0xffff) as u16 == 0xffffu16) == (d & 0xffff == 0xffff)) by (bit_vector);
    assert(0x0cu32 & 0xfcu32 == 0x0c && 0u32 & 0xfcu32 == 0) by (bit_vector);
    lemma_config_address_fields(bus, device, 0, REG_HEADER);
    if device < 31 {
        lemma_config_address_fields(bus, (device + 1) as u8, 0, REG_ID);
    }
}

/// A function scan never ends with `Ok`, however many reads it is given: the
/// rest of a device scan, which follows only an `Ok` from function 0, is never
/// reached.
pub proof fn lemma_function_scan_never_ok(
    pci: Pci,
    config: spec_fn(u32) -> u32,
    bus: u8,
    device: u8,
    function: u8,
    fuel: nat,
)
    ensures
        run_scan(pci.is_full(), ScanStage::FunctionHeader { bus, device, function }, config, fuel)
            != Some(PciAction::Finished(Ok(()))),
{
    let full = pci.is_full();
    if fuel >= 2 {
        lemma_function_scan_from(full, config, bus, device, function, fuel);
    } else if fuel == 1 {
        let s1 = next_stage(
            full,
            ScanStage::FunctionHeader { bus, device, function },
            config(config_address_spec(bus, device, function, REG_HEADER)),
        );
        if full {
            assert(run_scan(full, s1, config, 0) == Some(PciAction::Finished(Err(PciError::NullError))));
        } else {
            assert(run_scan(full, s1, config, 0) == None::<PciAction>);
        }
    }
}

proof fn lemma_function_scan_from(
    full: bool,
    config: spec_fn(u32) -> u32,
    bus: u8,
    device: u8,
    function: u8,
    fuel: nat,
)
    requires
        fuel >= 2,
    ensures
        run_scan(full, ScanStage::FunctionHeader { bus, device, function }, config, fuel) == Some(
            function_scan_outcome(full),
        ),
{
    let s0 = ScanStage::FunctionHeader { bus, device, function };
    let s1 = next_stage(full, s0, config(config_address_spec(bus, device, function, REG_HEADER)));
    if full {
        assert(run_scan(full, s1, config, (fuel - 1) as nat) == Some(
            PciAction::Finished(Err(PciError::NullError)),
        ));
    } else {
        let s2 = next_stage(full, s1, config(config_address_spec(bus, device, function, REG_CLASS)));
        assert(s2 == ScanStage::Fault);
        assert(run_scan(full, s2, config, (fuel - 2) as nat) == Some(PciAction::ShiftOverflow));
        assert(run_scan(full, s1, config, (fuel - 1) as nat) == Some(PciAction::ShiftOverflow));
    }
}

proof fn lemma_bus_scan_from(
    full: bool,
    config: spec_fn(u32) -> u32,
    bus: u8,
    device: u8,
    fuel: nat,
)
    requires
        device < 32,
        fuel + device >= 34,
    ensures
        run_scan(full, ScanStage::BusVendor { bus, device }, config, fuel) == Some(
            if some_device_present_from(config, bus, device as int) {
                function_scan_outcome(full)
            } else {
                PciAction::Finished(Ok(()))
            },
        ),
    decreases 32 - device,
{
    let s0 = ScanStage::BusVendor { bus, device };
    let s1 = next_stage(full, s0, config(config_address_spec(bus, device, 0, REG_ID)));
    if device_present(config, bus, device) {
        lemma_function_scan_from(full, config, bus, device, 0, (fuel - 1) as nat);
        assert(s1 == ScanStage::FunctionHeader { bus, device, function: 0 });
        assert(some_device_present_from(config, bus, device as int));
    } else if device + 1 < 32 {
        lemma_bus_scan_from(full, config, bus, (device + 1) as u8, (fuel - 1) as nat);
        assert(s1 == ScanStage::BusVendor { bus, device: (device + 1) as u8 });
        assert(some_device_present_from(config, bus, device as int) == some_device_present_from(
            config,
            bus,
            device + 1,
        )) by {
            if some_device_present_from(config, bus, device as int) {
                let d = choose|d: u8| device <= d < 32 && #[trigger] device_present(config, bus, d);
                assert(d != device);
                assert(device + 1 <= d < 32 && device_present(config, bus, d));
            }
        }
    } else {
        assert(s1 == ScanStage::Done(Ok(())));
        assert(run_scan(full, s1, config, (fuel - 1) as nat) == Some(PciAction::Finished(Ok(()))));
        assert(!some_device_present_from(config, bus, device as int)) by {
            if some_device_present_from(config, bus, device as int) {
                let d = choose|d: u8| device <= d < 32 && #[trigger] device_present(config, bus, d);
                assert(d == device);
            }
        }
    }
}

/// A bus scan ends after at most 34 reads: as a function scan when some
/// device of the bus answers, otherwise with `Ok`.
pub proof fn lemma_bus_scan_outcome(pci: Pci, config: spec_fn(u32) -> u32, bus: u8)
    ensures
        run_scan(pci.is_full(), ScanStage::BusVendor { bus, device: 0 }, config, 34) == Some(
            bus_scan_outcome(pci.is_full(), config, bus),
        ),
{
    lemma_bus_scan_from(pci.is_full(), config, bus, 0, 34);
}

proof fn lemma_root_device_ids_from(
    full: bool,
    config: spec_fn(u32) -> u32,
    function: u8,
    fuel: nat,
)
    requires
        1 <= function < 8,
        fuel + function >= 8,
    ensures
        run_scan(full, ScanStage::RootDeviceId { function }, config, fuel) == Some(
            PciAction::Finished(Ok(())),
        ),
    decreases 8 - function,
{
    let s0 = ScanStage::RootDeviceId { function };
    let s1 = next_stage(full, s0, config(config_address_spec(0, 0, function, REG_ID)));
    if function + 1 < 8 {
        lemma_root_device_ids_from(full, config, (function + 1) as u8, (fuel - 1) as nat);
        assert(s1 == ScanStage::RootDeviceId { function: (function + 1) as u8 });
    } else {
        assert(s1 == ScanStage::Done(Ok(())));
        assert(run_scan(full, s1, config, (fuel - 1) as nat) == Some(PciAction::Finished(Ok(()))));
    }
}

/// A scan from the host bridge ends after at most 35 reads: as the scan of
/// bus 0 when 0:0.0 is a single-function device, otherwise with `Ok`.
pub proof fn lemma_all_bus_scan_outcome(pci: Pci, config: spec_fn(u32) -> u32)
    ensures
        run_scan(pci.is_full(), ScanStage::RootHeader, config, 35) == Some(
            all_bus_scan_outcome(pci.is_full(), config),
        ),
{
    let full = pci.is_full();
    let s1 = next_stage(full, ScanStage::RootHeader, config(config_address_spec(0, 0, 0, REG_HEADER)));
    if single_function_spec(header_type_of(config(config_address_spec(0, 0, 0, REG_HEADER)))) {
        lemma_bus_scan_from(full, config, 0, 0, 34);
        assert(s1 == ScanStage::BusVendor { bus: 0, device: 0 });
    } else {
        lemma_root_device_ids_from(full, config, 1, 34);
        assert(s1 == ScanStage::RootDeviceId { function: 1 });
    }
}

/// For device numbers below 32 and function numbers below 8, each number can
/// be read back from its own field of the address, the enable bit is set, bits
/// 24..31 are clear, and the low byte is the dword-aligned register offset.
pub proof fn lemma_config_address_fields(bus: u8, device: u8, function: u8, reg_addr: u8)
    requires
        device < 32,
        function < 8,
    ensures
        config_address_spec(bus, device, function, reg_addr) >> 31u32 == 1,
        (config_address_spec(bus, device, function, reg_addr) >> 24u32) & 0x7f == 0,
        (config_address_spec(bus, device, function, reg_addr) >> 16u32) & 0xff == bus as u32,
        (config_address_spec(bus, device, function, reg_addr) >> 11u32) & 0x1f == device as u32,
        (config_address_spec(bus, device, function, reg_addr) >> 8u32) & 0x7 == function as u32,
        config_address_spec(bus, device, function, reg_addr) & 0xff == (reg_addr as u32) & 0xfc,
{
    assert({
        let a = (1u32 << 31u32) | ((bus as u32) << 16u32) | ((device as u32) << 11u32) | ((
        function as u32) << 8u32) | ((reg_addr as u32) & 0xfcu32);
        &&& a >> 31u32 == 1
        &&& (a >> 24u32) & 0x7f == 0
        &&& (a >> 16u32) & 0xff == bus as u32
        &&& (a >> 11u32) & 0x1f == device as u32
        &&& (a >> 8u32) & 0x7 == function as u32
        &&& a & 0xff == (reg_addr as u32) & 0xfc
    }) by (bit_vector)
        requires
            device < 32,
            function < 8,
    ;
}

/// The vendor id and the device id together give back the identification
/// dword they were read from.
pub proof fn lemma_id_dword_split(data: u32)
    ensures
        ((device_id_of(data) as u32) << 16u32) | (vendor_id_of(data) as u32) == data,
{
    assert((((data >> 16u32) as u16 as u32) << 16u32) | (((data & 0xffff) as u16) as u32) == data)
        by (bit_vector);
}

} // verus!
