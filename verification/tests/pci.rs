use mikan_os::pci::{Pci, PciAction, PciError, PciScan};

fn config_space(present: &[(u8, u8)], root_header: u8) -> impl Fn(u32) -> u32 + '_ {
    move |address: u32| {
        let bus = ((address >> 16) & 0xff) as u8;
        let device = ((address >> 11) & 0x1f) as u8;
        let function = ((address >> 8) & 0x7) as u8;
        let reg = (address & 0xfc) as u8;
        match reg {
            0x00 => {
                if function == 0 && present.contains(&(bus, device)) {
                    0x1234_8086
                } else {
                    0xffff_ffff
                }
            }
            0x0c => {
                if bus == 0 && device == 0 && function == 0 {
                    (root_header as u32) << 16
                } else {
                    0
                }
            }
            _ => 0,
        }
    }
}

fn drive(mut scan: PciScan, config: &dyn Fn(u32) -> u32) -> (PciAction, Vec<u32>) {
    let mut addresses = Vec::new();
    loop {
        match scan.action() {
            PciAction::ReadConfig(address) => {
                addresses.push(address);
                scan.resume(config(address));
            }
            other => return (other, addresses),
        }
    }
}

#[test]
fn make_address_places_fields() {
    let pci = Pci::new();
    assert_eq!(pci.make_address(0, 0, 0, 0), 0x8000_0000);
    assert_eq!(pci.make_address(1, 2, 3, 0x0c), 0x8001_130c);
    assert_eq!(pci.make_address(0xff, 0x1f, 7, 0xff), 0x80ff_fffc);
    // register offsets are rounded down to a dword
    assert_eq!(pci.make_address(0, 0, 0, 0x0f), 0x8000_000c);
}

#[test]
fn register_decoding() {
    let pci = Pci::new();
    assert_eq!(pci.read_vendor_id(0x1234_8086), 0x8086);
    assert_eq!(pci.read_device_id(0x1234_8086), 0x1234);
    assert_eq!(pci.read_header_type(0x0080_0000), 0x80);
    assert_eq!(pci.read_header_type(0x1281_0000), 0x81);
    assert_eq!(pci.read_class_code(0x0604_0001), 0x0001);
    assert_eq!(pci.read_bus_number(0x0002_0100), 0x00);
    assert!(pci.is_single_function_device(0x00));
    assert!(pci.is_single_function_device(0x7f));
    assert!(!pci.is_single_function_device(0x80));
    assert!(!pci.is_single_function_device(0x81));
}

#[test]
fn a_new_table_is_full() {
    let pci = Pci::new();
    assert!(matches!(pci.add_device(0, 1, 0, 0), Err(PciError::NullError)));
}

#[test]
fn empty_bus_scans_every_device_and_succeeds() {
    let pci = Pci::new();
    let config = config_space(&[], 0);
    let (end, addresses) = drive(pci.scan_bus(2), &config);
    assert!(matches!(end, PciAction::Finished(Ok(()))));
    assert_eq!(addresses.len(), 32);
    for (device, address) in addresses.iter().enumerate() {
        assert_eq!(*address, pci.make_address(2, device as u8, 0, 0));
    }
}

#[test]
fn bus_with_a_device_ends_in_null_error() {
    let pci = Pci::new();
    let config = config_space(&[(0, 3)], 0);
    let (end, addresses) = drive(pci.scan_bus(0), &config);
    assert!(matches!(end, PciAction::Finished(Err(PciError::NullError))));
    // devices 0..=3 are probed, then the header type of 0:3.0 is read
    assert_eq!(addresses.len(), 5);
    assert_eq!(addresses[3], pci.make_address(0, 3, 0, 0));
    assert_eq!(addresses[4], pci.make_address(0, 3, 0, 0x0c));
}

#[test]
fn function_and_device_scans_read_the_header_then_fail() {
    let pci = Pci::new();
    let config = config_space(&[], 0);
    let (end, addresses) = drive(pci.scan_function(1, 2, 3), &config);
    assert!(matches!(end, PciAction::Finished(Err(PciError::NullError))));
    assert_eq!(addresses, vec![pci.make_address(1, 2, 3, 0x0c)]);
    let (end, addresses) = drive(pci.scan_device(1, 2), &config);
    assert!(matches!(end, PciAction::Finished(Err(PciError::NullError))));
    assert_eq!(addresses, vec![pci.make_address(1, 2, 0, 0x0c)]);
}

#[test]
fn multi_function_host_bridge_reads_device_ids_and_succeeds() {
    let pci = Pci::new();
    let config = config_space(&[(0, 0)], 0x80);
    let (end, addresses) = drive(pci.scan_all_bus(), &config);
    assert!(matches!(end, PciAction::Finished(Ok(()))));
    assert_eq!(addresses.len(), 8);
    assert_eq!(addresses[0], pci.make_address(0, 0, 0, 0x0c));
    for function in 1..8u8 {
        assert_eq!(addresses[function as usize], pci.make_address(0, 0, function, 0));
    }
}

#[test]
fn single_function_host_bridge_scans_bus_zero() {
    let pci = Pci::new();
    let config = config_space(&[], 0x00);
    let (end, addresses) = drive(pci.scan_all_bus(), &config);
    assert!(matches!(end, PciAction::Finished(Ok(()))));
    assert_eq!(addresses.len(), 33);
    let config = config_space(&[(0, 5)], 0x00);
    let (end, _) = drive(pci.scan_all_bus(), &config);
    assert!(matches!(end, PciAction::Finished(Err(PciError::NullError))));
}
