use openscq30::{
    CallbackContext, ConnectionDescriptor, ConnectionError, ConnectionStatus, DeviceReport,
    DeviceSet, IOBluetoothError, IOBluetoothRfcommBackend, IOBluetoothRfcommConnection, MacAddress,
    OpenRequest, PendingConnection, RfcommServiceSelectionStrategy, RfcommServices, SendOutcome,
    ServiceReport, ERR_DEVICE_NOT_FOUND, OK, PACKET_QUEUE_LIMIT,
};
use std::collections::HashSet;
use tokio::sync::mpsc::error::TryRecvError;
use uuid::Uuid;

const MAC: MacAddress = MacAddress { octets: [0xAB, 0x0D, 0xEF, 0x12, 0x34, 0x56] };
const SERIAL_PORT: [u8; 16] = [
    0x00, 0x00, 0x11, 0x01, 0x00, 0x00, 0x10, 0x00, 0x80, 0x00, 0x00, 0x80, 0x5F, 0x9B, 0x34, 0xFB,
];
const SERIAL_PORT_NUMBER: u128 = 0x0000_1101_0000_1000_8000_0080_5F9B_34FB;
const VENDOR: [u8; 16] = [
    0x0C, 0xF1, 0x2D, 0x31, 0xFA, 0xC3, 0x45, 0x53, 0xBD, 0x80, 0xD6, 0x83, 0x2E, 0x7B, 0x00, 0x00,
];
const VENDOR_NUMBER: u128 = 0x0CF1_2D31_FAC3_4553_BD80_D683_2E7B_0000;

fn constant(uuid: u128) -> RfcommServiceSelectionStrategy<fn(HashSet<u128>) -> u128> {
    RfcommServiceSelectionStrategy::Constant(uuid)
}

fn two_services() -> Vec<ServiceReport> {
    vec![ServiceReport::new(&SERIAL_PORT, 3), ServiceReport::new(&VENDOR, 12)]
}

fn open() -> (CallbackContext, IOBluetoothRfcommConnection) {
    let (context, pending) = IOBluetoothRfcommConnection::prepare();
    let connection = IOBluetoothRfcommConnection::open(pending, 0x1000, OK).unwrap();
    (context, connection)
}

fn sorted(set: DeviceSet) -> Vec<(String, [u8; 6])> {
    let mut devices: Vec<(String, [u8; 6])> = set
        .into_vec()
        .into_iter()
        .map(|device| (device.name, device.mac_address.octets))
        .collect();
    devices.sort();
    devices
}

#[test]
fn codes_become_errors() {
    assert_eq!(ConnectionError::from_code(ERR_DEVICE_NOT_FOUND), ConnectionError::DeviceNotFound);
    for code in [i32::MIN, -536870212, 0, 2, i32::MAX] {
        assert_eq!(
            ConnectionError::from_code(code),
            ConnectionError::Other { source: IOBluetoothError { code } }
        );
    }
}

#[test]
fn error_message_gives_the_code_in_decimal() {
    let message = |code: i32| IOBluetoothError { code }.message();
    assert_eq!(message(0), "IOBluetooth error code 0");
    assert_eq!(message(7), "IOBluetooth error code 7");
    assert_eq!(message(1305), "IOBluetooth error code 1305");
    assert_eq!(message(-536870212), "IOBluetooth error code -536870212");
    assert_eq!(message(i32::MIN), "IOBluetooth error code -2147483648");
}

#[test]
fn uuid_bytes_are_read_as_the_uuid_crate_reads_them() {
    let services = RfcommServices::from_reports(&two_services());
    assert_eq!(services.channel_of(SERIAL_PORT_NUMBER), Ok(3));
    assert_eq!(services.channel_of(VENDOR_NUMBER), Ok(12));
    assert_eq!(services.channel_of(Uuid::from_bytes(VENDOR).as_u128()), Ok(12));
    let mut swapped = VENDOR;
    swapped.reverse();
    assert_eq!(
        services.channel_of(Uuid::from_bytes(swapped).as_u128()),
        Err(ConnectionError::DeviceNotFound)
    );
}

#[test]
fn services_on_offer_are_those_reported() {
    let mut services = RfcommServices::new();
    assert!(services.uuids().is_empty());
    services.on_service(&ServiceReport::new(&VENDOR, 12));
    services.on_service(&ServiceReport::new(&SERIAL_PORT, 3));
    services.on_service(&ServiceReport::new(&VENDOR, 12));
    assert_eq!(services.uuids(), HashSet::from([SERIAL_PORT_NUMBER, VENDOR_NUMBER]));
}

#[test]
fn last_report_of_a_service_wins() {
    let reports = vec![
        ServiceReport::new(&VENDOR, 12),
        ServiceReport::new(&SERIAL_PORT, 3),
        ServiceReport::new(&VENDOR, 15),
    ];
    let services = RfcommServices::from_reports(&reports);
    assert_eq!(services.channel_of(VENDOR_NUMBER), Ok(15));
    assert_eq!(services.channel_of(SERIAL_PORT_NUMBER), Ok(3));
}

#[test]
fn services_are_listed_only_on_success() {
    let listed = IOBluetoothRfcommBackend::rfcomm_services(OK, &two_services()).unwrap();
    assert_eq!(listed.channel_of(SERIAL_PORT_NUMBER), Ok(3));
    assert_eq!(
        IOBluetoothRfcommBackend::rfcomm_services(1, &two_services()).unwrap_err(),
        ConnectionError::DeviceNotFound
    );
    assert_eq!(
        IOBluetoothRfcommBackend::rfcomm_services(42, &two_services()).unwrap_err(),
        ConnectionError::Other { source: IOBluetoothError { code: 42 } }
    );
}

#[test]
fn connect_opens_the_channel_of_a_constant_service() {
    let request =
        IOBluetoothRfcommBackend.connect(MAC, constant(VENDOR_NUMBER), OK, &two_services());
    assert_eq!(request, Ok(OpenRequest { mac_address: MAC, channel_id: 12 }));
}

#[test]
fn connect_lets_a_function_choose_among_the_offer() {
    let strategy = RfcommServiceSelectionStrategy::Dynamic(|offered: HashSet<u128>| {
        assert_eq!(offered, HashSet::from([SERIAL_PORT_NUMBER, VENDOR_NUMBER]));
        SERIAL_PORT_NUMBER
    });
    let request = IOBluetoothRfcommBackend.connect(MAC, strategy, OK, &two_services());
    assert_eq!(request, Ok(OpenRequest { mac_address: MAC, channel_id: 3 }));
}

#[test]
fn connect_does_not_find_a_device_without_the_service() {
    let only_serial = vec![ServiceReport::new(&SERIAL_PORT, 3)];
    assert_eq!(
        IOBluetoothRfcommBackend.connect(MAC, constant(VENDOR_NUMBER), OK, &only_serial),
        Err(ConnectionError::DeviceNotFound)
    );
    let strategy = RfcommServiceSelectionStrategy::Dynamic(|_: HashSet<u128>| VENDOR_NUMBER);
    assert_eq!(
        IOBluetoothRfcommBackend.connect(MAC, strategy, OK, &only_serial),
        Err(ConnectionError::DeviceNotFound)
    );
}

#[test]
fn connect_passes_on_a_failed_listing() {
    assert_eq!(
        IOBluetoothRfcommBackend.connect(MAC, constant(VENDOR_NUMBER), 1, &two_services()),
        Err(ConnectionError::DeviceNotFound)
    );
    assert_eq!(
        IOBluetoothRfcommBackend.connect(MAC, constant(VENDOR_NUMBER), -3, &two_services()),
        Err(ConnectionError::Other { source: IOBluetoothError { code: -3 } })
    );
}

#[test]
fn devices_are_listed_once_each() {
    let other = [1, 2, 3, 4, 5, 6];
    let reports = vec![
        DeviceReport::new("Liberty \u{e9}".as_bytes(), &MAC.octets),
        DeviceReport::new(b"Q30", &other),
        DeviceReport::new("Liberty \u{e9}".as_bytes(), &MAC.octets),
        DeviceReport::new(b"Q30", &MAC.octets),
    ];
    let devices = IOBluetoothRfcommBackend.devices(&reports).unwrap();
    assert!(devices.contains(&ConnectionDescriptor { name: "Q30".into(), mac_address: MAC }));
    assert!(!devices.contains(&ConnectionDescriptor { name: "Q20".into(), mac_address: MAC }));
    assert_eq!(
        sorted(devices),
        vec![
            ("Liberty \u{e9}".to_string(), MAC.octets),
            ("Q30".to_string(), other),
            ("Q30".to_string(), MAC.octets),
        ]
    );
    assert!(sorted(IOBluetoothRfcommBackend.devices(&vec![]).unwrap()).is_empty());
}

#[test]
fn invalid_names_are_read_with_replacements() {
    let reports = vec![DeviceReport::new(b"Q\xFF30", &MAC.octets)];
    let devices = IOBluetoothRfcommBackend.devices(&reports).unwrap();
    assert_eq!(sorted(devices), vec![("Q\u{FFFD}30".to_string(), MAC.octets)]);
}

#[test]
fn open_needs_a_handle() {
    let pending = || -> PendingConnection { IOBluetoothRfcommConnection::prepare().1 };
    assert_eq!(
        IOBluetoothRfcommConnection::open(pending(), 0, ERR_DEVICE_NOT_FOUND).unwrap_err(),
        ConnectionError::DeviceNotFound
    );
    assert_eq!(
        IOBluetoothRfcommConnection::open(pending(), 0, 9).unwrap_err(),
        ConnectionError::Other { source: IOBluetoothError { code: 9 } }
    );
    assert_eq!(
        IOBluetoothRfcommConnection::open(pending(), 0, OK).unwrap_err(),
        ConnectionError::Other { source: IOBluetoothError { code: 0 } }
    );
    assert_eq!(IOBluetoothRfcommConnection::open(pending(), 77, 9).unwrap().handle(), 77);
}

#[test]
fn packets_come_out_in_order() {
    let (mut context, mut connection) = open();
    let mut packets = connection.read_channel();
    assert_eq!(packets.try_recv(), Err(TryRecvError::Empty));
    assert_eq!(context.on_data(&[1, 2, 3]), SendOutcome::Accepted);
    assert_eq!(context.on_data(&[]), SendOutcome::Accepted);
    assert_eq!(context.on_data(&[4]), SendOutcome::Accepted);
    assert_eq!(packets.try_recv(), Ok(vec![1, 2, 3]));
    assert_eq!(packets.try_recv(), Ok(vec![]));
    assert_eq!(packets.try_recv(), Ok(vec![4]));
    assert_eq!(packets.try_recv(), Err(TryRecvError::Empty));
}

#[test]
fn packets_beyond_the_limit_are_dropped() {
    let (mut context, mut connection) = open();
    assert_eq!(PACKET_QUEUE_LIMIT, 100);
    for i in 0..100 {
        assert_eq!(context.on_data(&[i]), SendOutcome::Accepted);
    }
    assert_eq!(context.on_data(&[200, 201]), SendOutcome::Full(vec![200, 201]));
    let mut packets = connection.read_channel();
    assert_eq!(packets.try_recv(), Ok(vec![0]));
    assert_eq!(context.on_data(&[202]), SendOutcome::Accepted);
    for i in 1..100 {
        assert_eq!(packets.try_recv(), Ok(vec![i]));
    }
    assert_eq!(packets.try_recv(), Ok(vec![202]));
    assert_eq!(packets.try_recv(), Err(TryRecvError::Empty));
}

#[test]
fn packets_that_nobody_reads_are_dropped() {
    let (mut context, connection) = open();
    drop(connection);
    assert_eq!(context.on_data(&[5]), SendOutcome::Closed(vec![5]));
}

#[test]
fn read_channel_is_handed_out_once() {
    let (_context, mut connection) = open();
    assert!(connection.has_read_channel());
    let _packets = connection.read_channel();
    assert!(!connection.has_read_channel());
    assert_eq!(connection.handle(), 0x1000);
}

#[test]
fn status_follows_the_channel() {
    let (mut context, connection) = open();
    let status = connection.connection_status();
    assert_eq!(*status.borrow(), ConnectionStatus::Connected);
    context.on_data(&[1]);
    assert_eq!(*status.borrow(), ConnectionStatus::Connected);
    context.on_closed();
    assert_eq!(*status.borrow(), ConnectionStatus::Disconnected);
    context.on_data(&[2]);
    context.on_closed();
    assert_eq!(*status.borrow(), ConnectionStatus::Disconnected);
    assert_eq!(*connection.connection_status().borrow(), ConnectionStatus::Disconnected);
}

#[test]
fn write_hands_over_the_data_and_the_handle() {
    let (_context, connection) = open();
    let request = connection.write(&[8, 0xEE, 0]);
    assert_eq!(request.handle, 0x1000);
    assert_eq!(request.data, vec![8, 0xEE, 0]);
}

#[test]
fn write_result_keeps_the_code() {
    assert_eq!(IOBluetoothRfcommConnection::write_result(OK), Ok(()));
    for code in [1, -1, 13] {
        assert_eq!(
            IOBluetoothRfcommConnection::write_result(code),
            Err(ConnectionError::WriteError { source: IOBluetoothError { code } })
        );
    }
}

#[test]
fn nothing_is_lost_while_the_reader_keeps_up() {
    let (mut context, mut connection) = open();
    let mut packets = connection.read_channel();
    for round in 0..5u8 {
        for i in 0..100u8 {
            assert_eq!(context.on_data(&[round, i]), SendOutcome::Accepted);
        }
        for i in 0..100u8 {
            assert_eq!(packets.try_recv(), Ok(vec![round, i]));
        }
    }
    assert_eq!(packets.try_recv(), Err(TryRecvError::Empty));
}

#[test]
fn packets_and_closing_mix() {
    let (mut context, mut connection) = open();
    let mut packets = connection.read_channel();
    let status = connection.connection_status();
    assert_eq!(context.on_data(&[1]), SendOutcome::Accepted);
    context.on_closed();
    assert_eq!(context.on_data(&[2]), SendOutcome::Accepted);
    assert_eq!(*status.borrow(), ConnectionStatus::Disconnected);
    assert_eq!(packets.try_recv(), Ok(vec![1]));
    assert_eq!(packets.try_recv(), Ok(vec![2]));
    drop(packets);
    assert_eq!(context.on_data(&[3]), SendOutcome::Closed(vec![3]));
}
