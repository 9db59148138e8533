use nusb::descriptors::{ConfigurationDescriptor, InterfaceDescriptor};
use raw_nusb::client::{HostClient, VarSeqKind};
use raw_nusb::connect::Stage;
use raw_nusb::endpoint::{
    read_endpoints, scan_endpoints, Direction, Endpoint, EndpointScan, TransferType,
};
use raw_nusb::link::{select_link, Link, TransferQueue, IN_FLIGHT_REQS, MAX_TRANSFER_SIZE};

fn configuration(body: &[u8]) -> Vec<u8> {
    let total = (9 + body.len()) as u16;
    let mut bytes = vec![9, 2, total.to_le_bytes()[0], total.to_le_bytes()[1], 1, 1, 0, 0x80, 50];
    bytes.extend_from_slice(body);
    bytes
}

fn interface(alternate: u8, endpoints: u8) -> [u8; 9] {
    [9, 4, 0, alternate, endpoints, 0xFF, 0, 0, 0]
}

fn settings_of(bytes: &[u8]) -> Vec<InterfaceDescriptor<'_>> {
    ConfigurationDescriptor::new(bytes)
        .unwrap()
        .interface_alt_settings()
        .collect()
}

fn endpoint(address: u8, transfer_type: TransferType, max_packet_size: usize) -> Endpoint {
    let direction = if address >= 0x80 { Direction::In } else { Direction::Out };
    Endpoint { address, direction, transfer_type, max_packet_size }
}

#[test]
fn reads_every_field_of_an_endpoint() {
    let mut body = Vec::new();
    body.extend_from_slice(&interface(0, 4));
    body.extend_from_slice(&[7, 5, 0x01, 0x02, 0x40, 0x00, 0]);
    body.extend_from_slice(&[7, 5, 0x81, 0x03, 0x08, 0x00, 10]);
    body.extend_from_slice(&[7, 5, 0x82, 0x05, 0xFF, 0xFF, 1]);
    body.extend_from_slice(&[7, 5, 0x03, 0xFC, 0x00, 0x02, 0]);
    let bytes = configuration(&body);
    let endpoints = read_endpoints(&settings_of(&bytes));
    assert_eq!(
        endpoints,
        vec![
            endpoint(0x01, TransferType::Bulk, 64),
            endpoint(0x81, TransferType::Interrupt, 8),
            endpoint(0x82, TransferType::Isochronous, 0x7FF),
            endpoint(0x03, TransferType::Control, 512),
        ]
    );
}

#[test]
fn reads_alternate_settings_one_after_the_other() {
    let mut body = Vec::new();
    body.extend_from_slice(&interface(0, 1));
    body.extend_from_slice(&[7, 5, 0x01, 0x02, 0x40, 0x00, 0]);
    body.extend_from_slice(&interface(1, 2));
    body.extend_from_slice(&[7, 5, 0x02, 0x02, 0x20, 0x00, 0]);
    body.extend_from_slice(&[7, 5, 0x83, 0x02, 0x00, 0x02, 0]);
    let bytes = configuration(&body);
    let settings = settings_of(&bytes);
    assert_eq!(settings.len(), 2);
    let endpoints = read_endpoints(&settings);
    assert_eq!(
        endpoints,
        vec![
            endpoint(0x01, TransferType::Bulk, 64),
            endpoint(0x02, TransferType::Bulk, 32),
            endpoint(0x83, TransferType::Bulk, 512),
        ]
    );
}

#[test]
fn skips_other_descriptors_and_short_ones() {
    let mut body = Vec::new();
    body.extend_from_slice(&interface(0, 2));
    body.extend_from_slice(&[4, 0x24, 1, 2]);
    body.extend_from_slice(&[6, 5, 0x05, 0x02, 0x40, 0x00]);
    body.extend_from_slice(&[7, 5, 0x01, 0x02, 0x40, 0x00, 0]);
    body.extend_from_slice(&[6, 0x30, 0, 0, 0, 0]);
    let bytes = configuration(&body);
    let endpoints = read_endpoints(&settings_of(&bytes));
    assert_eq!(endpoints, vec![endpoint(0x01, TransferType::Bulk, 64)]);
}

#[test]
fn no_settings_no_endpoints() {
    assert_eq!(read_endpoints(&vec![]), vec![]);
}

#[test]
fn scan_of_nothing_finds_nothing() {
    assert_eq!(
        scan_endpoints(&vec![]),
        EndpointScan { mps: None, ep_in: None, ep_out: None }
    );
}

#[test]
fn scan_takes_last_address_and_smallest_size() {
    let found = scan_endpoints(&vec![
        endpoint(0x01, TransferType::Bulk, 64),
        endpoint(0x81, TransferType::Bulk, 16),
        endpoint(0x02, TransferType::Bulk, 512),
        endpoint(0x82, TransferType::Bulk, 8),
        endpoint(0x03, TransferType::Bulk, 128),
    ]);
    assert_eq!(
        found,
        EndpointScan { mps: Some(64), ep_in: Some(0x82), ep_out: Some(0x03) }
    );
}

#[test]
fn scan_passes_over_other_transfer_types() {
    let found = scan_endpoints(&vec![
        endpoint(0x01, TransferType::Bulk, 64),
        endpoint(0x04, TransferType::Interrupt, 8),
        endpoint(0x84, TransferType::Isochronous, 8),
        endpoint(0x05, TransferType::Control, 4),
    ]);
    assert_eq!(
        found,
        EndpointScan { mps: Some(64), ep_in: None, ep_out: Some(0x01) }
    );
    assert_eq!(found, scan_endpoints(&vec![endpoint(0x01, TransferType::Bulk, 64)]));
}

#[test]
fn scan_without_out_has_no_size() {
    let found = scan_endpoints(&vec![endpoint(0x81, TransferType::Bulk, 64)]);
    assert_eq!(
        found,
        EndpointScan { mps: None, ep_in: Some(0x81), ep_out: None }
    );
}

#[test]
fn read_endpoints_have_sides() {
    let mut body = Vec::new();
    body.extend_from_slice(&interface(0, 2));
    body.extend_from_slice(&[7, 5, 0x7F, 0x02, 0xFF, 0xFF, 0]);
    body.extend_from_slice(&[7, 5, 0x80, 0x02, 0x40, 0x00, 0]);
    let bytes = configuration(&body);
    let found = scan_endpoints(&read_endpoints(&settings_of(&bytes)));
    assert_eq!(
        found,
        EndpointScan { mps: Some(0x7FF), ep_in: Some(0x80), ep_out: Some(0x7F) }
    );
}

#[test]
fn link_over_both_endpoints() {
    assert_eq!(MAX_TRANSFER_SIZE, 1024);
    assert_eq!(IN_FLIGHT_REQS, 4);
    let link = select_link(EndpointScan { mps: Some(64), ep_in: Some(0x81), ep_out: Some(0x01) });
    assert_eq!(
        link,
        Ok(Link {
            out_queue: TransferQueue { address: 0x01, transfer_size: 1024, num_transfers: 4 },
            in_queue: TransferQueue { address: 0x81, transfer_size: 1024, num_transfers: 4 },
        })
    );
}

#[test]
fn missing_out_is_told_before_missing_in() {
    assert_eq!(
        select_link(EndpointScan { mps: None, ep_in: None, ep_out: None }),
        Err(String::from("Failed to find OUT EP"))
    );
    assert_eq!(
        select_link(EndpointScan { mps: None, ep_in: Some(0x81), ep_out: None }),
        Err(String::from("Failed to find OUT EP"))
    );
    assert_eq!(
        select_link(EndpointScan { mps: Some(64), ep_in: None, ep_out: Some(0x01) }),
        Err(String::from("Failed to find IN EP"))
    );
}

#[test]
fn begins_over_a_claimed_interface() {
    let mut body = Vec::new();
    body.extend_from_slice(&interface(0, 2));
    body.extend_from_slice(&[7, 5, 0x01, 0x02, 0x40, 0x00, 0]);
    body.extend_from_slice(&[7, 5, 0x81, 0x02, 0x40, 0x00, 0]);
    let bytes = configuration(&body);
    let connect =
        HostClient::try_from_nusb_interface(&settings_of(&bytes), "error", 8, VarSeqKind::Seq1);
    match connect.stage() {
        Stage::OpenOut(link) => {
            assert_eq!(link.out_queue.address, 0x01);
            assert_eq!(link.in_queue.address, 0x81);
        }
        other => panic!("{other:?}"),
    }
}

#[test]
fn fails_over_a_claimed_interface_without_endpoints() {
    let body = interface(0, 0);
    let bytes = configuration(&body);
    let connect =
        HostClient::try_from_nusb_interface(&settings_of(&bytes), "error", 8, VarSeqKind::Seq1);
    assert_eq!(
        connect.finish().unwrap().err(),
        Some(String::from("Failed to find OUT EP"))
    );
}
