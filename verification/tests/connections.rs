use nusb::MaybeFuture;
use raw_nusb::client::{HostClient, VarSeqKind};
use raw_nusb::connect::{vendor_interface, Connect, Event, InterfaceChoice, Stage};
use raw_nusb::endpoint::{Direction, Endpoint, TransferType};
use raw_nusb::link::{Link, TransferQueue};

fn bulk(address: u8) -> Endpoint {
    let direction = if address >= 0x80 { Direction::In } else { Direction::Out };
    Endpoint { address, direction, transfer_type: TransferType::Bulk, max_packet_size: 64 }
}

fn link() -> Link {
    Link {
        out_queue: TransferQueue { address: 0x01, transfer_size: 1024, num_transfers: 4 },
        in_queue: TransferQueue { address: 0x81, transfer_size: 1024, num_transfers: 4 },
    }
}

fn begin() -> Connect {
    HostClient::try_new_raw_nusb(false, "error", 8, VarSeqKind::Seq1)
}

fn begin_with_interface() -> Connect {
    HostClient::try_new_raw_nusb_with_interface("error", 8, VarSeqKind::Seq1)
}

fn claimed() -> Event {
    Event::InterfaceClaimed(Ok(vec![bulk(0x01), bulk(0x81)]))
}

fn error_of(connect: Connect) -> String {
    connect.finish().unwrap().err().unwrap()
}

fn said(cause: &str) -> String {
    String::from(cause)
}

#[test]
fn connects_to_the_first_accepted_device() {
    let mut connect = begin();
    assert!(matches!(
        connect.stage(),
        Stage::ListDevices(InterfaceChoice::VendorSpecific)
    ));
    connect = connect.step(Event::DevicesListed(Ok(())));
    assert!(matches!(connect.stage(), Stage::TestDevice(_)));
    connect = connect.step(Event::DeviceRejected);
    assert!(matches!(connect.stage(), Stage::TestDevice(_)));
    connect = connect.step(Event::DeviceAccepted(vec![
        (0, 0x02),
        (1, 0x0A),
        (2, 0xFF),
        (3, 0xFF),
    ]));
    assert!(matches!(connect.stage(), Stage::OpenDevice { interface_id: 2 }));
    connect = connect.step(Event::DeviceOpened(Ok(())));
    assert!(matches!(
        connect.stage(),
        Stage::ClaimInterface { interface_number: 2 }
    ));
    connect = connect.step(claimed());
    assert!(matches!(connect.stage(), Stage::OpenOut(found) if *found == link()));
    connect = connect.step(Event::OutOpened(Ok(())));
    assert!(matches!(connect.stage(), Stage::OpenIn(found) if *found == link()));
    connect = connect.step(Event::InOpened(Ok(())));
    assert!(matches!(connect.stage(), Stage::Connected(found) if *found == link()));
    let client = connect.finish().unwrap().unwrap();
    assert_eq!(client.link, link());
    assert_eq!(client.settings.err_uri_path, "error");
    assert_eq!(client.settings.outgoing_depth, 8);
    assert_eq!(client.settings.seq_no_kind, VarSeqKind::Seq1);
}

#[test]
fn windows_uses_interface_zero() {
    let mut connect = HostClient::try_new_raw_nusb(true, "error", 8, VarSeqKind::Seq1);
    connect = connect.step(Event::DevicesListed(Ok(())));
    connect = connect.step(Event::DeviceAccepted(vec![(0, 0x02), (1, 0xFF)]));
    assert!(matches!(connect.stage(), Stage::OpenDevice { interface_id: 0 }));

    let mut connect = HostClient::try_new_raw_nusb(true, "error", 8, VarSeqKind::Seq1);
    connect = connect.step(Event::DevicesListed(Ok(())));
    connect = connect.step(Event::DeviceAccepted(vec![]));
    assert!(matches!(connect.stage(), Stage::OpenDevice { interface_id: 0 }));
}

#[test]
fn listing_can_fail() {
    let connect = begin().step(Event::DevicesListed(Err(said("Error { kind: Other }"))));
    assert_eq!(error_of(connect), "Error listing devices: Error { kind: Other }");
}

#[test]
fn no_device_is_an_error() {
    let mut connect = begin().step(Event::DevicesListed(Ok(())));
    connect = connect.step(Event::DeviceRejected);
    connect = connect.step(Event::DeviceRejected);
    connect = connect.step(Event::NoMoreDevices);
    assert_eq!(error_of(connect), "Failed to find matching nusb device!");
}

#[test]
fn no_vendor_specific_interface_is_an_error() {
    let mut connect = begin().step(Event::DevicesListed(Ok(())));
    connect = connect.step(Event::DeviceAccepted(vec![(0, 0x02), (1, 0xFE)]));
    assert_eq!(error_of(connect), "Failed to find matching interface!!");
}

#[test]
fn opening_can_fail() {
    let connect = HostClient::try_from_nusb_and_interface_id(0, "error", 8, VarSeqKind::Seq1);
    let connect = connect.step(Event::DeviceOpened(Err(said("busy"))));
    assert_eq!(error_of(connect), "Failed opening device: busy");
}

#[test]
fn claiming_can_fail() {
    let connect = HostClient::try_from_nusb_and_interface_id(0, "error", 8, VarSeqKind::Seq1);
    let connect = connect.step(Event::DeviceOpened(Ok(())));
    let connect = connect.step(Event::InterfaceClaimed(Err(said("busy"))));
    assert_eq!(error_of(connect), "Failed claiming interface: busy");
}

#[test]
fn endpoints_can_be_missing() {
    let begin = || {
        HostClient::try_from_nusb_and_interface_id(0, "error", 8, VarSeqKind::Seq1)
            .step(Event::DeviceOpened(Ok(())))
    };
    let connect = begin().step(Event::InterfaceClaimed(Ok(vec![bulk(0x81)])));
    assert_eq!(error_of(connect), "Failed to find OUT EP");
    let connect = begin().step(Event::InterfaceClaimed(Ok(vec![bulk(0x01)])));
    assert_eq!(error_of(connect), "Failed to find IN EP");
}

#[test]
fn endpoints_can_fail_to_open() {
    let begin = || {
        HostClient::try_from_nusb_and_interface_id(0, "error", 8, VarSeqKind::Seq1)
            .step(Event::DeviceOpened(Ok(())))
            .step(claimed())
    };
    let connect = begin().step(Event::OutOpened(Err(said("gone"))));
    assert_eq!(error_of(connect), "Failed to claim OUT endpoint: gone");
    let connect = begin()
        .step(Event::OutOpened(Ok(())))
        .step(Event::InOpened(Err(said("gone"))));
    assert_eq!(error_of(connect), "Failed to claim IN endpoint: gone");
}

#[test]
fn interfaces_are_tested_in_order_up_to_the_first_accepted() {
    let mut connect = begin_with_interface();
    assert!(matches!(
        connect.stage(),
        Stage::ListDevices(InterfaceChoice::Tested)
    ));
    connect = connect.step(Event::DevicesListed(Ok(())));
    connect = connect.step(Event::DeviceAccepted(vec![(0, 0x02), (6, 0xFF), (7, 0x03)]));
    assert!(matches!(
        connect.stage(),
        Stage::TestInterface { index: 0, .. }
    ));
    connect = connect.step(Event::InterfaceTested(false));
    assert!(matches!(
        connect.stage(),
        Stage::TestInterface { index: 1, .. }
    ));
    connect = connect.step(Event::InterfaceTested(true));
    assert!(matches!(connect.stage(), Stage::OpenDevice { interface_id: 6 }));
}

#[test]
fn no_accepted_interface_is_an_error() {
    let mut connect = begin_with_interface().step(Event::DevicesListed(Ok(())));
    connect = connect.step(Event::DeviceAccepted(vec![(0, 0xFF), (1, 0xFF)]));
    connect = connect.step(Event::InterfaceTested(false));
    connect = connect.step(Event::InterfaceTested(false));
    assert_eq!(error_of(connect), "Failed to find matching interface!!");

    let mut connect = begin_with_interface().step(Event::DevicesListed(Ok(())));
    connect = connect.step(Event::DeviceAccepted(vec![]));
    assert_eq!(error_of(connect), "Failed to find matching interface!!");
}

#[test]
fn vendor_specific_is_the_same_as_a_test_for_the_class() {
    let entries = [(0u8, 0x02u8), (3, 0x0A), (5, 0xFF), (6, 0x03), (8, 0xFF)];
    let mut connect = begin_with_interface().step(Event::DevicesListed(Ok(())));
    connect = connect.step(Event::DeviceAccepted(entries.to_vec()));
    for (_, class) in entries {
        if matches!(connect.stage(), Stage::TestInterface { .. }) {
            connect = connect.step(Event::InterfaceTested(class == 0xFF));
        }
    }
    let vendor = begin()
        .step(Event::DevicesListed(Ok(())))
        .step(Event::DeviceAccepted(entries.to_vec()));
    assert!(matches!(connect.stage(), Stage::OpenDevice { interface_id: 5 }));
    assert!(matches!(vendor.stage(), Stage::OpenDevice { interface_id: 5 }));
}

#[test]
fn the_vendor_specific_interface_is_claimed_by_its_number() {
    let connect = begin()
        .step(Event::DevicesListed(Ok(())))
        .step(Event::DeviceAccepted(vec![(1, 0x02), (4, 0xFF)]))
        .step(Event::DeviceOpened(Ok(())));
    assert!(matches!(
        connect.stage(),
        Stage::ClaimInterface { interface_number: 4 }
    ));
}

#[test]
fn the_accepted_interface_is_claimed_by_its_number() {
    let connect = begin_with_interface()
        .step(Event::DevicesListed(Ok(())))
        .step(Event::DeviceAccepted(vec![(3, 0xFF)]))
        .step(Event::InterfaceTested(true))
        .step(Event::DeviceOpened(Ok(())));
    assert!(matches!(
        connect.stage(),
        Stage::ClaimInterface { interface_number: 3 }
    ));
}

#[test]
fn the_given_interface_is_claimed() {
    for (id, number) in [(0usize, 0u8), (1, 1), (0x34, 0x34), (255, 255)] {
        let connect = HostClient::try_from_nusb_and_interface_id(id, "error", 8, VarSeqKind::Seq1)
            .step(Event::DeviceOpened(Ok(())));
        match connect.stage() {
            Stage::ClaimInterface { interface_number } => assert_eq!(*interface_number, number),
            other => panic!("{other:?}"),
        }
    }
}

#[test]
fn no_interface_has_an_id_above_one_byte() {
    for id in [256usize, 257, 0x1234, usize::MAX] {
        let connect = HostClient::try_from_nusb_and_interface_id(id, "error", 8, VarSeqKind::Seq1)
            .step(Event::DeviceOpened(Ok(())));
        assert_eq!(
            error_of(connect),
            "Failed claiming interface: no interface has this id"
        );
    }
    let connect = HostClient::try_from_nusb_and_interface_id(256, "error", 8, VarSeqKind::Seq1)
        .step(Event::DeviceOpened(Err(said("busy"))));
    assert_eq!(error_of(connect), "Failed opening device: busy");
}

#[test]
fn replies_to_other_requests_change_nothing() {
    let connect = begin()
        .step(Event::NoMoreDevices)
        .step(Event::InterfaceTested(true))
        .step(Event::DeviceOpened(Err(said("busy"))))
        .step(claimed());
    assert!(matches!(
        connect.stage(),
        Stage::ListDevices(InterfaceChoice::VendorSpecific)
    ));
    assert!(connect.finish().is_none());
}

#[test]
fn an_end_is_final() {
    let connect = begin()
        .step(Event::DevicesListed(Err(said("first"))))
        .step(Event::DevicesListed(Err(said("second"))))
        .step(Event::DevicesListed(Ok(())))
        .step(Event::NoMoreDevices);
    assert_eq!(error_of(connect), "Error listing devices: first");
}

#[test]
fn a_connection_that_succeeded_gives_its_client() {
    let connect = HostClient::try_from_nusb_and_interface_id(3, "path", 1, VarSeqKind::Seq4)
        .step(Event::DeviceOpened(Ok(())))
        .step(claimed())
        .step(Event::OutOpened(Ok(())))
        .step(Event::InOpened(Ok(())));
    let client = HostClient::new_raw_nusb(connect);
    assert_eq!(client.link, link());
    assert_eq!(client.settings.err_uri_path, "path");
    assert_eq!(client.settings.outgoing_depth, 1);
    assert_eq!(client.settings.seq_no_kind, VarSeqKind::Seq4);
}

#[test]
fn vendor_interface_is_the_first_of_its_class() {
    assert_eq!(vendor_interface(&vec![]), None);
    assert_eq!(vendor_interface(&vec![(0xFF, 0), (1, 1), (2, 0xFE)]), None);
    assert_eq!(vendor_interface(&vec![(0, 0xFF)]), Some(0));
    assert_eq!(vendor_interface(&vec![(2, 3), (7, 0xFF), (1, 0xFF)]), Some(7));
}

#[test]
fn accepted_devices_tell_the_numbers_and_classes_of_their_interfaces() {
    let devices: Vec<nusb::DeviceInfo> = match nusb::list_devices().wait() {
        Ok(found) => found.collect(),
        Err(_) => vec![],
    };
    for device in &devices {
        let expected: Vec<(u8, u8)> = device
            .interfaces()
            .map(|found| (found.interface_number(), found.class()))
            .collect();
        match Event::device_tested(device, true) {
            Event::DeviceAccepted(entries) => assert_eq!(entries, expected),
            other => panic!("{other:?}"),
        }
        assert!(matches!(
            Event::device_tested(device, false),
            Event::DeviceRejected
        ));
    }
}
