//! The calls into `nusb` that read what it parsed of a device, and what they
//! are taken to return.
use vstd::prelude::*;

use nusb::descriptors::{EndpointDescriptor, InterfaceDescriptor};

use crate::endpoint::{Direction, TransferType, direction_of, packet_size_of, transfer_type_of};

verus! {

/// One alternate setting of an interface, as `nusb` parsed it.
#[verifier::external_type_specification]
#[verifier::external_body]
pub struct ExInterfaceDescriptor<'a>(InterfaceDescriptor<'a>);

/// One endpoint of an alternate setting, as `nusb` parsed it.
#[verifier::external_type_specification]
#[verifier::external_body]
pub struct ExEndpointDescriptor<'a>(EndpointDescriptor<'a>);

/// What the operating system tells of a device that has not been opened.
#[verifier::external_type_specification]
#[verifier::external_body]
pub struct ExDeviceInfo(nusb::DeviceInfo);

/// The endpoints of an alternate setting, in order: of each one its endpoint
/// descriptor and the descriptors that trail it, as bytes.
pub uninterp spec fn endpoint_blocks(setting: InterfaceDescriptor<'_>) -> Seq<Seq<u8>>;

/// The bytes of an endpoint descriptor and of the descriptors that trail it.
pub uninterp spec fn endpoint_bytes(descriptor: EndpointDescriptor<'_>) -> Seq<u8>;

/// The number and the class code of each of a device's interfaces, in the order
/// in which the device tells of them.
pub uninterp spec fn interface_entries(device: nusb::DeviceInfo) -> Seq<(u8, u8)>;

/// Calls `InterfaceDescriptor::endpoints`. It hands out the endpoints of the
/// alternate setting in order, each with all of its bytes, and none of them is
/// shorter than the seven bytes of an endpoint descriptor.
#[verifier::external_body]
pub(crate) fn endpoints<'a>(setting: &InterfaceDescriptor<'a>) -> (found: Vec<EndpointDescriptor<'a>>)
    ensures
        found@.map_values(|d: EndpointDescriptor<'a>| endpoint_bytes(d)) == endpoint_blocks(*setting),
        forall|i: int| 0 <= i < found@.len() ==> endpoint_bytes(#[trigger] found@[i]).len() >= 7,
{
    setting.endpoints().collect()
}

/// Calls `EndpointDescriptor::address`: the third byte.
#[verifier::external_body]
pub(crate) fn address(descriptor: &EndpointDescriptor<'_>) -> (address: u8)
    requires
        endpoint_bytes(*descriptor).len() >= 7,
    ensures
        address == endpoint_bytes(*descriptor)[2],
{
    descriptor.address()
}

/// Calls `EndpointDescriptor::direction`: the top bit of the address.
#[verifier::external_body]
pub(crate) fn direction(descriptor: &EndpointDescriptor<'_>) -> (direction: Direction)
    requires
        endpoint_bytes(*descriptor).len() >= 7,
    ensures
        direction == direction_of(endpoint_bytes(*descriptor)[2]),
{
    match descriptor.direction() {
        nusb::transfer::Direction::Out => Direction::Out,
        nusb::transfer::Direction::In => Direction::In,
    }
}

/// Calls `EndpointDescriptor::transfer_type`: the two low bits of the fourth
/// byte.
#[verifier::external_body]
pub(crate) fn transfer_type(descriptor: &EndpointDescriptor<'_>) -> (transfer_type: TransferType)
    requires
        endpoint_bytes(*descriptor).len() >= 7,
    ensures
        transfer_type == transfer_type_of(endpoint_bytes(*descriptor)[3]),
{
    match descriptor.transfer_type() {
        nusb::descriptors::TransferType::Control => TransferType::Control,
        nusb::descriptors::TransferType::Isochronous => TransferType::Isochronous,
        nusb::descriptors::TransferType::Bulk => TransferType::Bulk,
        nusb::descriptors::TransferType::Interrupt => TransferType::Interrupt,
    }
}

/// Calls `EndpointDescriptor::max_packet_size`: the eleven low bits of the
/// little-endian number in the fifth and sixth bytes.
#[verifier::external_body]
pub(crate) fn max_packet_size(descriptor: &EndpointDescriptor<'_>) -> (size: usize)
    requires
        endpoint_bytes(*descriptor).len() >= 7,
    ensures
        size == packet_size_of(endpoint_bytes(*descriptor)[4], endpoint_bytes(*descriptor)[5]),
{
    descriptor.max_packet_size()
}

/// Calls `DeviceInfo::interfaces`, and of each of them
/// `InterfaceInfo::interface_number` and `InterfaceInfo::class`: the numbers and
/// class codes in the order in which the device tells of its interfaces.
#[verifier::external_body]
pub(crate) fn interfaces(device: &nusb::DeviceInfo) -> (found: Vec<(u8, u8)>)
    ensures
        found@ == interface_entries(*device),
{
    device.interfaces().map(|found| (found.interface_number(), found.class())).collect()
}

} // verus!
