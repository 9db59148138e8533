//! The endpoints of an interface, and the choice of the pair that carries
//! messages.
use vstd::prelude::*;

use nusb::descriptors::{EndpointDescriptor, InterfaceDescriptor};

use crate::descriptors;
#[allow(unused_imports)]
use crate::descriptors::{endpoint_blocks, endpoint_bytes};

verus! {

/// Which way an endpoint carries data.
#[derive(Clone, Copy, Debug, PartialEq, Eq, Structural)]
pub enum Direction {
    /// From the host to the device.
    Out,
    /// From the device to the host.
    In,
}

/// How an endpoint carries data.
#[derive(Clone, Copy, Debug, PartialEq, Eq, Structural)]
pub enum TransferType {
    Control,
    Isochronous,
    Bulk,
    Interrupt,
}

/// One endpoint of an interface.
#[derive(Clone, Copy, Debug, PartialEq, Eq, Structural)]
pub struct Endpoint {
    pub address: u8,
    pub direction: Direction,
    pub transfer_type: TransferType,
    pub max_packet_size: usize,
}

/// The direction that an endpoint address stands for.
pub open spec fn direction_of(address: u8) -> Direction {
    if address >= 0x80 {
        Direction::In
    } else {
        Direction::Out
    }
}

/// The transfer type that the attributes of an endpoint stand for.
pub open spec fn transfer_type_of(attributes: u8) -> TransferType {
    if attributes % 4 == 0 {
        TransferType::Control
    } else if attributes % 4 == 1 {
        TransferType::Isochronous
    } else if attributes % 4 == 2 {
        TransferType::Bulk
    } else {
        TransferType::Interrupt
    }
}

/// The packet size in the two bytes of its descriptor field, low byte first.
pub open spec fn packet_size_of(low: u8, high: u8) -> int {
    (low + 0x100 * high) % 0x800
}

/// The endpoint that an endpoint descriptor stands for.
pub open spec fn endpoint_of(bytes: Seq<u8>) -> Endpoint {
    Endpoint {
        address: bytes[2],
        direction: direction_of(bytes[2]),
        transfer_type: transfer_type_of(bytes[3]),
        max_packet_size: packet_size_of(bytes[4], bytes[5]) as usize,
    }
}

/// The endpoints of one alternate setting, in order.
pub open spec fn setting_endpoints(setting: InterfaceDescriptor<'_>) -> Seq<Endpoint> {
    endpoint_blocks(setting).map_values(|bytes: Seq<u8>| endpoint_of(bytes))
}

/// The endpoints of several alternate settings, one setting after the other.
pub open spec fn interface_endpoints(settings: Seq<InterfaceDescriptor<'_>>) -> Seq<Endpoint> {
    settings.map_values(|setting: InterfaceDescriptor<'_>| setting_endpoints(setting)).flatten()
}

fn read_endpoint(descriptor: &EndpointDescriptor<'_>) -> (endpoint: Endpoint)
    requires
        endpoint_bytes(*descriptor).len() >= 7,
    ensures
        endpoint == endpoint_of(endpoint_bytes(*descriptor)),
{
    Endpoint {
        address: descriptors::address(descriptor),
        direction: descriptors::direction(descriptor),
        transfer_type: descriptors::transfer_type(descriptor),
        max_packet_size: descriptors::max_packet_size(descriptor),
    }
}

/// The endpoints of an interface, from the descriptors of its alternate
/// settings.
pub fn read_endpoints(settings: &Vec<InterfaceDescriptor<'_>>) -> (endpoints: Vec<Endpoint>)
    ensures
        endpoints@ == interface_endpoints(settings@),
{
    let ghost parts = settings@.map_values(
        |setting: InterfaceDescriptor<'_>| setting_endpoints(setting),
    );
    let mut endpoints: Vec<Endpoint> = Vec::new();
    proof {
        assert(parts.take(0).flatten() == Seq::<Endpoint>::empty());
    }
    for i in 0..settings.len()
        invariant
            parts == settings@.map_values(
                |setting: InterfaceDescriptor<'_>| setting_endpoints(setting),
            ),
            endpoints@ == parts.take(i as int).flatten(),
    {
        let found: Vec<EndpointDescriptor<'_>> = descriptors::endpoints(&settings[i]);
        let ghost before = endpoints@;
        let ghost blocks = endpoint_blocks(settings@[i as int]);
        for j in 0..found.len()
            invariant
                found@.map_values(|d: EndpointDescriptor<'_>| endpoint_bytes(d)) == blocks,
                forall|k: int|
                    0 <= k < found@.len() ==> endpoint_bytes(#[trigger] found@[k]).len() >= 7,
                endpoints@ == before + blocks.take(j as int).map_values(
                    |bytes: Seq<u8>| endpoint_of(bytes),
                ),
        {
            proof {
                let mapped = found@.map_values(|d: EndpointDescriptor<'_>| endpoint_bytes(d));
                assert(mapped[j as int] == endpoint_bytes(found@[j as int]));
            }
            endpoints.push(read_endpoint(&found[j]));
            assert(endpoints@ =~= before + blocks.take(j + 1).map_values(
                |bytes: Seq<u8>| endpoint_of(bytes),
            ));
        }
        proof {
            assert(found@.len() == blocks.len()) by {
                let mapped = found@.map_values(|d: EndpointDescriptor<'_>| endpoint_bytes(d));
                assert(mapped.len() == found@.len());
            }
            assert(blocks.take(blocks.len() as int) =~= blocks);
            assert(parts.take(i + 1) =~= parts.take(i as int).push(parts[i as int]));
            parts.take(i as int).lemma_flatten_push(parts[i as int]);
        }
    }
    assert(parts.take(parts.len() as int) =~= parts);
    endpoints
}

/// What the endpoints of an interface offer for carrying messages.
#[derive(Clone, Copy, Debug, PartialEq, Eq, Structural)]
pub struct EndpointScan {
    /// The smallest packet size of a bulk endpoint towards the device.
    pub mps: Option<usize>,
    /// The address of the last bulk endpoint towards the host.
    pub ep_in: Option<u8>,
    /// The address of the last bulk endpoint towards the device.
    pub ep_out: Option<u8>,
}

/// An endpoint for bulk transfers in a direction.
pub open spec fn is_bulk(endpoint: Endpoint, direction: Direction) -> bool {
    endpoint.transfer_type == TransferType::Bulk && endpoint.direction == direction
}

/// The endpoints for bulk transfers in a direction, in order.
pub open spec fn bulk_endpoints(endpoints: Seq<Endpoint>, direction: Direction) -> Seq<Endpoint> {
    endpoints.filter(|endpoint: Endpoint| is_bulk(endpoint, direction))
}

/// The packet sizes of endpoints, in order.
pub open spec fn packet_sizes(endpoints: Seq<Endpoint>) -> Seq<int> {
    endpoints.map_values(|endpoint: Endpoint| endpoint.max_packet_size as int)
}

/// The smallest packet size of endpoints, if there are any.
pub open spec fn smallest_packet_size(endpoints: Seq<Endpoint>) -> Option<usize> {
    if endpoints.len() == 0 {
        None
    } else {
        Some(packet_sizes(endpoints).min() as usize)
    }
}

/// The address of the last of endpoints, if there are any.
pub open spec fn last_address(endpoints: Seq<Endpoint>) -> Option<u8> {
    if endpoints.len() == 0 {
        None
    } else {
        Some(endpoints.last().address)
    }
}

/// What endpoints offer for carrying messages.
pub open spec fn scan(endpoints: Seq<Endpoint>) -> EndpointScan {
    let outs = bulk_endpoints(endpoints, Direction::Out);
    EndpointScan {
        mps: smallest_packet_size(outs),
        ep_in: last_address(bulk_endpoints(endpoints, Direction::In)),
        ep_out: last_address(outs),
    }
}

proof fn lemma_bulk_endpoints_push(endpoints: Seq<Endpoint>, endpoint: Endpoint, direction: Direction)
    ensures
        bulk_endpoints(endpoints.push(endpoint), direction) == if is_bulk(endpoint, direction) {
            bulk_endpoints(endpoints, direction).push(endpoint)
        } else {
            bulk_endpoints(endpoints, direction)
        },
{
    reveal(Seq::filter);
    assert(endpoints.push(endpoint).drop_last() =~= endpoints);
}

proof fn lemma_smallest_packet_size_push(endpoints: Seq<Endpoint>, endpoint: Endpoint)
    ensures
        smallest_packet_size(endpoints.push(endpoint)) == match smallest_packet_size(endpoints) {
            Some(old) => if old <= endpoint.max_packet_size {
                Some(old)
            } else {
                Some(endpoint.max_packet_size)
            },
            None => Some(endpoint.max_packet_size),
        },
{
    let before = packet_sizes(endpoints);
    let after = packet_sizes(endpoints.push(endpoint));
    assert(after =~= before.push(endpoint.max_packet_size as int));
    before.min_ensures();
    after.min_ensures();
    assert(after[before.len() as int] == endpoint.max_packet_size);
    if before.len() > 0 {
        let k = choose|k: int| 0 <= k < before.len() && before[k] == before.min();
        assert(after[k] == before.min());
        assert(0 <= before.min() <= usize::MAX) by {
            assert(before[k] == endpoints[k].max_packet_size);
        }
    }
    let k = choose|k: int| 0 <= k < after.len() && after[k] == after.min();
    assert(k < before.len() ==> after[k] == before[k]);
}

/// Goes through the endpoints once. Endpoints for other than bulk transfers
/// are passed over.
pub fn scan_endpoints(endpoints: &Vec<Endpoint>) -> (found: EndpointScan)
    ensures
        found == scan(endpoints@),
        match found.mps {
            Some(size) => {
                &&& exists|i: int|
                    0 <= i < endpoints@.len() && (#[trigger] endpoints@[i]).transfer_type
                        == TransferType::Bulk && endpoints@[i].direction == Direction::Out
                        && endpoints@[i].max_packet_size == size
                &&& forall|i: int|
                    0 <= i < endpoints@.len() && (#[trigger] endpoints@[i]).transfer_type
                        == TransferType::Bulk && endpoints@[i].direction == Direction::Out ==> size
                        <= endpoints@[i].max_packet_size
            },
            None => forall|i: int|
                0 <= i < endpoints@.len() && (#[trigger] endpoints@[i]).transfer_type
                    == TransferType::Bulk ==> endpoints@[i].direction == Direction::In,
        },
        match found.ep_out {
            Some(address) => exists|i: int|
                0 <= i < endpoints@.len() && (#[trigger] endpoints@[i]).transfer_type
                    == TransferType::Bulk && endpoints@[i].direction == Direction::Out
                    && endpoints@[i].address == address && (forall|j: int|
                    i < j < endpoints@.len() && (#[trigger] endpoints@[j]).transfer_type
                        == TransferType::Bulk ==> endpoints@[j].direction == Direction::In),
            None => forall|i: int|
                0 <= i < endpoints@.len() && (#[trigger] endpoints@[i]).transfer_type
                    == TransferType::Bulk ==> endpoints@[i].direction == Direction::In,
        },
        match found.ep_in {
            Some(address) => exists|i: int|
                0 <= i < endpoints@.len() && (#[trigger] endpoints@[i]).transfer_type
                    == TransferType::Bulk && endpoints@[i].direction == Direction::In
                    && endpoints@[i].address == address && (forall|j: int|
                    i < j < endpoints@.len() && (#[trigger] endpoints@[j]).transfer_type
                        == TransferType::Bulk ==> endpoints@[j].direction == Direction::Out),
            None => forall|i: int|
                0 <= i < endpoints@.len() && (#[trigger] endpoints@[i]).transfer_type
                    == TransferType::Bulk ==> endpoints@[i].direction == Direction::Out,
        },
{
    let mut mps: Option<usize> = None;
    let mut ep_in: Option<u8> = None;
    let mut ep_out: Option<u8> = None;
    proof {
        reveal(Seq::filter);
    }
    for i in 0..endpoints.len()
        invariant
            (EndpointScan { mps, ep_in, ep_out }) == scan(endpoints@.take(i as int)),
    {
        let endpoint: Endpoint = endpoints[i];
        proof {
            let before = endpoints@.take(i as int);
            assert(endpoints@.take(i + 1) =~= before.push(endpoint));
            lemma_bulk_endpoints_push(before, endpoint, Direction::Out);
            lemma_bulk_endpoints_push(before, endpoint, Direction::In);
            lemma_smallest_packet_size_push(bulk_endpoints(before, Direction::Out), endpoint);
        }
        if endpoint.transfer_type == TransferType::Bulk {
            match endpoint.direction {
                Direction::Out => {
                    mps = Some(match mps {
                        Some(old) => if old <= endpoint.max_packet_size {
                            old
                        } else {
                            endpoint.max_packet_size
                        },
                        None => endpoint.max_packet_size,
                    });
                    ep_out = Some(endpoint.address);
                },
                Direction::In => {
                    ep_in = Some(endpoint.address);
                },
            }
        }
    }
    assert(endpoints@.take(endpoints@.len() as int) =~= endpoints@);
    proof {
        law_mps_is_smallest(endpoints@);
        law_last_bulk_endpoint(endpoints@, Direction::Out);
        law_last_bulk_endpoint(endpoints@, Direction::In);
    }
    EndpointScan { mps, ep_in, ep_out }
}

proof fn lemma_bulk_endpoints_members(endpoints: Seq<Endpoint>, direction: Direction)
    ensures
        forall|k: int|
            0 <= k < bulk_endpoints(endpoints, direction).len() ==> {
                let found = #[trigger] bulk_endpoints(endpoints, direction)[k];
                is_bulk(found, direction) && endpoints.contains(found)
            },
        forall|i: int|
            0 <= i < endpoints.len() && is_bulk(endpoints[i], direction)
                ==> #[trigger] bulk_endpoints(endpoints, direction).contains(endpoints[i]),
    decreases endpoints.len(),
{
    reveal(Seq::filter);
    if endpoints.len() > 0 {
        let rest = endpoints.drop_last();
        let last = endpoints.last();
        lemma_bulk_endpoints_members(rest, direction);
        assert(endpoints =~= rest.push(last));
        lemma_bulk_endpoints_push(rest, last, direction);
        let before = bulk_endpoints(rest, direction);
        let after = bulk_endpoints(endpoints, direction);
        assert forall|k: int| 0 <= k < after.len() implies {
            let found = #[trigger] after[k];
            is_bulk(found, direction) && endpoints.contains(found)
        } by {
            if k < before.len() {
                assert(after[k] == before[k]);
                let i = choose|i: int| 0 <= i < rest.len() && rest[i] == before[k];
                assert(endpoints[i] == before[k]);
            } else {
                assert(after[k] == endpoints[endpoints.len() - 1]);
            }
        }
        assert forall|i: int|
            0 <= i < endpoints.len() && is_bulk(
                endpoints[i],
                direction,
            ) implies #[trigger] after.contains(endpoints[i]) by {
            if i < rest.len() {
                assert(rest[i] == endpoints[i]);
                assert(before.contains(rest[i]));
                let k = choose|k: int| 0 <= k < before.len() && before[k] == rest[i];
                assert(after[k] == endpoints[i]);
            } else {
                assert(after[before.len() as int] == endpoints[i]);
            }
        }
    }
}

/// The packet size that is found is that of some bulk endpoint towards the
/// device, and no such endpoint has a smaller one. Where none is found, there
/// is no such endpoint.
pub proof fn law_mps_is_smallest(endpoints: Seq<Endpoint>)
    ensures
        match scan(endpoints).mps {
            Some(size) => {
                &&& exists|i: int|
                    0 <= i < endpoints.len() && is_bulk(#[trigger] endpoints[i], Direction::Out)
                        && endpoints[i].max_packet_size == size
                &&& forall|i: int|
                    0 <= i < endpoints.len() && is_bulk(#[trigger] endpoints[i], Direction::Out)
                        ==> size <= endpoints[i].max_packet_size
            },
            None => forall|i: int|
                0 <= i < endpoints.len() ==> !is_bulk(#[trigger] endpoints[i], Direction::Out),
        },
{
    let outs = bulk_endpoints(endpoints, Direction::Out);
    let sizes = packet_sizes(outs);
    lemma_bulk_endpoints_members(endpoints, Direction::Out);
    sizes.min_ensures();
    if outs.len() > 0 {
        let k = choose|k: int| 0 <= k < sizes.len() && sizes[k] == sizes.min();
        assert(sizes[k] == outs[k].max_packet_size);
        assert(endpoints.contains(outs[k]));
        let i = choose|i: int| 0 <= i < endpoints.len() && endpoints[i] == outs[k];
        assert(is_bulk(endpoints[i], Direction::Out));
        assert forall|j: int|
            0 <= j < endpoints.len() && is_bulk(
                #[trigger] endpoints[j],
                Direction::Out,
            ) implies sizes.min() <= endpoints[j].max_packet_size by {
            assert(outs.contains(endpoints[j]));
            let n = choose|n: int| 0 <= n < outs.len() && outs[n] == endpoints[j];
            assert(sizes[n] == endpoints[j].max_packet_size);
        }
    } else {
        assert forall|j: int| 0 <= j < endpoints.len() implies !is_bulk(
            #[trigger] endpoints[j],
            Direction::Out,
        ) by {
            if is_bulk(endpoints[j], Direction::Out) {
                assert(outs.contains(endpoints[j]));
            }
        }
    }
}

/// The address that is found for a direction is that of a bulk endpoint in this
/// direction with none behind it. Where none is found, there is no bulk
/// endpoint in this direction.
pub proof fn law_last_bulk_endpoint(endpoints: Seq<Endpoint>, direction: Direction)
    ensures
        match last_address(bulk_endpoints(endpoints, direction)) {
            Some(address) => exists|i: int|
                0 <= i < endpoints.len() && is_bulk(#[trigger] endpoints[i], direction)
                    && endpoints[i].address == address && (forall|j: int|
                    i < j < endpoints.len() ==> !is_bulk(#[trigger] endpoints[j], direction)),
            None => forall|i: int|
                0 <= i < endpoints.len() ==> !is_bulk(#[trigger] endpoints[i], direction),
        },
    decreases endpoints.len(),
{
    reveal(Seq::filter);
    if endpoints.len() > 0 {
        let rest = endpoints.drop_last();
        let last = endpoints.last();
        assert(endpoints =~= rest.push(last));
        lemma_bulk_endpoints_push(rest, last, direction);
        if is_bulk(last, direction) {
            assert(is_bulk(endpoints[endpoints.len() - 1], direction));
        } else {
            law_last_bulk_endpoint(rest, direction);
            assert forall|j: int| 0 <= j < rest.len() implies rest[j] == #[trigger] endpoints[j] by {
            }
            if let Some(address) = last_address(bulk_endpoints(rest, direction)) {
                let i = choose|i: int|
                    0 <= i < rest.len() && is_bulk(#[trigger] rest[i], direction)
                        && rest[i].address == address && (forall|j: int|
                        i < j < rest.len() ==> !is_bulk(#[trigger] rest[j], direction));
                assert(is_bulk(endpoints[i], direction) && endpoints[i].address == address);
            }
        }
    }
}

/// A packet size is found exactly where an endpoint towards the device is.
pub proof fn law_mps_comes_with_ep_out(endpoints: Seq<Endpoint>)
    ensures
        scan(endpoints).mps is Some <==> scan(endpoints).ep_out is Some,
{
}

/// Endpoints for other than bulk transfers change nothing.
pub proof fn law_only_bulk_counts(endpoints: Seq<Endpoint>)
    ensures
        scan(endpoints) == scan(
            endpoints.filter(|endpoint: Endpoint| endpoint.transfer_type == TransferType::Bulk),
        ),
{
    lemma_bulk_of_bulk(endpoints, Direction::Out);
    lemma_bulk_of_bulk(endpoints, Direction::In);
}

proof fn lemma_bulk_of_bulk(endpoints: Seq<Endpoint>, direction: Direction)
    ensures
        bulk_endpoints(
            endpoints.filter(|endpoint: Endpoint| endpoint.transfer_type == TransferType::Bulk),
            direction,
        ) == bulk_endpoints(endpoints, direction),
    decreases endpoints.len(),
{
    reveal(Seq::filter);
    if endpoints.len() > 0 {
        let rest = endpoints.drop_last();
        let last = endpoints.last();
        let bulk = |endpoint: Endpoint| endpoint.transfer_type == TransferType::Bulk;
        assert(endpoints =~= rest.push(last));
        lemma_bulk_of_bulk(rest, direction);
        lemma_bulk_endpoints_push(rest, last, direction);
        lemma_bulk_endpoints_push(rest.filter(bulk), last, direction);
    }
}

/// Of the endpoints that were read from descriptors, the one found towards the
/// device has an address without the top bit and the one found towards the host
/// has an address with it, so they are never the same; and no packet size is
/// above eleven bits.
pub proof fn law_read_endpoints_have_sides(settings: Seq<InterfaceDescriptor<'_>>)
    ensures
        scan(interface_endpoints(settings)).ep_out matches Some(address) ==> address < 0x80,
        scan(interface_endpoints(settings)).ep_in matches Some(address) ==> address >= 0x80,
        scan(interface_endpoints(settings)).mps matches Some(size) ==> size < 0x800,
{
    let endpoints = interface_endpoints(settings);
    let parts = settings.map_values(
        |setting: InterfaceDescriptor<'_>| setting_endpoints(setting),
    );
    assert forall|p: int, k: int| 0 <= p < parts.len() && 0 <= k < parts[p].len() implies from_bytes(
        #[trigger] parts[p][k],
    ) by {
        assert(parts[p][k] == endpoint_of(endpoint_blocks(settings[p])[k]));
    }
    lemma_flatten_from_bytes(parts);
    law_last_bulk_endpoint(endpoints, Direction::Out);
    law_last_bulk_endpoint(endpoints, Direction::In);
    law_mps_is_smallest(endpoints);
}

spec fn from_bytes(endpoint: Endpoint) -> bool {
    endpoint.direction == direction_of(endpoint.address) && endpoint.max_packet_size < 0x800
}

proof fn lemma_flatten_from_bytes(parts: Seq<Seq<Endpoint>>)
    requires
        forall|p: int, k: int|
            0 <= p < parts.len() && 0 <= k < parts[p].len() ==> from_bytes(#[trigger] parts[p][k]),
    ensures
        forall|i: int| 0 <= i < parts.flatten().len() ==> from_bytes(#[trigger] parts.flatten()[i]),
    decreases parts.len(),
{
    if parts.len() > 0 {
        let rest = parts.drop_first();
        assert forall|p: int, k: int| 0 <= p < rest.len() && 0 <= k < rest[p].len() implies from_bytes(
            #[trigger] rest[p][k],
        ) by {
            assert(rest[p] == parts[p + 1]);
            assert(from_bytes(parts[p + 1][k]));
        }
        lemma_flatten_from_bytes(rest);
        assert forall|i: int| 0 <= i < parts.flatten().len() implies from_bytes(
            #[trigger] parts.flatten()[i],
        ) by {
            if i < parts[0].len() {
                assert(parts.flatten()[i] == parts[0][i]);
            } else {
                assert(parts.flatten()[i] == rest.flatten()[i - parts[0].len()]);
            }
        }
    }
}

} // verus!
