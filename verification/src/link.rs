//! The pair of endpoints that carries messages, and the transfers to keep in
//! flight on them.
use vstd::prelude::*;

use vstd::string::StringExecFns;

use crate::endpoint::EndpointScan;

verus! {

/// The size in bytes of the largest possible transfer on an endpoint.
pub const MAX_TRANSFER_SIZE: usize = 1024;

/// How many transfers are in flight at once, so that frames are taken from the
/// device while earlier ones wait to be processed.
pub const IN_FLIGHT_REQS: usize = 4;

/// An endpoint and the transfers to queue on it.
#[derive(Clone, Copy, Debug, PartialEq, Eq, Structural)]
pub struct TransferQueue {
    pub address: u8,
    pub transfer_size: usize,
    pub num_transfers: usize,
}

/// The two endpoints of a connection.
#[derive(Clone, Copy, Debug, PartialEq, Eq, Structural)]
pub struct Link {
    pub out_queue: TransferQueue,
    pub in_queue: TransferQueue,
}

/// The queue for an endpoint.
pub open spec fn queue_on(address: u8) -> TransferQueue {
    TransferQueue {
        address,
        transfer_size: MAX_TRANSFER_SIZE,
        num_transfers: IN_FLIGHT_REQS,
    }
}

/// The link between two endpoints.
pub open spec fn link_over(ep_out: u8, ep_in: u8) -> Link {
    Link { out_queue: queue_on(ep_out), in_queue: queue_on(ep_in) }
}

/// A result with its error message as a sequence of characters.
pub open spec fn result_view<T>(result: Result<T, String>) -> Result<T, Seq<char>> {
    match result {
        Ok(value) => Ok(value),
        Err(message) => Err(message@),
    }
}

/// The link over what an interface offers. An interface without an endpoint
/// towards the device is told of first.
pub open spec fn link_from(found: EndpointScan) -> Result<Link, Seq<char>> {
    match (found.ep_out, found.ep_in) {
        (None, _) => Err("Failed to find OUT EP"@),
        (Some(_), None) => Err("Failed to find IN EP"@),
        (Some(ep_out), Some(ep_in)) => Ok(link_over(ep_out, ep_in)),
    }
}

fn queue(address: u8) -> (made: TransferQueue)
    ensures
        made == queue_on(address),
{
    TransferQueue { address, transfer_size: MAX_TRANSFER_SIZE, num_transfers: IN_FLIGHT_REQS }
}

/// Picks the link over what an interface offers.
pub fn select_link(found: EndpointScan) -> (selected: Result<Link, String>)
    ensures
        result_view(selected) == link_from(found),
        match selected {
            Ok(link) => {
                &&& found.ep_out == Some(link.out_queue.address)
                &&& found.ep_in == Some(link.in_queue.address)
                &&& link.out_queue.transfer_size == 1024 && link.out_queue.num_transfers == 4
                &&& link.in_queue.transfer_size == 1024 && link.in_queue.num_transfers == 4
            },
            Err(message) => {
                &&& found.ep_out is None || found.ep_in is None
                &&& found.ep_out is None ==> message@ == "Failed to find OUT EP"@
                &&& found.ep_out is Some ==> message@ == "Failed to find IN EP"@
            },
        },
{
    match (found.ep_out, found.ep_in) {
        (None, _) => Err("Failed to find OUT EP".to_owned()),
        (Some(_), None) => Err("Failed to find IN EP".to_owned()),
        (Some(ep_out), Some(ep_in)) => Ok(Link { out_queue: queue(ep_out), in_queue: queue(ep_in) }),
    }
}

/// A message and what is known of its cause.
pub(crate) fn explain(message: &str, cause: &String) -> (text: String)
    ensures
        text@ == message@ + cause@,
{
    let mut text: String = message.to_owned();
    text.append(cause.as_str());
    text
}

} // verus!
