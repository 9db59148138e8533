//! The way from a choice of device to an open link, as a sequence of requests
//! and replies.
use vstd::prelude::*;

use crate::client::{ClientSettings, HostClient};
#[allow(unused_imports)]
use crate::client::{ClientView, SettingsView};
use crate::descriptors;
#[allow(unused_imports)]
use crate::descriptors::interface_entries;
use crate::endpoint::{Endpoint, scan_endpoints};
#[allow(unused_imports)]
use crate::endpoint::scan;
use crate::link::{Link, explain, select_link};
#[allow(unused_imports)]
use crate::link::link_from;

verus! {

/// The class of interfaces whose protocol is the vendor's own.
pub const VENDOR_SPECIFIC: u8 = 0xFF;

/// Which interface of a device to use.
#[derive(Clone, Copy, Debug, PartialEq, Eq, Structural)]
pub enum InterfaceChoice {
    /// The first one of the vendor-specific class.
    VendorSpecific,
    /// Interface zero, where interfaces cannot be listed.
    Zero,
    /// The first one that a test accepts.
    Tested,
}

/// The request that a [`Connect`] waits for the reply to, or how it ended.
#[derive(Debug)]
pub enum Stage {
    /// List the devices.
    ListDevices(InterfaceChoice),
    /// Test the next one of the devices.
    TestDevice(InterfaceChoice),
    /// Test one of the interfaces of the device that was accepted, counted from
    /// zero. The entries are their numbers and classes.
    TestInterface { index: usize, entries: Vec<(u8, u8)> },
    /// Open the device that was accepted, for the interface with this number.
    OpenDevice { interface_id: usize },
    /// Claim an interface of the open device.
    ClaimInterface { interface_number: u8 },
    /// Open the endpoint towards the device.
    OpenOut(Link),
    /// Open the endpoint towards the host.
    OpenIn(Link),
    /// Both endpoints are open.
    Connected(Link),
    /// There is no connection, for the reason given.
    Failed(String),
}

/// The reply to a request. What failed is told in words.
#[derive(Debug)]
pub enum Event {
    /// To [`Stage::ListDevices`].
    DevicesListed(Result<(), String>),
    /// To [`Stage::TestDevice`]: the next device is not the one.
    DeviceRejected,
    /// To [`Stage::TestDevice`]: the next device is the one, and has interfaces
    /// of these numbers and classes.
    DeviceAccepted(Vec<(u8, u8)>),
    /// To [`Stage::TestDevice`]: there is no next device.
    NoMoreDevices,
    /// To [`Stage::TestInterface`]: whether the interface is the one.
    InterfaceTested(bool),
    /// To [`Stage::OpenDevice`].
    DeviceOpened(Result<(), String>),
    /// To [`Stage::ClaimInterface`]: the endpoints of the interface.
    InterfaceClaimed(Result<Vec<Endpoint>, String>),
    /// To [`Stage::OpenOut`].
    OutOpened(Result<(), String>),
    /// To [`Stage::OpenIn`].
    InOpened(Result<(), String>),
}

/// [`Stage`] over mathematical values.
pub ghost enum StageView {
    ListDevices(InterfaceChoice),
    TestDevice(InterfaceChoice),
    TestInterface { index: int, entries: Seq<(u8, u8)> },
    OpenDevice { interface_id: int },
    ClaimInterface { interface_number: u8 },
    OpenOut(Link),
    OpenIn(Link),
    Connected(Link),
    Failed(Seq<char>),
}

/// [`Event`] over mathematical values.
pub ghost enum EventView {
    DevicesListed(Result<(), Seq<char>>),
    DeviceRejected,
    DeviceAccepted(Seq<(u8, u8)>),
    NoMoreDevices,
    InterfaceTested(bool),
    DeviceOpened(Result<(), Seq<char>>),
    InterfaceClaimed(Result<Seq<Endpoint>, Seq<char>>),
    OutOpened(Result<(), Seq<char>>),
    InOpened(Result<(), Seq<char>>),
}

impl View for Stage {
    type V = StageView;

    open spec fn view(&self) -> StageView {
        match *self {
            Stage::ListDevices(choice) => StageView::ListDevices(choice),
            Stage::TestDevice(choice) => StageView::TestDevice(choice),
            Stage::TestInterface { index, entries } => StageView::TestInterface {
                index: index as int,
                entries: entries@,
            },
            Stage::OpenDevice { interface_id } => StageView::OpenDevice {
                interface_id: interface_id as int,
            },
            Stage::ClaimInterface { interface_number } => StageView::ClaimInterface {
                interface_number,
            },
            Stage::OpenOut(link) => StageView::OpenOut(link),
            Stage::OpenIn(link) => StageView::OpenIn(link),
            Stage::Connected(link) => StageView::Connected(link),
            Stage::Failed(message) => StageView::Failed(message@),
        }
    }
}

impl View for Event {
    type V = EventView;

    open spec fn view(&self) -> EventView {
        match *self {
            Event::DevicesListed(reply) => EventView::DevicesListed(crate::link::result_view(reply)),
            Event::DeviceRejected => EventView::DeviceRejected,
            Event::DeviceAccepted(entries) => EventView::DeviceAccepted(entries@),
            Event::NoMoreDevices => EventView::NoMoreDevices,
            Event::InterfaceTested(accepted) => EventView::InterfaceTested(accepted),
            Event::DeviceOpened(reply) => EventView::DeviceOpened(crate::link::result_view(reply)),
            Event::InterfaceClaimed(reply) => EventView::InterfaceClaimed(
                match reply {
                    Ok(endpoints) => Ok(endpoints@),
                    Err(cause) => Err(cause@),
                },
            ),
            Event::OutOpened(reply) => EventView::OutOpened(crate::link::result_view(reply)),
            Event::InOpened(reply) => EventView::InOpened(crate::link::result_view(reply)),
        }
    }
}

/// The classes of interfaces.
pub open spec fn classes_of(entries: Seq<(u8, u8)>) -> Seq<u8> {
    entries.map_values(|entry: (u8, u8)| entry.1)
}

/// The number of the first vendor-specific interface.
pub open spec fn vendor_number(entries: Seq<(u8, u8)>) -> Option<u8> {
    match classes_of(entries).index_of_first(VENDOR_SPECIFIC) {
        Some(i) => Some(entries[i].0),
        None => None,
    }
}

/// What follows on the search for an interface.
pub open spec fn after_search(found: Option<u8>) -> StageView {
    match found {
        Some(number) => StageView::OpenDevice { interface_id: number as int },
        None => StageView::Failed("Failed to find matching interface!!"@),
    }
}

/// What follows on the device that was accepted.
pub open spec fn after_device(choice: InterfaceChoice, entries: Seq<(u8, u8)>) -> StageView {
    match choice {
        InterfaceChoice::VendorSpecific => after_search(vendor_number(entries)),
        InterfaceChoice::Zero => StageView::OpenDevice { interface_id: 0 },
        InterfaceChoice::Tested => if entries.len() > 0 {
            StageView::TestInterface { index: 0, entries }
        } else {
            after_search(None)
        },
    }
}

/// What follows on the test of an interface.
pub open spec fn after_interface(index: int, entries: Seq<(u8, u8)>, accepted: bool) -> StageView {
    if accepted {
        after_search(Some(entries[index].0))
    } else if index + 1 < entries.len() {
        StageView::TestInterface { index: index + 1, entries }
    } else {
        after_search(None)
    }
}

/// What follows on an open device. No interface has a number above one byte.
pub open spec fn after_opening(interface_id: int) -> StageView {
    if 0 <= interface_id <= 0xFF {
        StageView::ClaimInterface { interface_number: interface_id as u8 }
    } else {
        StageView::Failed("Failed claiming interface: no interface has this id"@)
    }
}

/// What follows on a claimed interface with these endpoints.
pub open spec fn after_claim(endpoints: Seq<Endpoint>) -> StageView {
    match link_from(scan(endpoints)) {
        Ok(link) => StageView::OpenOut(link),
        Err(message) => StageView::Failed(message),
    }
}

/// What follows on a request that can fail: the failure is told by a message
/// and its cause.
pub open spec fn unless_failed(
    reply: Result<(), Seq<char>>,
    message: Seq<char>,
    next: StageView,
) -> StageView {
    match reply {
        Ok(_) => next,
        Err(cause) => StageView::Failed(message + cause),
    }
}

impl StageView {
    /// The stage after a reply. A reply to another request changes nothing.
    pub open spec fn after(self, event: EventView) -> StageView {
        match (self, event) {
            (StageView::ListDevices(choice), EventView::DevicesListed(reply)) => unless_failed(
                reply,
                "Error listing devices: "@,
                StageView::TestDevice(choice),
            ),
            (StageView::TestDevice(choice), EventView::DeviceAccepted(entries)) => after_device(
                choice,
                entries,
            ),
            (StageView::TestDevice(_), EventView::NoMoreDevices) => StageView::Failed(
                "Failed to find matching nusb device!"@,
            ),
            (
                StageView::TestInterface { index, entries },
                EventView::InterfaceTested(accepted),
            ) => after_interface(index, entries, accepted),
            (StageView::OpenDevice { interface_id }, EventView::DeviceOpened(reply)) => unless_failed(
                reply,
                "Failed opening device: "@,
                after_opening(interface_id),
            ),
            (StageView::ClaimInterface { .. }, EventView::InterfaceClaimed(reply)) => match reply {
                Ok(endpoints) => after_claim(endpoints),
                Err(cause) => StageView::Failed("Failed claiming interface: "@ + cause),
            },
            (StageView::OpenOut(link), EventView::OutOpened(reply)) => unless_failed(
                reply,
                "Failed to claim OUT endpoint: "@,
                StageView::OpenIn(link),
            ),
            (StageView::OpenIn(link), EventView::InOpened(reply)) => unless_failed(
                reply,
                "Failed to claim IN endpoint: "@,
                StageView::Connected(link),
            ),
            _ => self,
        }
    }
}

/// The number of the first vendor-specific interface of a device, from the
/// numbers and classes of its interfaces.
pub fn vendor_interface(entries: &Vec<(u8, u8)>) -> (found: Option<u8>)
    ensures
        found == vendor_number(entries@),
        match found {
            Some(number) => exists|i: int|
                0 <= i < entries@.len() && #[trigger] entries@[i] == (number, 0xFFu8) && (forall|
                    j: int,
                |
                    0 <= j < i ==> (#[trigger] entries@[j]).1 != 0xFF),
            None => forall|j: int| 0 <= j < entries@.len() ==> (#[trigger] entries@[j]).1 != 0xFF,
        },
{
    let ghost classes = classes_of(entries@);
    proof {
        classes.index_of_first_ensures(VENDOR_SPECIFIC);
    }
    for i in 0..entries.len()
        invariant
            classes == classes_of(entries@),
            forall|j: int| 0 <= j < i ==> (#[trigger] entries@[j]).1 != VENDOR_SPECIFIC,
    {
        let entry: (u8, u8) = entries[i];
        if entry.1 == VENDOR_SPECIFIC {
            proof {
                classes.index_of_first_ensures(VENDOR_SPECIFIC);
                assert(classes.contains(classes[i as int]));
                assert(classes.index_of_first(VENDOR_SPECIFIC) == Some(i as int)) by {
                    let first = classes.index_of_first(VENDOR_SPECIFIC).unwrap();
                    assert(classes[first] == entries@[first].1);
                }
                assert(entries@[i as int] == (entry.0, VENDOR_SPECIFIC));
            }
            return Some(entry.0);
        }
    }
    proof {
        if let Some(first) = classes.index_of_first(VENDOR_SPECIFIC) {
            assert(classes[first] == entries@[first].1);
        }
    }
    None
}

fn search_ended(found: Option<u8>) -> (stage: Stage)
    ensures
        stage@ == after_search(found),
{
    match found {
        Some(number) => Stage::OpenDevice { interface_id: number as usize },
        None => Stage::Failed("Failed to find matching interface!!".to_owned()),
    }
}

fn device_accepted(choice: InterfaceChoice, entries: Vec<(u8, u8)>) -> (stage: Stage)
    ensures
        stage@ == after_device(choice, entries@),
{
    match choice {
        InterfaceChoice::VendorSpecific => search_ended(vendor_interface(&entries)),
        InterfaceChoice::Zero => Stage::OpenDevice { interface_id: 0 },
        InterfaceChoice::Tested => {
            if entries.len() > 0 {
                Stage::TestInterface { index: 0, entries }
            } else {
                search_ended(None)
            }
        },
    }
}

fn interface_tested(index: usize, entries: Vec<(u8, u8)>, accepted: bool) -> (stage: Stage)
    requires
        index < entries@.len(),
    ensures
        stage@ == after_interface(index as int, entries@, accepted),
{
    let count: usize = entries.len();
    if accepted {
        search_ended(Some(entries[index].0))
    } else if index + 1 < count {
        Stage::TestInterface { index: index + 1, entries }
    } else {
        search_ended(None)
    }
}

/// The first request for an interface that is claimed already.
pub(crate) fn interface_claimed(endpoints: &Vec<Endpoint>) -> (stage: Stage)
    ensures
        stage@ == after_claim(endpoints@),
{
    match select_link(scan_endpoints(endpoints)) {
        Ok(link) => Stage::OpenOut(link),
        Err(message) => Stage::Failed(message),
    }
}

fn device_opened(interface_id: usize) -> (stage: Stage)
    ensures
        stage@ == after_opening(interface_id as int),
{
    if interface_id <= 0xFF {
        Stage::ClaimInterface { interface_number: interface_id as u8 }
    } else {
        Stage::Failed("Failed claiming interface: no interface has this id".to_owned())
    }
}

fn reply_or_failed(reply: Result<(), String>, message: &str, next: Stage) -> (stage: Stage)
    ensures
        stage@ == unless_failed(crate::link::result_view(reply), message@, next@),
{
    match reply {
        Ok(_) => next,
        Err(cause) => Stage::Failed(explain(message, &cause)),
    }
}

/// A connection on its way.
#[derive(Debug)]
pub struct Connect {
    settings: ClientSettings,
    stage: Stage,
}

/// [`Connect`] over mathematical values.
pub ghost struct ConnectView {
    pub settings: SettingsView,
    pub stage: StageView,
}

impl View for Connect {
    type V = ConnectView;

    closed spec fn view(&self) -> ConnectView {
        ConnectView { settings: self.settings@, stage: self.stage@ }
    }
}

impl StageView {
    /// An interface that is to be tested is one of those of the device.
    pub open spec fn valid(self) -> bool {
        self matches StageView::TestInterface { index, entries } ==> 0 <= index < entries.len()
    }
}

impl ConnectView {
    /// The connection after a reply.
    pub open spec fn after(self, event: EventView) -> ConnectView {
        ConnectView { settings: self.settings, stage: self.stage.after(event) }
    }

    /// How the connection ended: with a client over the link and with the
    /// settings from the start, or with a message.
    pub open spec fn outcome(self) -> Option<Result<ClientView, Seq<char>>> {
        match self.stage {
            StageView::Connected(link) => Some(Ok(ClientView { link, settings: self.settings })),
            StageView::Failed(message) => Some(Err(message)),
            _ => None,
        }
    }
}

impl Connect {
    #[verifier::type_invariant]
    spec fn valid(self) -> bool {
        self.stage@.valid()
    }

    /// A connection that begins with a request.
    pub(crate) fn begin(settings: ClientSettings, stage: Stage) -> (connect: Connect)
        requires
            stage@.valid(),
        ensures
            connect@ == (ConnectView { settings: settings@, stage: stage@ }),
    {
        Connect { settings, stage }
    }

    /// The request to make now, or how the connection ended.
    pub fn stage(&self) -> (stage: &Stage)
        ensures
            stage@ == self@.stage,
            stage@.valid(),
    {
        proof {
            use_type_invariant(self);
        }
        &self.stage
    }

    /// Takes the reply to the request that was made. A reply to another request
    /// changes nothing, nor does any reply once the connection has ended.
    pub fn step(self, event: Event) -> (next: Connect)
        ensures
            next@ == self@.after(event@),
    {
        proof {
            use_type_invariant(&self);
        }
        let settings: ClientSettings = self.settings;
        let stage: Stage = match (self.stage, event) {
            (Stage::ListDevices(choice), Event::DevicesListed(reply)) => reply_or_failed(
                reply,
                "Error listing devices: ",
                Stage::TestDevice(choice),
            ),
            (Stage::TestDevice(choice), Event::DeviceAccepted(entries)) => device_accepted(
                choice,
                entries,
            ),
            (Stage::TestDevice(_), Event::NoMoreDevices) => Stage::Failed(
                "Failed to find matching nusb device!".to_owned(),
            ),
            (
                Stage::TestInterface { index, entries },
                Event::InterfaceTested(accepted),
            ) => interface_tested(index, entries, accepted),
            (Stage::OpenDevice { interface_id }, Event::DeviceOpened(reply)) => reply_or_failed(
                reply,
                "Failed opening device: ",
                device_opened(interface_id),
            ),
            (Stage::ClaimInterface { .. }, Event::InterfaceClaimed(reply)) => match reply {
                Ok(endpoints) => interface_claimed(&endpoints),
                Err(cause) => Stage::Failed(explain("Failed claiming interface: ", &cause)),
            },
            (Stage::OpenOut(link), Event::OutOpened(reply)) => reply_or_failed(
                reply,
                "Failed to claim OUT endpoint: ",
                Stage::OpenIn(link),
            ),
            (Stage::OpenIn(link), Event::InOpened(reply)) => reply_or_failed(
                reply,
                "Failed to claim IN endpoint: ",
                Stage::Connected(link),
            ),
            (stage, _) => stage,
        };
        Connect { settings, stage }
    }

    /// The client or the error message, once the connection has ended. Before,
    /// there is neither.
    pub fn finish(self) -> (outcome: Option<Result<HostClient, String>>)
        ensures
            match outcome {
                Some(Ok(client)) => self@.outcome() == Some(Ok::<_, Seq<char>>(client@)),
                Some(Err(message)) => self@.outcome() == Some(Err::<ClientView, _>(message@)),
                None => self@.outcome() is None,
            },
            match outcome {
                Some(Ok(client)) => {
                    &&& self@.stage == StageView::Connected(client.link)
                    &&& client.settings.seq_no_kind == self@.settings.seq_no_kind
                    &&& client.settings.err_uri_path@ == self@.settings.err_uri_path
                    &&& client.settings.outgoing_depth == self@.settings.outgoing_depth
                },
                Some(Err(message)) => self@.stage == StageView::Failed(message@),
                None => !(self@.stage is Connected) && !(self@.stage is Failed),
            },
    {
        match self.stage {
            Stage::Connected(link) => Some(Ok(HostClient { link, settings: self.settings })),
            Stage::Failed(message) => Some(Err(message)),
            _ => None,
        }
    }
}

impl Event {
    /// The reply to [`Stage::TestDevice`] for a device, with what the test said
    /// of it.
    pub fn device_tested(device: &nusb::DeviceInfo, accepted: bool) -> (event: Event)
        ensures
            event@ == if accepted {
                EventView::DeviceAccepted(interface_entries(*device))
            } else {
                EventView::DeviceRejected
            },
            accepted ==> (event matches Event::DeviceAccepted(entries) && entries@
                == interface_entries(*device)),
            !accepted ==> event is DeviceRejected,
    {
        if accepted {
            Event::DeviceAccepted(descriptors::interfaces(device))
        } else {
            Event::DeviceRejected
        }
    }
}

} // verus!
