//! What a connection comes to on a given host.
//!
//! A host is modelled by the replies it would give. The laws say how a
//! connection ends that makes its requests of such a host.
use vstd::prelude::*;

#[allow(unused_imports)]
use crate::client::{ClientView, SettingsView};
#[allow(unused_imports)]
use crate::connect::{
    ConnectView, EventView, InterfaceChoice, StageView, VENDOR_SPECIFIC, after_claim, after_device,
    classes_of, vendor_number,
};
use crate::endpoint::Endpoint;
#[allow(unused_imports)]
use crate::endpoint::scan;
use crate::link::{Link, TransferQueue};
#[allow(unused_imports)]
use crate::link::link_from;

verus! {

/// An interface of a device that is not open yet.
pub ghost struct InterfaceModel {
    pub number: u8,
    pub class: u8,
    /// What the test for interfaces says of it.
    pub accepted: bool,
}

/// A claimed interface.
pub ghost struct ClaimModel {
    pub endpoints: Seq<Endpoint>,
    /// The reply to a request to open an endpoint towards the device.
    pub open_out: spec_fn(TransferQueue) -> Result<(), Seq<char>>,
    /// The reply to a request to open an endpoint towards the host.
    pub open_in: spec_fn(TransferQueue) -> Result<(), Seq<char>>,
}

/// A device.
pub ghost struct DeviceModel {
    /// What the test for devices says of it.
    pub accepted: bool,
    pub interfaces: Seq<InterfaceModel>,
    /// The reply to a request to open it.
    pub opening: Result<(), Seq<char>>,
    /// The reply to a request to claim an interface by its number.
    pub claim: spec_fn(u8) -> Result<ClaimModel, Seq<char>>,
}

/// A host in the middle of a connection.
pub ghost struct Session {
    /// The reply to a request to list the devices.
    pub listing: Result<Seq<DeviceModel>, Seq<char>>,
    /// The devices that were listed and not tested yet.
    pub devices: Seq<DeviceModel>,
    /// The device that was accepted.
    pub device: DeviceModel,
    /// The interface that was claimed.
    pub claimed: ClaimModel,
    /// The interfaces that were tested, counted from zero, in order.
    pub tested: Seq<int>,
    /// The numbers of the interfaces that were to be claimed, in order.
    pub claims: Seq<u8>,
}

impl DeviceModel {
    /// The numbers and classes of the interfaces.
    pub open spec fn entries(self) -> Seq<(u8, u8)> {
        self.interfaces.map_values(
            |interface: InterfaceModel| (interface.number, interface.class),
        )
    }

    /// What the test for interfaces says of each of them.
    pub open spec fn verdicts(self) -> Seq<bool> {
        self.interfaces.map_values(|interface: InterfaceModel| interface.accepted)
    }
}

/// What the test for devices says of each of them.
pub open spec fn verdicts(devices: Seq<DeviceModel>) -> Seq<bool> {
    devices.map_values(|device: DeviceModel| device.accepted)
}

impl Session {
    /// The reply to the request of a stage, and the session after it.
    pub open spec fn exchange(self, stage: StageView) -> (EventView, Session) {
        match stage {
            StageView::ListDevices(_) => match self.listing {
                Ok(devices) => (
                    EventView::DevicesListed(Ok(())),
                    Session { devices, ..self },
                ),
                Err(cause) => (EventView::DevicesListed(Err(cause)), self),
            },
            StageView::TestDevice(_) => if self.devices.len() == 0 {
                (EventView::NoMoreDevices, self)
            } else {
                let next = self.devices.first();
                let rest = Session { devices: self.devices.drop_first(), ..self };
                if next.accepted {
                    (EventView::DeviceAccepted(next.entries()), Session { device: next, ..rest })
                } else {
                    (EventView::DeviceRejected, rest)
                }
            },
            StageView::TestInterface { index, .. } => (
                EventView::InterfaceTested(self.device.interfaces[index].accepted),
                Session { tested: self.tested.push(index), ..self },
            ),
            StageView::OpenDevice { .. } => (EventView::DeviceOpened(self.device.opening), self),
            StageView::ClaimInterface { interface_number } => {
                let asked = Session { claims: self.claims.push(interface_number), ..self };
                match (self.device.claim)(interface_number) {
                    Ok(claimed) => (
                        EventView::InterfaceClaimed(Ok(claimed.endpoints)),
                        Session { claimed, ..asked },
                    ),
                    Err(cause) => (EventView::InterfaceClaimed(Err(cause)), asked),
                }
            },
            StageView::OpenOut(link) => (
                EventView::OutOpened((self.claimed.open_out)(link.out_queue)),
                self,
            ),
            StageView::OpenIn(link) => (
                EventView::InOpened((self.claimed.open_in)(link.in_queue)),
                self,
            ),
            StageView::Connected(_) | StageView::Failed(_) => (EventView::NoMoreDevices, self),
        }
    }

    /// How many kinds of request there are still to make, at most.
    pub open spec fn kinds_left(stage: StageView) -> nat {
        match stage {
            StageView::ListDevices(_) => 7,
            StageView::TestDevice(_) => 6,
            StageView::TestInterface { .. } => 5,
            StageView::OpenDevice { .. } => 4,
            StageView::ClaimInterface { .. } => 3,
            StageView::OpenOut(_) => 2,
            StageView::OpenIn(_) => 1,
            StageView::Connected(_) | StageView::Failed(_) => 0,
        }
    }

    /// How many requests of the same kind there are still to make, at most.
    pub open spec fn requests_left(self, stage: StageView) -> int {
        match stage {
            StageView::TestDevice(_) => self.devices.len() as int,
            StageView::TestInterface { index, entries } => if index < entries.len() {
                entries.len() - index
            } else {
                0
            },
            _ => 0,
        }
    }

    /// The session and the connection in the end, where every request is made
    /// of the host and its reply is taken.
    pub open spec fn run(self, connect: ConnectView) -> (Session, ConnectView)
        decreases Session::kinds_left(connect.stage), self.requests_left(connect.stage),
    {
        if connect.outcome() is Some {
            (self, connect)
        } else {
            let (event, session) = self.exchange(connect.stage);
            session.run(connect.after(event))
        }
    }
}

/// What comes of a claimed interface.
pub open spec fn claim_outcome(claimed: ClaimModel) -> Result<Link, Seq<char>> {
    match link_from(scan(claimed.endpoints)) {
        Err(message) => Err(message),
        Ok(link) => match (claimed.open_out)(link.out_queue) {
            Err(cause) => Err("Failed to claim OUT endpoint: "@ + cause),
            Ok(_) => match (claimed.open_in)(link.in_queue) {
                Err(cause) => Err("Failed to claim IN endpoint: "@ + cause),
                Ok(_) => Ok(link),
            },
        },
    }
}

/// What comes of a device and the id of an interface.
pub open spec fn device_outcome(device: DeviceModel, interface_id: int) -> Result<Link, Seq<char>> {
    match device.opening {
        Err(cause) => Err("Failed opening device: "@ + cause),
        Ok(_) => if 0 <= interface_id <= 0xFF {
            match (device.claim)(interface_id as u8) {
                Err(cause) => Err("Failed claiming interface: "@ + cause),
                Ok(claimed) => claim_outcome(claimed),
            }
        } else {
            Err("Failed claiming interface: no interface has this id"@)
        },
    }
}

/// The numbers of the interfaces of a device that are to be claimed for the id
/// of an interface: this one, where the device can be opened and the id is one
/// that an interface can have.
pub open spec fn device_claims(device: DeviceModel, interface_id: int) -> Seq<u8> {
    if device.opening is Ok && 0 <= interface_id <= 0xFF {
        seq![interface_id as u8]
    } else {
        seq![]
    }
}

/// The number of the interface to use of a device.
pub open spec fn chosen_interface(device: DeviceModel, choice: InterfaceChoice) -> Option<u8> {
    match choice {
        InterfaceChoice::VendorSpecific => vendor_number(device.entries()),
        InterfaceChoice::Zero => Some(0),
        InterfaceChoice::Tested => match device.verdicts().index_of_first(true) {
            Some(i) => Some(device.interfaces[i].number),
            None => None,
        },
    }
}

/// What comes of the device that was accepted.
pub open spec fn accepted_outcome(device: DeviceModel, choice: InterfaceChoice) -> Result<
    Link,
    Seq<char>,
> {
    match chosen_interface(device, choice) {
        None => Err("Failed to find matching interface!!"@),
        Some(number) => device_outcome(device, number as int),
    }
}

/// The numbers of the interfaces that are to be claimed of the device that was
/// accepted.
pub open spec fn accepted_claims(device: DeviceModel, choice: InterfaceChoice) -> Seq<u8> {
    match chosen_interface(device, choice) {
        None => seq![],
        Some(number) => device_claims(device, number as int),
    }
}

/// What comes of the devices of a host.
pub open spec fn host_outcome(
    listing: Result<Seq<DeviceModel>, Seq<char>>,
    choice: InterfaceChoice,
) -> Result<Link, Seq<char>> {
    match listing {
        Err(cause) => Err("Error listing devices: "@ + cause),
        Ok(devices) => match verdicts(devices).index_of_first(true) {
            None => Err("Failed to find matching nusb device!"@),
            Some(i) => accepted_outcome(devices[i], choice),
        },
    }
}

/// A client with settings over the link that came about, or the message.
pub open spec fn with_settings(
    outcome: Result<Link, Seq<char>>,
    settings: SettingsView,
) -> Option<Result<ClientView, Seq<char>>> {
    match outcome {
        Ok(link) => Some(Ok(ClientView { link, settings })),
        Err(message) => Some(Err(message)),
    }
}

/// A connection over a claimed interface ends with a client where the interface
/// has bulk endpoints both ways and both could be opened, and with the message
/// of what failed first where not.
pub proof fn law_claimed_interface(session: Session, settings: SettingsView)
    ensures
        session.run(
            ConnectView { settings, stage: after_claim(session.claimed.endpoints) },
        ).1.outcome() == with_settings(claim_outcome(session.claimed), settings),
        session.run(
            ConnectView { settings, stage: after_claim(session.claimed.endpoints) },
        ).0.claims == session.claims,
{
    reveal_with_fuel(Session::run, 3);
}

/// A connection to a given device over a given interface ends with a client
/// where the device could be opened, the interface could be claimed and could
/// be connected over, and with the message of what failed first where not. No
/// other interface is claimed in its place.
pub proof fn law_given_interface(session: Session, settings: SettingsView, interface_id: int)
    ensures
        session.run(
            ConnectView { settings, stage: StageView::OpenDevice { interface_id } },
        ).1.outcome() == with_settings(device_outcome(session.device, interface_id), settings),
        session.run(
            ConnectView { settings, stage: StageView::OpenDevice { interface_id } },
        ).0.claims == session.claims + device_claims(session.device, interface_id),
{
    reveal_with_fuel(Session::run, 3);
    if session.device.opening is Ok && 0 <= interface_id <= 0xFF {
        let number = interface_id as u8;
        let asked = Session { claims: session.claims.push(number), ..session };
        if let Ok(claimed) = (session.device.claim)(number) {
            law_claimed_interface(Session { claimed, ..asked }, settings);
        }
        assert(asked.claims =~= session.claims + seq![number]);
    } else {
        assert(session.claims =~= session.claims + Seq::<u8>::empty());
    }
}

/// With an id that no interface can have there is an error, and no interface is
/// claimed.
pub proof fn law_id_out_of_range(session: Session, settings: SettingsView, interface_id: int)
    requires
        interface_id > 0xFF,
    ensures
        session.run(
            ConnectView { settings, stage: StageView::OpenDevice { interface_id } },
        ).1.outcome() matches Some(Err(_)),
        session.run(
            ConnectView { settings, stage: StageView::OpenDevice { interface_id } },
        ).0.claims == session.claims,
{
    law_given_interface(session, settings, interface_id);
}

/// Once a device was accepted, no other is taken from the list.
proof fn lemma_devices_kept(session: Session, connect: ConnectView)
    requires
        !(connect.stage is ListDevices),
        !(connect.stage is TestDevice),
    ensures
        session.run(connect).0.devices == session.devices,
    decreases Session::kinds_left(connect.stage), session.requests_left(connect.stage),
{
    if connect.outcome() is None {
        let (event, after) = session.exchange(connect.stage);
        lemma_devices_kept(after, connect.after(event));
    }
}

proof fn lemma_first_true(flags: Seq<bool>, index: int)
    requires
        0 <= index < flags.len(),
        flags[index],
        forall|j: int| 0 <= j < index ==> !flags[j],
    ensures
        flags.index_of_first(true) == Some(index),
{
    flags.index_of_first_ensures(true);
    assert(flags.contains(flags[index]));
}

proof fn lemma_no_true(flags: Seq<bool>)
    requires
        forall|j: int| 0 <= j < flags.len() ==> !flags[j],
    ensures
        flags.index_of_first(true) is None,
{
    flags.index_of_first_ensures(true);
}

proof fn lemma_tested_interfaces(session: Session, settings: SettingsView, index: int)
    requires
        0 <= index < session.device.interfaces.len(),
        forall|j: int| 0 <= j < index ==> !(#[trigger] session.device.interfaces[j]).accepted,
    ensures
        session.run(
            ConnectView {
                settings,
                stage: StageView::TestInterface { index, entries: session.device.entries() },
            },
        ).1.outcome() == with_settings(
            accepted_outcome(session.device, InterfaceChoice::Tested),
            settings,
        ),
        session.run(
            ConnectView {
                settings,
                stage: StageView::TestInterface { index, entries: session.device.entries() },
            },
        ).0.claims == session.claims + accepted_claims(session.device, InterfaceChoice::Tested),
    decreases session.device.interfaces.len() - index,
{
    let interfaces = session.device.interfaces;
    let flags = session.device.verdicts();
    assert forall|j: int| 0 <= j < flags.len() implies #[trigger] flags[j]
        == interfaces[j].accepted by {}
    reveal_with_fuel(Session::run, 2);
    if interfaces[index].accepted {
        lemma_first_true(flags, index);
        law_given_interface(
            Session { tested: session.tested.push(index), ..session },
            settings,
            interfaces[index].number as int,
        );
    } else if index + 1 < interfaces.len() {
        lemma_tested_interfaces(
            Session { tested: session.tested.push(index), ..session },
            settings,
            index + 1,
        );
    } else {
        lemma_no_true(flags);
        assert(session.claims =~= session.claims + Seq::<u8>::empty());
    }
}

proof fn lemma_accepted_device(session: Session, settings: SettingsView, choice: InterfaceChoice)
    ensures
        session.run(
            ConnectView { settings, stage: after_device(choice, session.device.entries()) },
        ).1.outcome() == with_settings(accepted_outcome(session.device, choice), settings),
        session.run(
            ConnectView { settings, stage: after_device(choice, session.device.entries()) },
        ).0.claims == session.claims + accepted_claims(session.device, choice),
{
    assert(session.claims =~= session.claims + Seq::<u8>::empty());
    match choice {
        InterfaceChoice::VendorSpecific => {
            if let Some(number) = vendor_number(session.device.entries()) {
                law_given_interface(session, settings, number as int);
            }
        },
        InterfaceChoice::Zero => {
            law_given_interface(session, settings, 0);
        },
        InterfaceChoice::Tested => {
            if session.device.interfaces.len() > 0 {
                lemma_tested_interfaces(session, settings, 0);
            } else {
                lemma_no_true(session.device.verdicts());
            }
        },
    }
}

/// Where some device is accepted, the first one is the one that is connected
/// to, over the interface of the choice, and the devices behind it are not even
/// tested.
pub proof fn law_first_device(
    session: Session,
    settings: SettingsView,
    choice: InterfaceChoice,
    index: int,
)
    requires
        0 <= index < session.devices.len(),
        session.devices[index].accepted,
        forall|j: int| 0 <= j < index ==> !(#[trigger] session.devices[j]).accepted,
    ensures
        session.run(ConnectView { settings, stage: StageView::TestDevice(choice) }).1.outcome()
            == with_settings(accepted_outcome(session.devices[index], choice), settings),
        session.run(ConnectView { settings, stage: StageView::TestDevice(choice) }).0.devices
            == session.devices.skip(index + 1),
        session.run(ConnectView { settings, stage: StageView::TestDevice(choice) }).0.claims
            == session.claims + accepted_claims(session.devices[index], choice),
    decreases index,
{
    reveal_with_fuel(Session::run, 2);
    let rest = Session { devices: session.devices.drop_first(), ..session };
    if index == 0 {
        let device = session.devices[0];
        let accepted = Session { device, ..rest };
        lemma_accepted_device(accepted, settings, choice);
        lemma_devices_kept(
            accepted,
            ConnectView { settings, stage: after_device(choice, device.entries()) },
        );
        assert(session.devices.drop_first() =~= session.devices.skip(1));
    } else {
        assert(!session.devices[0].accepted);
        assert forall|j: int| 0 <= j < index - 1 implies !(
        #[trigger] rest.devices[j]).accepted by {
            assert(rest.devices[j] == session.devices[j + 1]);
        }
        law_first_device(rest, settings, choice, index - 1);
        assert(rest.devices.skip(index) =~= session.devices.skip(index + 1));
    }
}

/// Where no device is accepted, all of them are tested and the connection ends
/// with a message.
pub proof fn law_no_device(session: Session, settings: SettingsView, choice: InterfaceChoice)
    requires
        forall|j: int| 0 <= j < session.devices.len() ==> !(#[trigger] session.devices[j]).accepted,
    ensures
        session.run(ConnectView { settings, stage: StageView::TestDevice(choice) }).1.outcome()
            == Some(Err::<ClientView, Seq<char>>("Failed to find matching nusb device!"@)),
        session.run(
            ConnectView { settings, stage: StageView::TestDevice(choice) },
        ).0.devices.len() == 0,
        session.run(ConnectView { settings, stage: StageView::TestDevice(choice) }).0.claims
            == session.claims,
    decreases session.devices.len(),
{
    reveal_with_fuel(Session::run, 2);
    if session.devices.len() > 0 {
        let rest = Session { devices: session.devices.drop_first(), ..session };
        assert(!session.devices[0].accepted);
        assert forall|j: int| 0 <= j < rest.devices.len() implies !(
        #[trigger] rest.devices[j]).accepted by {
            assert(rest.devices[j] == session.devices[j + 1]);
        }
        law_no_device(rest, settings, choice);
    }
}

/// The test for interfaces is made of the interfaces of the device in turn, up
/// to the first one that it accepts, or of all of them where it accepts none.
pub proof fn law_interfaces_tested_in_turn(
    session: Session,
    settings: SettingsView,
    index: int,
    last: int,
)
    requires
        0 <= index <= last < session.device.interfaces.len(),
        forall|j: int| 0 <= j < last ==> !(#[trigger] session.device.interfaces[j]).accepted,
        session.device.interfaces[last].accepted || last + 1 == session.device.interfaces.len(),
    ensures
        session.run(
            ConnectView {
                settings,
                stage: StageView::TestInterface { index, entries: session.device.entries() },
            },
        ).0.tested == session.tested + Seq::new((last + 1 - index) as nat, |k: int| index + k),
    decreases last - index,
{
    let after = Session { tested: session.tested.push(index), ..session };
    reveal_with_fuel(Session::run, 2);
    if index < last {
        assert(!session.device.interfaces[index].accepted);
        law_interfaces_tested_in_turn(after, settings, index + 1, last);
    } else if session.device.interfaces[last].accepted {
        lemma_no_more_tests(
            after,
            ConnectView {
                settings,
                stage: StageView::OpenDevice {
                    interface_id: session.device.interfaces[last].number as int,
                },
            },
        );
    }
    assert(session.tested.push(index) + Seq::new(
        (last - index) as nat,
        |k: int| index + 1 + k,
    ) =~= session.tested + Seq::new((last + 1 - index) as nat, |k: int| index + k));
}

proof fn lemma_no_more_tests(session: Session, connect: ConnectView)
    requires
        !(connect.stage is ListDevices),
        !(connect.stage is TestDevice),
        !(connect.stage is TestInterface),
    ensures
        session.run(connect).0.tested == session.tested,
    decreases Session::kinds_left(connect.stage),
{
    if connect.outcome() is None {
        let (event, after) = session.exchange(connect.stage);
        lemma_no_more_tests(after, connect.after(event));
    }
}

/// A connection that lists the devices first ends as the devices and what the
/// tests say of them demand, and the client has the settings from the start.
pub proof fn law_listed_devices(session: Session, settings: SettingsView, choice: InterfaceChoice)
    ensures
        session.run(ConnectView { settings, stage: StageView::ListDevices(choice) }).1.outcome()
            == with_settings(host_outcome(session.listing, choice), settings),
{
    reveal_with_fuel(Session::run, 2);
    if let Ok(devices) = session.listing {
        let listed = Session { devices, ..session };
        let flags = verdicts(devices);
        assert forall|j: int| 0 <= j < flags.len() implies #[trigger] flags[j]
            == devices[j].accepted by {}
        flags.index_of_first_ensures(true);
        match flags.index_of_first(true) {
            Some(index) => {
                assert forall|j: int| 0 <= j < index implies !(#[trigger] devices[j]).accepted by {
                    assert(flags[j] != true);
                }
                law_first_device(listed, settings, choice, index);
            },
            None => {
                assert forall|j: int| 0 <= j < devices.len() implies !(
                #[trigger] devices[j]).accepted by {
                    if devices[j].accepted {
                        assert(flags.contains(flags[j]));
                    }
                }
                law_no_device(listed, settings, choice);
            },
        }
    }
}

/// To use the first vendor-specific interface is to test for this class.
pub proof fn law_vendor_specific_is_a_test(listing: Result<Seq<DeviceModel>, Seq<char>>)
    requires
        listing matches Ok(devices) ==> forall|i: int, k: int|
            #![trigger devices[i].interfaces[k]]
            0 <= i < devices.len() && 0 <= k < devices[i].interfaces.len()
                ==> devices[i].interfaces[k].accepted == (devices[i].interfaces[k].class
                == VENDOR_SPECIFIC),
    ensures
        host_outcome(listing, InterfaceChoice::VendorSpecific) == host_outcome(
            listing,
            InterfaceChoice::Tested,
        ),
{
    if let Ok(devices) = listing {
        verdicts(devices).index_of_first_ensures(true);
        if let Some(i) = verdicts(devices).index_of_first(true) {
            let device = devices[i];
            let classes = classes_of(device.entries());
            let flags = device.verdicts();
            assert forall|k: int| 0 <= k < classes.len() implies #[trigger] flags[k] == (classes[k]
                == VENDOR_SPECIFIC) by {
                assert(devices[i].interfaces[k].accepted == (devices[i].interfaces[k].class
                    == VENDOR_SPECIFIC));
            }
            classes.index_of_first_ensures(VENDOR_SPECIFIC);
            match classes.index_of_first(VENDOR_SPECIFIC) {
                Some(k) => {
                    assert forall|j: int| 0 <= j < k implies !flags[j] by {
                        assert(classes[j] != VENDOR_SPECIFIC);
                    }
                    assert(flags[k]);
                    lemma_first_true(flags, k);
                },
                None => {
                    assert forall|j: int| 0 <= j < flags.len() implies !flags[j] by {
                        if flags[j] {
                            assert(classes.contains(classes[j]));
                        }
                    }
                    lemma_no_true(flags);
                },
            }
        }
    }
}

/// On Windows the first device that is accepted is connected to over interface
/// zero, whatever interfaces it tells of.
pub proof fn law_interface_zero(
    session: Session,
    settings: SettingsView,
    devices: Seq<DeviceModel>,
    index: int,
)
    requires
        session.listing == Ok::<_, Seq<char>>(devices),
        0 <= index < devices.len(),
        devices[index].accepted,
        forall|j: int| 0 <= j < index ==> !(#[trigger] devices[j]).accepted,
    ensures
        session.run(
            ConnectView { settings, stage: StageView::ListDevices(InterfaceChoice::Zero) },
        ).1.outcome() == with_settings(device_outcome(devices[index], 0), settings),
{
    law_listed_devices(session, settings, InterfaceChoice::Zero);
    assert forall|j: int| 0 <= j < index implies !verdicts(devices)[j] by {
        assert(!devices[j].accepted);
    }
    lemma_first_true(verdicts(devices), index);
}

/// Every connection ends, with the settings from the start.
pub proof fn law_every_connection_ends(session: Session, connect: ConnectView)
    ensures
        session.run(connect).1.outcome() is Some,
        session.run(connect).1.settings == connect.settings,
    decreases Session::kinds_left(connect.stage), session.requests_left(connect.stage),
{
    if connect.outcome() is None {
        let (event, after) = session.exchange(connect.stage);
        law_every_connection_ends(after, connect.after(event));
    }
}

/// A connection that has ended stays as it is, whatever reply it is given.
pub proof fn law_end_is_final(connect: ConnectView, event: EventView)
    requires
        connect.outcome() is Some,
    ensures
        connect.after(event) == connect,
{
}

/// A reply never changes the settings.
pub proof fn law_settings_kept(connect: ConnectView, event: EventView)
    ensures
        connect.after(event).settings == connect.settings,
{
}

/// The interface that is used is one that the choice asks for, and it is
/// claimed by its own number: the first of the vendor-specific class, or the
/// first that the test accepts.
pub proof fn law_chosen_interface_is_first(device: DeviceModel, choice: InterfaceChoice)
    requires
        choice != InterfaceChoice::Zero,
    ensures
        match chosen_interface(device, choice) {
            Some(number) => exists|i: int|
                0 <= i < device.interfaces.len() && wanted(
                    #[trigger] device.interfaces[i],
                    choice,
                ) && device.interfaces[i].number == number && (forall|j: int|
                    0 <= j < i ==> !wanted(#[trigger] device.interfaces[j], choice)),
            None => forall|j: int|
                0 <= j < device.interfaces.len() ==> !wanted(
                    #[trigger] device.interfaces[j],
                    choice,
                ),
        },
{
    let classes = classes_of(device.entries());
    let flags = device.verdicts();
    classes.index_of_first_ensures(VENDOR_SPECIFIC);
    flags.index_of_first_ensures(true);
    assert forall|j: int| 0 <= j < device.interfaces.len() implies classes[j]
        == (#[trigger] device.interfaces[j]).class && flags[j] == device.interfaces[j].accepted by {}
    let first = if choice == InterfaceChoice::Tested {
        flags.index_of_first(true)
    } else {
        classes.index_of_first(VENDOR_SPECIFIC)
    };
    match first {
        Some(i) => {
            assert(wanted(device.interfaces[i], choice));
            assert forall|j: int| 0 <= j < i implies !wanted(
                #[trigger] device.interfaces[j],
                choice,
            ) by {
                assert(choice == InterfaceChoice::Tested ==> flags[j] != true);
            }
        },
        None => {
            assert forall|j: int| 0 <= j < device.interfaces.len() implies !wanted(
                #[trigger] device.interfaces[j],
                choice,
            ) by {
                if wanted(device.interfaces[j], choice) {
                    assert(flags.contains(flags[j]));
                    assert(classes.contains(classes[j]));
                }
            }
        },
    }
}

/// An interface that the choice asks for.
pub open spec fn wanted(interface: InterfaceModel, choice: InterfaceChoice) -> bool {
    match choice {
        InterfaceChoice::VendorSpecific => interface.class == 0xFF,
        InterfaceChoice::Zero => interface.number == 0,
        InterfaceChoice::Tested => interface.accepted,
    }
}

proof fn lemma_first_wanted(device: DeviceModel, choice: InterfaceChoice, index: int)
    requires
        choice != InterfaceChoice::Zero,
        0 <= index < device.interfaces.len(),
        wanted(device.interfaces[index], choice),
        forall|j: int| 0 <= j < index ==> !wanted(#[trigger] device.interfaces[j], choice),
    ensures
        chosen_interface(device, choice) == Some(device.interfaces[index].number),
{
    law_chosen_interface_is_first(device, choice);
}

proof fn lemma_first_device_listed(
    session: Session,
    settings: SettingsView,
    choice: InterfaceChoice,
    devices: Seq<DeviceModel>,
    index: int,
)
    requires
        session.listing == Ok::<_, Seq<char>>(devices),
        0 <= index < devices.len(),
        devices[index].accepted,
        forall|j: int| 0 <= j < index ==> !(#[trigger] devices[j]).accepted,
    ensures
        session.run(ConnectView { settings, stage: StageView::ListDevices(choice) }).1.outcome()
            == with_settings(accepted_outcome(devices[index], choice), settings),
        session.run(ConnectView { settings, stage: StageView::ListDevices(choice) }).0.claims
            == session.claims + accepted_claims(devices[index], choice),
{
    reveal_with_fuel(Session::run, 2);
    law_first_device(Session { devices, ..session }, settings, choice, index);
}

/// Where some interface of the first accepted device is wanted, the connection
/// comes to what opening this device for the number of the first wanted one
/// comes to, whatever this number is. This number is claimed where the device
/// can be opened, and nothing else is.
pub proof fn law_first_wanted_interface_is_used(
    session: Session,
    settings: SettingsView,
    choice: InterfaceChoice,
    devices: Seq<DeviceModel>,
    index: int,
    interface: int,
)
    requires
        choice != InterfaceChoice::Zero,
        session.listing == Ok::<_, Seq<char>>(devices),
        0 <= index < devices.len(),
        devices[index].accepted,
        forall|j: int| 0 <= j < index ==> !(#[trigger] devices[j]).accepted,
        0 <= interface < devices[index].interfaces.len(),
        wanted(devices[index].interfaces[interface], choice),
        forall|j: int|
            0 <= j < interface ==> !wanted(#[trigger] devices[index].interfaces[j], choice),
    ensures
        session.run(ConnectView { settings, stage: StageView::ListDevices(choice) }).1.outcome() == (
        Session { device: devices[index], ..session }).run(
            ConnectView {
                settings,
                stage: StageView::OpenDevice {
                    interface_id: devices[index].interfaces[interface].number as int,
                },
            },
        ).1.outcome(),
        session.run(ConnectView { settings, stage: StageView::ListDevices(choice) }).1.outcome()
            != Some(Err::<ClientView, Seq<char>>("Failed to find matching interface!!"@)),
        session.run(ConnectView { settings, stage: StageView::ListDevices(choice) }).0.claims
            == if devices[index].opening is Ok {
            session.claims.push(devices[index].interfaces[interface].number)
        } else {
            session.claims
        },
{
    let device = devices[index];
    let number = device.interfaces[interface].number;
    lemma_first_device_listed(session, settings, choice, devices, index);
    lemma_first_wanted(device, choice, interface);
    law_given_interface(Session { device, ..session }, settings, number as int);
    law_given_interface_is_no_failed_search(Session { device, ..session }, settings, number as int);
    assert(device_claims(device, number as int) =~= if device.opening is Ok {
        seq![number]
    } else {
        seq![]
    });
    assert(session.claims + seq![number] =~= session.claims.push(number));
    assert(session.claims + Seq::<u8>::empty() =~= session.claims);
}

/// Where no interface of the first accepted device is wanted, this is told, and
/// no interface is claimed.
pub proof fn law_no_wanted_interface(
    session: Session,
    settings: SettingsView,
    choice: InterfaceChoice,
    devices: Seq<DeviceModel>,
    index: int,
)
    requires
        choice != InterfaceChoice::Zero,
        session.listing == Ok::<_, Seq<char>>(devices),
        0 <= index < devices.len(),
        devices[index].accepted,
        forall|j: int| 0 <= j < index ==> !(#[trigger] devices[j]).accepted,
        forall|j: int|
            0 <= j < devices[index].interfaces.len() ==> !wanted(
                #[trigger] devices[index].interfaces[j],
                choice,
            ),
    ensures
        session.run(ConnectView { settings, stage: StageView::ListDevices(choice) }).1.outcome()
            == Some(Err::<ClientView, Seq<char>>("Failed to find matching interface!!"@)),
        session.run(ConnectView { settings, stage: StageView::ListDevices(choice) }).0.claims
            == session.claims,
{
    lemma_first_device_listed(session, settings, choice, devices, index);
    law_chosen_interface_is_first(devices[index], choice);
    assert(session.claims + Seq::<u8>::empty() =~= session.claims);
}

/// Where interfaces cannot be listed, the connection comes to what opening the
/// first accepted device for interface zero comes to, and no other interface is
/// claimed.
pub proof fn law_interface_zero_is_used(
    session: Session,
    settings: SettingsView,
    devices: Seq<DeviceModel>,
    index: int,
)
    requires
        session.listing == Ok::<_, Seq<char>>(devices),
        0 <= index < devices.len(),
        devices[index].accepted,
        forall|j: int| 0 <= j < index ==> !(#[trigger] devices[j]).accepted,
    ensures
        session.run(
            ConnectView { settings, stage: StageView::ListDevices(InterfaceChoice::Zero) },
        ).1.outcome() == (Session { device: devices[index], ..session }).run(
            ConnectView { settings, stage: StageView::OpenDevice { interface_id: 0 } },
        ).1.outcome(),
        session.run(
            ConnectView { settings, stage: StageView::ListDevices(InterfaceChoice::Zero) },
        ).0.claims == if devices[index].opening is Ok {
            session.claims.push(0)
        } else {
            session.claims
        },
{
    let device = devices[index];
    lemma_first_device_listed(session, settings, InterfaceChoice::Zero, devices, index);
    law_given_interface(Session { device, ..session }, settings, 0);
    assert(device_claims(device, 0) =~= if device.opening is Ok {
        seq![0u8]
    } else {
        seq![]
    });
    assert(session.claims + seq![0u8] =~= session.claims.push(0));
    assert(session.claims + Seq::<u8>::empty() =~= session.claims);
}

/// Where the devices cannot be listed, or none of them is accepted, this is
/// told, and no interface is claimed.
pub proof fn law_no_listed_device(
    session: Session,
    settings: SettingsView,
    choice: InterfaceChoice,
)
    requires
        session.listing matches Ok(devices) ==> forall|j: int|
            0 <= j < devices.len() ==> !(#[trigger] devices[j]).accepted,
    ensures
        session.run(ConnectView { settings, stage: StageView::ListDevices(choice) }).1.outcome()
            == Some(
            Err::<ClientView, Seq<char>>(
                match session.listing {
                    Ok(_) => "Failed to find matching nusb device!"@,
                    Err(cause) => "Error listing devices: "@ + cause,
                },
            ),
        ),
        session.run(ConnectView { settings, stage: StageView::ListDevices(choice) }).0.claims
            == session.claims,
{
    reveal_with_fuel(Session::run, 2);
    if let Ok(devices) = session.listing {
        law_no_device(Session { devices, ..session }, settings, choice);
    }
}

/// A connection to a device for a given interface never ends with the message
/// that no interface was found.
pub proof fn law_given_interface_is_no_failed_search(
    session: Session,
    settings: SettingsView,
    interface_id: int,
)
    ensures
        session.run(
            ConnectView { settings, stage: StageView::OpenDevice { interface_id } },
        ).1.outcome() != Some(
            Err::<ClientView, Seq<char>>("Failed to find matching interface!!"@),
        ),
{
    law_given_interface(session, settings, interface_id);
    reveal_strlit("Failed to find matching interface!!");
    reveal_strlit("Failed opening device: ");
    reveal_strlit("Failed claiming interface: ");
    reveal_strlit("Failed claiming interface: no interface has this id");
    reveal_strlit("Failed to find OUT EP");
    reveal_strlit("Failed to find IN EP");
    reveal_strlit("Failed to claim OUT endpoint: ");
    reveal_strlit("Failed to claim IN endpoint: ");
    let said = "Failed to find matching interface!!"@;
    if let Err(message) = device_outcome(session.device, interface_id) {
        assert(message.len() != said.len() || message[7] != said[7] || message[10] != said[10]);
    }
}

/// An interface that can be claimed and is given by its number is the only one
/// that is claimed, by exactly this number.
pub proof fn law_one_claim_of_the_given_number(
    session: Session,
    settings: SettingsView,
    interface_id: int,
)
    requires
        0 <= interface_id < 0x100,
        session.device.opening is Ok,
    ensures
        ({
            let claims = session.run(
                ConnectView { settings, stage: StageView::OpenDevice { interface_id } },
            ).0.claims;
            &&& claims.len() == session.claims.len() + 1
            &&& claims.last() as int == interface_id
            &&& forall|i: int| 0 <= i < session.claims.len() ==> claims[i] == session.claims[i]
        }),
{
    law_given_interface(session, settings, interface_id);
}

/// A connection to a device for a given interface comes to what this interface
/// comes to once it is claimed. What fails before is told with its cause.
pub proof fn law_given_interface_replies(session: Session, settings: SettingsView, number: u8)
    ensures
        ({
            let outcome = session.run(
                ConnectView {
                    settings,
                    stage: StageView::OpenDevice { interface_id: number as int },
                },
            ).1.outcome();
            match (session.device.opening, (session.device.claim)(number)) {
                (Err(cause), _) => outcome == Some(
                    Err::<ClientView, Seq<char>>("Failed opening device: "@ + cause),
                ),
                (Ok(_), Err(cause)) => outcome == Some(
                    Err::<ClientView, Seq<char>>("Failed claiming interface: "@ + cause),
                ),
                (Ok(_), Ok(claimed)) => outcome == (Session { claimed, ..session }).run(
                    ConnectView { settings, stage: after_claim(claimed.endpoints) },
                ).1.outcome(),
            }
        }),
{
    law_given_interface(session, settings, number as int);
    if let Ok(claimed) = (session.device.claim)(number) {
        law_claimed_interface(Session { claimed, ..session }, settings);
    }
}

/// Once there is a link, its endpoint towards the device is opened and then its
/// endpoint towards the host. Where both could be, there is a client over this
/// link with the settings from the start, and what fails is told with its cause.
pub proof fn law_link_replies(session: Session, settings: SettingsView, link: Link)
    ensures
        session.run(ConnectView { settings, stage: StageView::OpenOut(link) }).1.outcome() == Some(
            match ((session.claimed.open_out)(link.out_queue), (session.claimed.open_in)(
                link.in_queue,
            )) {
                (Err(cause), _) => Err("Failed to claim OUT endpoint: "@ + cause),
                (Ok(_), Err(cause)) => Err("Failed to claim IN endpoint: "@ + cause),
                (Ok(_), Ok(_)) => Ok(ClientView { link, settings }),
            },
        ),
{
    reveal_with_fuel(Session::run, 3);
}

/// Where interfaces are tested, their classes make no difference: two hosts whose
/// devices differ in the classes of their interfaces only are connected to alike.
pub proof fn law_classes_do_not_matter_to_a_test(
    a: Session,
    b: Session,
    settings: SettingsView,
    devices: Seq<DeviceModel>,
    others: Seq<DeviceModel>,
)
    requires
        a.listing == Ok::<_, Seq<char>>(devices),
        b.listing == Ok::<_, Seq<char>>(others),
        a.claims == b.claims,
        devices.len() == others.len(),
        forall|i: int|
            0 <= i < devices.len() ==> alike_but_for_classes(#[trigger] devices[i], others[i]),
    ensures
        a.run(
            ConnectView { settings, stage: StageView::ListDevices(InterfaceChoice::Tested) },
        ).1.outcome() == b.run(
            ConnectView { settings, stage: StageView::ListDevices(InterfaceChoice::Tested) },
        ).1.outcome(),
        a.run(
            ConnectView { settings, stage: StageView::ListDevices(InterfaceChoice::Tested) },
        ).0.claims == b.run(
            ConnectView { settings, stage: StageView::ListDevices(InterfaceChoice::Tested) },
        ).0.claims,
{
    let flags = verdicts(devices);
    assert(verdicts(others) =~= flags) by {
        assert forall|i: int| 0 <= i < devices.len() implies verdicts(others)[i] == flags[i] by {
            assert(alike_but_for_classes(devices[i], others[i]));
        }
    }
    flags.index_of_first_ensures(true);
    match flags.index_of_first(true) {
        Some(index) => {
            assert forall|j: int| 0 <= j < index implies !(#[trigger] devices[j]).accepted
                && !others[j].accepted by {
                assert(flags[j] != true);
                assert(alike_but_for_classes(devices[j], others[j]));
            }
            assert forall|j: int| 0 <= j < index implies !(#[trigger] others[j]).accepted by {
                assert(!devices[j].accepted && !others[j].accepted);
            }
            assert(alike_but_for_classes(devices[index], others[index]));
            assert(devices[index].verdicts() =~= others[index].verdicts());
            devices[index].verdicts().index_of_first_ensures(true);
            lemma_first_device_listed(a, settings, InterfaceChoice::Tested, devices, index);
            lemma_first_device_listed(b, settings, InterfaceChoice::Tested, others, index);
        },
        None => {
            assert forall|j: int| 0 <= j < devices.len() implies !(#[trigger] devices[j]).accepted
                && !others[j].accepted by {
                assert(alike_but_for_classes(devices[j], others[j]));
                if devices[j].accepted {
                    assert(flags.contains(flags[j]));
                }
            }
            assert forall|j: int| 0 <= j < others.len() implies !(#[trigger] others[j]).accepted by {
                assert(!devices[j].accepted && !others[j].accepted);
            }
            law_no_listed_device(a, settings, InterfaceChoice::Tested);
            law_no_listed_device(b, settings, InterfaceChoice::Tested);
        },
    }
}

/// Devices that differ in the classes of their interfaces only.
pub open spec fn alike_but_for_classes(a: DeviceModel, b: DeviceModel) -> bool {
    &&& a.accepted == b.accepted
    &&& a.opening == b.opening
    &&& a.claim == b.claim
    &&& a.interfaces.len() == b.interfaces.len()
    &&& forall|k: int|
        #![trigger a.interfaces[k]]
        #![trigger b.interfaces[k]]
        0 <= k < a.interfaces.len() ==> a.interfaces[k].number == b.interfaces[k].number
            && a.interfaces[k].accepted == b.interfaces[k].accepted
}

} // verus!
