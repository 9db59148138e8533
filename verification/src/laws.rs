//! What each reply to a connection and each descriptor comes to, in terms of
//! what they hold.
use vstd::prelude::*;

use nusb::descriptors::InterfaceDescriptor;

#[allow(unused_imports)]
use crate::client::{
    HostClient, SettingsView, VarSeqKind, default_choice, settings_of,
};
#[allow(unused_imports)]
use crate::connect::{
    ConnectView, Event, EventView, InterfaceChoice, Stage, StageView, after_claim, classes_of,
};
#[allow(unused_imports)]
use crate::descriptors::endpoint_blocks;
#[allow(unused_imports)]
use crate::endpoint::{
    Direction, Endpoint, TransferType, endpoint_of, interface_endpoints, law_last_bulk_endpoint,
    setting_endpoints,
};
use crate::link::Link;

verus! {

// Descriptors.

/// An endpoint has the address in the third byte of its descriptor. The top bit
/// of the address is its direction, the two low bits of the fourth byte are its
/// transfer type, and the eleven low bits of the fifth and sixth bytes are its
/// packet size.
pub proof fn law_endpoint_fields(bytes: Seq<u8>)
    ensures
        endpoint_of(bytes).address == bytes[2],
        endpoint_of(bytes).direction == Direction::In <==> bytes[2] & 0x80 != 0,
        endpoint_of(bytes).direction == Direction::Out <==> bytes[2] & 0x80 == 0,
        endpoint_of(bytes).transfer_type == TransferType::Control <==> bytes[3] & 3 == 0,
        endpoint_of(bytes).transfer_type == TransferType::Isochronous <==> bytes[3] & 3 == 1,
        endpoint_of(bytes).transfer_type == TransferType::Bulk <==> bytes[3] & 3 == 2,
        endpoint_of(bytes).transfer_type == TransferType::Interrupt <==> bytes[3] & 3 == 3,
        endpoint_of(bytes).max_packet_size == ((bytes[4] + 0x100 * bytes[5]) as u16 & 0x7FF),
{
    let address = bytes[2];
    let attributes = bytes[3];
    let word = (bytes[4] + 0x100 * bytes[5]) as u16;
    assert(address >= 0x80 <==> address & 0x80 != 0) by (bit_vector);
    assert(attributes % 4 == attributes & 3) by (bit_vector);
    assert(word % 0x800 == word & 0x7FF) by (bit_vector);
}

/// The endpoints of one alternate setting are those of its descriptors, one by
/// one.
pub proof fn law_endpoints_of_one_setting(setting: InterfaceDescriptor<'_>)
    ensures
        interface_endpoints(seq![setting]).len() == endpoint_blocks(setting).len(),
        forall|k: int|
            0 <= k < endpoint_blocks(setting).len() ==> #[trigger] interface_endpoints(
                seq![setting],
            )[k] == endpoint_of(endpoint_blocks(setting)[k]),
{
    let parts = seq![setting].map_values(
        |setting: InterfaceDescriptor<'_>| setting_endpoints(setting),
    );
    assert(parts =~= seq![setting_endpoints(setting)]);
    parts.lemma_flatten_one_element();
}

/// The endpoints of some alternate settings and then of others are those of the
/// first and then those of the others. Of no alternate setting there are none.
pub proof fn law_endpoints_of_more_settings(
    first: Seq<InterfaceDescriptor<'_>>,
    others: Seq<InterfaceDescriptor<'_>>,
)
    ensures
        interface_endpoints(first + others) == interface_endpoints(first) + interface_endpoints(
            others,
        ),
        interface_endpoints(Seq::empty()).len() == 0,
{
    let part = |setting: InterfaceDescriptor<'_>| setting_endpoints(setting);
    assert((first + others).map_values(part) =~= first.map_values(part) + others.map_values(part));
    vstd::seq_lib::lemma_flatten_concat(first.map_values(part), others.map_values(part));
    assert(Seq::<InterfaceDescriptor<'_>>::empty().map_values(part) =~= Seq::empty());
}

// A claimed interface.

/// A claimed interface with bulk endpoints both ways is connected over the last
/// one each way, with four transfers of 1024 bytes on each.
pub proof fn law_link_over_last_bulk_endpoints(endpoints: Seq<Endpoint>, out: int, inward: int)
    requires
        0 <= out < endpoints.len(),
        endpoints[out].transfer_type == TransferType::Bulk,
        endpoints[out].direction == Direction::Out,
        forall|j: int|
            out < j < endpoints.len() && (#[trigger] endpoints[j]).transfer_type
                == TransferType::Bulk ==> endpoints[j].direction == Direction::In,
        0 <= inward < endpoints.len(),
        endpoints[inward].transfer_type == TransferType::Bulk,
        endpoints[inward].direction == Direction::In,
        forall|j: int|
            inward < j < endpoints.len() && (#[trigger] endpoints[j]).transfer_type
                == TransferType::Bulk ==> endpoints[j].direction == Direction::Out,
    ensures
        after_claim(endpoints) is OpenOut,
        after_claim(endpoints)->OpenOut_0.out_queue.address == endpoints[out].address,
        after_claim(endpoints)->OpenOut_0.out_queue.transfer_size == 1024,
        after_claim(endpoints)->OpenOut_0.out_queue.num_transfers == 4,
        after_claim(endpoints)->OpenOut_0.in_queue.address == endpoints[inward].address,
        after_claim(endpoints)->OpenOut_0.in_queue.transfer_size == 1024,
        after_claim(endpoints)->OpenOut_0.in_queue.num_transfers == 4,
{
    law_last_bulk_endpoint(endpoints, Direction::Out);
    law_last_bulk_endpoint(endpoints, Direction::In);
}

/// A claimed interface without a bulk endpoint towards the device is not
/// connected over, nor is one without a bulk endpoint towards the host.
pub proof fn law_no_link_without_both_ways(endpoints: Seq<Endpoint>)
    ensures
        (forall|j: int|
            0 <= j < endpoints.len() && (#[trigger] endpoints[j]).transfer_type
                == TransferType::Bulk ==> endpoints[j].direction == Direction::In) ==> after_claim(
            endpoints,
        ) == StageView::Failed("Failed to find OUT EP"@),
        (exists|j: int|
            0 <= j < endpoints.len() && (#[trigger] endpoints[j]).transfer_type
                == TransferType::Bulk && endpoints[j].direction == Direction::Out) && (forall|j: int|
            0 <= j < endpoints.len() && (#[trigger] endpoints[j]).transfer_type
                == TransferType::Bulk ==> endpoints[j].direction == Direction::Out) ==> after_claim(
            endpoints,
        ) == StageView::Failed("Failed to find IN EP"@),
{
    law_last_bulk_endpoint(endpoints, Direction::Out);
    law_last_bulk_endpoint(endpoints, Direction::In);
}

/// Endpoints for other than bulk transfers make no difference: two interfaces
/// with the same bulk endpoints are connected over alike.
pub proof fn law_same_bulk_endpoints_same_link(a: Seq<Endpoint>, b: Seq<Endpoint>)
    requires
        a.filter(|endpoint: Endpoint| endpoint.transfer_type == TransferType::Bulk) == b.filter(
            |endpoint: Endpoint| endpoint.transfer_type == TransferType::Bulk,
        ),
    ensures
        after_claim(a) == after_claim(b),
{
    crate::endpoint::law_only_bulk_counts(a);
    crate::endpoint::law_only_bulk_counts(b);
}

// Replies.

/// A reply that answers the request of a stage.
pub open spec fn answers(stage: StageView, event: EventView) -> bool {
    match stage {
        StageView::ListDevices(_) => event is DevicesListed,
        StageView::TestDevice(_) => event is DeviceRejected || event is DeviceAccepted
            || event is NoMoreDevices,
        StageView::TestInterface { .. } => event is InterfaceTested,
        StageView::OpenDevice { .. } => event is DeviceOpened,
        StageView::ClaimInterface { .. } => event is InterfaceClaimed,
        StageView::OpenOut(_) => event is OutOpened,
        StageView::OpenIn(_) => event is InOpened,
        StageView::Connected(_) | StageView::Failed(_) => false,
    }
}

/// A reply that does not answer the request that was made is without effect.
pub proof fn law_other_replies_ignored(stage: StageView, event: EventView)
    requires
        !answers(stage, event),
    ensures
        stage.after(event) == stage,
{
}

/// The devices are tested once they are listed, for the same choice of
/// interface. A failure to list them is told with its cause.
pub proof fn law_listing(choice: InterfaceChoice, cause: Seq<char>)
    ensures
        StageView::ListDevices(choice).after(EventView::DevicesListed(Ok(())))
            == StageView::TestDevice(choice),
        StageView::ListDevices(choice).after(EventView::DevicesListed(Err(cause)))
            == StageView::Failed("Error listing devices: "@ + cause),
{
}

/// A device that is not the one is passed over, and the list of devices can come
/// to its end.
pub proof fn law_devices_passed_over(choice: InterfaceChoice)
    ensures
        StageView::TestDevice(choice).after(EventView::DeviceRejected) == StageView::TestDevice(
            choice,
        ),
        StageView::TestDevice(choice).after(EventView::NoMoreDevices) == StageView::Failed(
            "Failed to find matching nusb device!"@,
        ),
{
}

proof fn lemma_first_of<A>(values: Seq<A>, value: A, index: int)
    requires
        0 <= index < values.len(),
        values[index] == value,
        forall|j: int| 0 <= j < index ==> values[j] != value,
    ensures
        values.index_of_first(value) == Some(index),
{
    values.index_of_first_ensures(value);
    assert(values.contains(values[index]));
}

/// Where the device has an interface of class 0xFF, the first of these is the one
/// to use: the device is opened for its number, whatever the number is.
pub proof fn law_first_vendor_specific_interface(entries: Seq<(u8, u8)>, index: int)
    requires
        0 <= index < entries.len(),
        entries[index].1 == 0xFF,
        forall|j: int| 0 <= j < index ==> (#[trigger] entries[j]).1 != 0xFF,
    ensures
        StageView::TestDevice(InterfaceChoice::VendorSpecific).after(
            EventView::DeviceAccepted(entries),
        ) == (StageView::OpenDevice { interface_id: entries[index].0 as int }),
{
    let classes = classes_of(entries);
    assert forall|j: int| 0 <= j < index implies classes[j] != 0xFF by {
        assert(entries[j].1 != 0xFF);
    }
    lemma_first_of(classes, 0xFFu8, index);
}

/// Where the device has no interface of class 0xFF, this is told.
pub proof fn law_no_vendor_specific_interface(entries: Seq<(u8, u8)>)
    requires
        forall|j: int| 0 <= j < entries.len() ==> (#[trigger] entries[j]).1 != 0xFF,
    ensures
        StageView::TestDevice(InterfaceChoice::VendorSpecific).after(
            EventView::DeviceAccepted(entries),
        ) == StageView::Failed("Failed to find matching interface!!"@),
{
    let classes = classes_of(entries);
    classes.index_of_first_ensures(0xFFu8);
    if let Some(i) = classes.index_of_first(0xFFu8) {
        assert(classes[i] == entries[i].1);
    }
}

/// Where interfaces cannot be listed, the device is opened for interface zero,
/// whatever it tells of its interfaces.
pub proof fn law_interface_zero_for_any_device(entries: Seq<(u8, u8)>)
    ensures
        StageView::TestDevice(InterfaceChoice::Zero).after(EventView::DeviceAccepted(entries)) == (
        StageView::OpenDevice { interface_id: 0 }),
{
}

/// The stage after one reply after the other.
pub open spec fn after_all(stage: StageView, events: Seq<EventView>) -> StageView
    decreases events.len(),
{
    if events.len() == 0 {
        stage
    } else {
        after_all(stage, events.drop_last()).after(events.last())
    }
}

/// The replies for a device whose interfaces are tested: of the device itself,
/// and then that so many of its interfaces are not the one.
pub open spec fn rejections(entries: Seq<(u8, u8)>, count: nat) -> Seq<EventView>
    decreases count,
{
    if count == 0 {
        seq![EventView::DeviceAccepted(entries)]
    } else {
        rejections(entries, (count - 1) as nat).push(EventView::InterfaceTested(false))
    }
}

proof fn lemma_after_rejections(entries: Seq<(u8, u8)>, count: nat)
    requires
        count < entries.len(),
    ensures
        after_all(
            StageView::TestDevice(InterfaceChoice::Tested),
            rejections(entries, count),
        ) == (StageView::TestInterface { index: count as int, entries }),
    decreases count,
{
    let start = StageView::TestDevice(InterfaceChoice::Tested);
    let events = rejections(entries, count);
    if count == 0 {
        assert(events.drop_last() =~= Seq::empty());
        assert(after_all(start, events.drop_last()) == start);
    } else {
        let earlier = rejections(entries, (count - 1) as nat);
        assert(events.drop_last() =~= earlier);
        lemma_after_rejections(entries, (count - 1) as nat);
    }
}

/// Where the interfaces of the device are tested, the first one that is accepted
/// is the one to use: the device is opened for its number, whatever the number,
/// its class and the other interfaces are.
pub proof fn law_first_accepted_interface(entries: Seq<(u8, u8)>, index: nat)
    requires
        index < entries.len(),
    ensures
        after_all(
            StageView::TestDevice(InterfaceChoice::Tested),
            rejections(entries, index).push(EventView::InterfaceTested(true)),
        ) == (StageView::OpenDevice { interface_id: entries[index as int].0 as int }),
{
    lemma_after_rejections(entries, index);
    let events = rejections(entries, index).push(EventView::InterfaceTested(true));
    assert(events.drop_last() =~= rejections(entries, index));
}

/// Where the interfaces of the device are tested and none of them is accepted,
/// this is told, and not before all of them were tested.
pub proof fn law_no_accepted_interface(entries: Seq<(u8, u8)>, count: nat)
    requires
        count <= entries.len(),
    ensures
        after_all(
            StageView::TestDevice(InterfaceChoice::Tested),
            rejections(entries, count),
        ) == if count == entries.len() {
            StageView::Failed("Failed to find matching interface!!"@)
        } else {
            (StageView::TestInterface { index: count as int, entries })
        },
{
    let start = StageView::TestDevice(InterfaceChoice::Tested);
    let events = rejections(entries, count);
    if count < entries.len() {
        lemma_after_rejections(entries, count);
    } else if count == 0 {
        assert(events.drop_last() =~= Seq::empty());
        assert(after_all(start, events.drop_last()) == start);
    } else {
        lemma_after_rejections(entries, (count - 1) as nat);
        assert(events.drop_last() =~= rejections(entries, (count - 1) as nat));
    }
}

/// The interface that is claimed of an open device has exactly the number that
/// the device was opened for, and with a number that no interface has, none is
/// claimed. A failure to open the device is told with its cause.
pub proof fn law_opening(interface_id: int, cause: Seq<char>)
    requires
        interface_id >= 0,
    ensures
        interface_id < 0x100 ==> ((StageView::OpenDevice { interface_id }).after(
            EventView::DeviceOpened(Ok(())),
        ) matches StageView::ClaimInterface { interface_number } && interface_number as int
            == interface_id),
        interface_id >= 0x100 ==> ((StageView::OpenDevice { interface_id }).after(
            EventView::DeviceOpened(Ok(())),
        ) matches StageView::Failed(message) && "Failed claiming interface: "@.is_prefix_of(
            message,
        )),
        (StageView::OpenDevice { interface_id }).after(EventView::DeviceOpened(Err(cause)))
            == StageView::Failed("Failed opening device: "@ + cause),
{
    reveal_strlit("Failed claiming interface: ");
    reveal_strlit("Failed claiming interface: no interface has this id");
}

/// A failure to claim the interface is told with its cause; a claimed interface
/// goes by its endpoints, and not by its number.
pub proof fn law_claiming(number: u8, other: u8, endpoints: Seq<Endpoint>, cause: Seq<char>)
    ensures
        (StageView::ClaimInterface { interface_number: number }).after(
            EventView::InterfaceClaimed(Err(cause)),
        ) == StageView::Failed("Failed claiming interface: "@ + cause),
        (StageView::ClaimInterface { interface_number: number }).after(
            EventView::InterfaceClaimed(Ok(endpoints)),
        ) == after_claim(endpoints),
        (StageView::ClaimInterface { interface_number: number }).after(
            EventView::InterfaceClaimed(Ok(endpoints)),
        ) == (StageView::ClaimInterface { interface_number: other }).after(
            EventView::InterfaceClaimed(Ok(endpoints)),
        ),
{
}

/// The two endpoints are opened one after the other, and the link stays the one
/// that was chosen. A failure to open either is told with its cause.
pub proof fn law_endpoints_opened(link: Link, cause: Seq<char>)
    ensures
        StageView::OpenOut(link).after(EventView::OutOpened(Ok(()))) == StageView::OpenIn(link),
        StageView::OpenOut(link).after(EventView::OutOpened(Err(cause))) == StageView::Failed(
            "Failed to claim OUT endpoint: "@ + cause,
        ),
        StageView::OpenIn(link).after(EventView::InOpened(Ok(()))) == StageView::Connected(link),
        StageView::OpenIn(link).after(EventView::InOpened(Err(cause))) == StageView::Failed(
            "Failed to claim IN endpoint: "@ + cause,
        ),
{
}

// Connections and clients.

/// A reply to a connection is a reply to its stage, and leaves every setting as
/// it is.
pub proof fn law_step_keeps_settings(connect: ConnectView, event: EventView)
    ensures
        connect.after(event).stage == connect.stage.after(event),
        connect.after(event).settings.seq_no_kind == connect.settings.seq_no_kind,
        connect.after(event).settings.err_uri_path == connect.settings.err_uri_path,
        connect.after(event).settings.outgoing_depth == connect.settings.outgoing_depth,
{
}

/// A connection ends with a client exactly where both endpoints were opened, and
/// with a message exactly where something failed. The client has the link that
/// was opened and the settings of the connection, and the message is the one of
/// what failed.
pub proof fn law_outcome(settings: SettingsView, stage: StageView)
    ensures
        match (ConnectView { settings, stage }).outcome() {
            Some(Ok(client)) => {
                &&& stage == StageView::Connected(client.link)
                &&& client.settings.seq_no_kind == settings.seq_no_kind
                &&& client.settings.err_uri_path == settings.err_uri_path
                &&& client.settings.outgoing_depth == settings.outgoing_depth
            },
            Some(Err(message)) => stage == StageView::Failed(message),
            None => !(stage is Connected) && !(stage is Failed),
        },
{
}

/// The settings of a connection are those that it was begun with, one by one.
pub proof fn law_settings_as_given(
    err_uri_path: Seq<char>,
    outgoing_depth: usize,
    seq_no_kind: VarSeqKind,
)
    ensures
        settings_of(err_uri_path, outgoing_depth, seq_no_kind).seq_no_kind == seq_no_kind,
        settings_of(err_uri_path, outgoing_depth, seq_no_kind).err_uri_path == err_uri_path,
        settings_of(err_uri_path, outgoing_depth, seq_no_kind).outgoing_depth == outgoing_depth,
{
}

/// Interface zero is used on Windows only.
pub proof fn law_default_choice()
    ensures
        default_choice(true) == InterfaceChoice::Zero,
        default_choice(false) == InterfaceChoice::VendorSpecific,
{
}

// Views.

/// The mathematical value of a client has everything that the client has.
pub proof fn law_client_view(client: HostClient)
    ensures
        client@.link == client.link,
        client@.settings.seq_no_kind == client.settings.seq_no_kind,
        client@.settings.err_uri_path == client.settings.err_uri_path@,
        client@.settings.outgoing_depth == client.settings.outgoing_depth,
{
}

/// The mathematical value of a stage is the same request with the same contents.
pub proof fn law_stage_view(stage: Stage)
    ensures
        match stage@ {
            StageView::ListDevices(choice) => stage == Stage::ListDevices(choice),
            StageView::TestDevice(choice) => stage == Stage::TestDevice(choice),
            StageView::TestInterface { index, entries } => stage is TestInterface
                && stage->TestInterface_index == index && stage->TestInterface_entries@ == entries,
            StageView::OpenDevice { interface_id } => stage is OpenDevice
                && stage->interface_id == interface_id,
            StageView::ClaimInterface { interface_number } => stage == (Stage::ClaimInterface {
                interface_number,
            }),
            StageView::OpenOut(link) => stage == Stage::OpenOut(link),
            StageView::OpenIn(link) => stage == Stage::OpenIn(link),
            StageView::Connected(link) => stage == Stage::Connected(link),
            StageView::Failed(message) => stage is Failed && stage->Failed_0@ == message,
        },
{
}

/// The mathematical value of a reply is the same reply with the same contents.
pub proof fn law_event_view(event: Event)
    ensures
        match event {
            Event::DevicesListed(Ok(_)) => event@ == EventView::DevicesListed(Ok(())),
            Event::DevicesListed(Err(cause)) => event@ == EventView::DevicesListed(Err(cause@)),
            Event::DeviceRejected => event@ == EventView::DeviceRejected,
            Event::DeviceAccepted(entries) => event@ == EventView::DeviceAccepted(entries@),
            Event::NoMoreDevices => event@ == EventView::NoMoreDevices,
            Event::InterfaceTested(accepted) => event@ == EventView::InterfaceTested(accepted),
            Event::DeviceOpened(Ok(_)) => event@ == EventView::DeviceOpened(Ok(())),
            Event::DeviceOpened(Err(cause)) => event@ == EventView::DeviceOpened(Err(cause@)),
            Event::InterfaceClaimed(Ok(endpoints)) => event@ == EventView::InterfaceClaimed(
                Ok(endpoints@),
            ),
            Event::InterfaceClaimed(Err(cause)) => event@ == EventView::InterfaceClaimed(
                Err(cause@),
            ),
            Event::OutOpened(Ok(_)) => event@ == EventView::OutOpened(Ok(())),
            Event::OutOpened(Err(cause)) => event@ == EventView::OutOpened(Err(cause@)),
            Event::InOpened(Ok(_)) => event@ == EventView::InOpened(Ok(())),
            Event::InOpened(Err(cause)) => event@ == EventView::InOpened(Err(cause@)),
        },
{
}

} // verus!
