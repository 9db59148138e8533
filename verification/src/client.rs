//! A client of a connected device, and the ways to come by one.
use vstd::prelude::*;

use nusb::descriptors::InterfaceDescriptor;

#[allow(unused_imports)]
use crate::connect::{ConnectView, StageView, after_claim};
use crate::connect::{Connect, InterfaceChoice, Stage, interface_claimed};
use crate::endpoint::{Endpoint, read_endpoints};
#[allow(unused_imports)]
use crate::endpoint::interface_endpoints;
use crate::link::Link;

verus! {

/// How many bytes the sequence number of a message takes.
#[derive(Clone, Copy, Debug, PartialEq, Eq, Structural)]
pub enum VarSeqKind {
    /// One byte.
    Seq1,
    /// Two bytes.
    Seq2,
    /// Four bytes.
    Seq4,
}

/// What the user of a client settles, whatever the device.
#[derive(Debug)]
pub struct ClientSettings {
    /// The size of the sequence numbers.
    pub seq_no_kind: VarSeqKind,
    /// The path of the messages that carry errors of the wire.
    pub err_uri_path: String,
    /// How many messages may wait to be sent.
    pub outgoing_depth: usize,
}

/// A client of a connected device.
#[derive(Debug)]
pub struct HostClient {
    /// The endpoints that carry its messages.
    pub link: Link,
    /// What its user settled.
    pub settings: ClientSettings,
}

/// [`ClientSettings`] with the path as a sequence of characters.
pub ghost struct SettingsView {
    pub seq_no_kind: VarSeqKind,
    pub err_uri_path: Seq<char>,
    pub outgoing_depth: usize,
}

/// [`HostClient`] with the path as a sequence of characters.
pub ghost struct ClientView {
    pub link: Link,
    pub settings: SettingsView,
}

impl View for ClientSettings {
    type V = SettingsView;

    open spec fn view(&self) -> SettingsView {
        SettingsView {
            seq_no_kind: self.seq_no_kind,
            err_uri_path: self.err_uri_path@,
            outgoing_depth: self.outgoing_depth,
        }
    }
}

impl View for HostClient {
    type V = ClientView;

    open spec fn view(&self) -> ClientView {
        ClientView { link: self.link, settings: self.settings@ }
    }
}

/// The settings of a client.
pub open spec fn settings_of(
    err_uri_path: Seq<char>,
    outgoing_depth: usize,
    seq_no_kind: VarSeqKind,
) -> SettingsView {
    SettingsView { seq_no_kind, err_uri_path, outgoing_depth }
}

/// The interface to use where the user does not test interfaces: the WinUSB
/// driver does not allow to list them.
pub open spec fn default_choice(windows: bool) -> InterfaceChoice {
    if windows {
        InterfaceChoice::Zero
    } else {
        InterfaceChoice::VendorSpecific
    }
}

impl ClientSettings {
    fn new(err_uri_path: &str, outgoing_depth: usize, seq_no_kind: VarSeqKind) -> (settings: Self)
        ensures
            settings@ == settings_of(err_uri_path@, outgoing_depth, seq_no_kind),
            settings.seq_no_kind == seq_no_kind,
            settings.err_uri_path@ == err_uri_path@,
            settings.outgoing_depth == outgoing_depth,
    {
        ClientSettings { seq_no_kind, err_uri_path: err_uri_path.to_owned(), outgoing_depth }
    }
}

impl HostClient {
    /// Begins a connection to the first device that a test accepts, over its
    /// first vendor-specific interface, or over interface zero on Windows.
    ///
    /// `err_uri_path` is the path of the messages that carry errors of the wire.
    pub fn try_new_raw_nusb(
        windows: bool,
        err_uri_path: &str,
        outgoing_depth: usize,
        seq_no_kind: VarSeqKind,
    ) -> (connect: Connect)
        ensures
            connect@ == (ConnectView {
                settings: settings_of(err_uri_path@, outgoing_depth, seq_no_kind),
                stage: StageView::ListDevices(default_choice(windows)),
            }),
            connect@.settings.seq_no_kind == seq_no_kind,
            connect@.settings.err_uri_path == err_uri_path@,
            connect@.settings.outgoing_depth == outgoing_depth,
            windows ==> connect@.stage == StageView::ListDevices(InterfaceChoice::Zero),
            !windows ==> connect@.stage == StageView::ListDevices(InterfaceChoice::VendorSpecific),
    {
        let choice: InterfaceChoice = if windows {
            InterfaceChoice::Zero
        } else {
            InterfaceChoice::VendorSpecific
        };
        Connect::begin(
            ClientSettings::new(err_uri_path, outgoing_depth, seq_no_kind),
            Stage::ListDevices(choice),
        )
    }

    /// Begins a connection to the first device that a test accepts, over the
    /// first of its interfaces that another test accepts.
    pub fn try_new_raw_nusb_with_interface(
        err_uri_path: &str,
        outgoing_depth: usize,
        seq_no_kind: VarSeqKind,
    ) -> (connect: Connect)
        ensures
            connect@ == (ConnectView {
                settings: settings_of(err_uri_path@, outgoing_depth, seq_no_kind),
                stage: StageView::ListDevices(InterfaceChoice::Tested),
            }),
            connect@.settings.seq_no_kind == seq_no_kind,
            connect@.settings.err_uri_path == err_uri_path@,
            connect@.settings.outgoing_depth == outgoing_depth,
    {
        Connect::begin(
            ClientSettings::new(err_uri_path, outgoing_depth, seq_no_kind),
            Stage::ListDevices(InterfaceChoice::Tested),
        )
    }

    /// Begins a connection to a given device over the interface with a given
    /// number. With a number above one byte, which no interface has, it ends in
    /// an error.
    pub fn try_from_nusb_and_interface_id(
        interface_id: usize,
        err_uri_path: &str,
        outgoing_depth: usize,
        seq_no_kind: VarSeqKind,
    ) -> (connect: Connect)
        ensures
            connect@ == (ConnectView {
                settings: settings_of(err_uri_path@, outgoing_depth, seq_no_kind),
                stage: StageView::OpenDevice { interface_id: interface_id as int },
            }),
            connect@.settings.seq_no_kind == seq_no_kind,
            connect@.settings.err_uri_path == err_uri_path@,
            connect@.settings.outgoing_depth == outgoing_depth,
    {
        Connect::begin(
            ClientSettings::new(err_uri_path, outgoing_depth, seq_no_kind),
            Stage::OpenDevice { interface_id },
        )
    }

    /// Begins a connection over an interface that is claimed already, from the
    /// descriptors of its alternate settings.
    pub fn try_from_nusb_interface(
        descriptors: &Vec<InterfaceDescriptor<'_>>,
        err_uri_path: &str,
        outgoing_depth: usize,
        seq_no_kind: VarSeqKind,
    ) -> (connect: Connect)
        ensures
            connect@ == (ConnectView {
                settings: settings_of(err_uri_path@, outgoing_depth, seq_no_kind),
                stage: after_claim(interface_endpoints(descriptors@)),
            }),
            connect@.settings.seq_no_kind == seq_no_kind,
            connect@.settings.err_uri_path == err_uri_path@,
            connect@.settings.outgoing_depth == outgoing_depth,
    {
        let endpoints: Vec<Endpoint> = read_endpoints(descriptors);
        Connect::begin(
            ClientSettings::new(err_uri_path, outgoing_depth, seq_no_kind),
            interface_claimed(&endpoints),
        )
    }

    /// The client of a connection that has to have succeeded.
    pub fn new_raw_nusb(connect: Connect) -> (client: HostClient)
        requires
            connect@.outcome() matches Some(Ok(_)),
        ensures
            connect@.outcome() == Some(Ok::<ClientView, Seq<char>>(client@)),
            connect@.stage == StageView::Connected(client.link),
            client.settings.seq_no_kind == connect@.settings.seq_no_kind,
            client.settings.err_uri_path@ == connect@.settings.err_uri_path,
            client.settings.outgoing_depth == connect@.settings.outgoing_depth,
    {
        connect.finish().unwrap().unwrap()
    }
}

} // verus!
