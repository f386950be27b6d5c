//! The screen on which a paired device is picked.

use crate::bytes::lemma_take_one_more;
use crate::devices::ConnectionDescriptor;
use crate::mac_address::{colon_hex, MacAddress, MacSet};
use crate::text::{to_uppercase, uppercase};
use vstd::prelude::*;

verus! {

/// A device that was paired. `M` says which model it is.
#[derive(Debug, Clone, Copy, PartialEq, Eq)]
pub struct PairedDevice<M> {
    pub mac_address: MacAddress,
    pub model: M,
    pub is_demo: bool,
}

/// What happens on the screen.
#[derive(Debug, Clone)]
pub enum Message<M> {
    ConnectToDevice(usize),
    RemoveDevice(usize),
    AddDevice,
    SetPairedDevices(Vec<PairedDevice<M>>),
    SetConnectedDevices(Option<MacSet>),
    Warning(String),
}

/// What the screen asks its surroundings to do.
#[derive(Debug, PartialEq, Eq)]
pub enum Action<M> {
    ConnectToDevice(PairedDevice<M>),
    RemoveDevice(PairedDevice<M>),
    AddDevice,
    Nothing,
    Warning(String),
}

/// What the screen has to be told again from outside.
#[derive(Debug, Clone, Copy, PartialEq, Eq, Structural)]
pub enum Refresh {
    PairedDevices,
    ConnectedDevices,
}

/// The state of the screen.
#[derive(Debug)]
pub struct DeviceSelectionModel<M> {
    paired_devices: Vec<PairedDevice<M>>,
    /// The addresses of the devices that are currently connected to the Bluetooth adapter. `None`
    /// until the first successful refresh.
    connected_devices: Option<MacSet>,
}

/// The state of the screen, as mathematics.
pub struct Selection<M> {
    pub paired: Seq<PairedDevice<M>>,
    pub connected: Option<Set<Seq<u8>>>,
}

/// The texts of the screen in the language of the user.
#[derive(Debug, PartialEq, Eq)]
pub struct Labels {
    pub select_device: String,
    pub add_device: String,
    pub demo_mode: String,
    pub remove: String,
    pub connect: String,
    pub bluetooth_connected: String,
    pub bluetooth_not_connected: String,
}

/// What a row says of the connection of its device.
#[derive(Debug, PartialEq, Eq)]
pub enum StatusLabel {
    /// Nothing.
    Blank,
    /// A text in the accent colour.
    Accent(String),
    /// A text.
    Plain(String),
}

/// One row of the screen: a paired device with its two buttons.
#[derive(Debug)]
pub struct DeviceRow<M> {
    /// Named in the heading and in the first line below it.
    pub model: M,
    pub mac_address: String,
    pub demo_label: Option<String>,
    pub status: StatusLabel,
    pub remove_label: String,
    pub on_remove: Message<M>,
    pub connect_label: String,
    pub on_connect: Message<M>,
}

/// The whole screen: a title with one button, and the rows below it.
#[derive(Debug)]
pub struct SelectionView<M> {
    pub title: String,
    pub add_label: String,
    pub on_add: Message<M>,
    pub rows: Vec<DeviceRow<M>>,
}

/// The address set of a message, as mathematics.
pub open spec fn address_set(connected: Option<MacSet>) -> Option<Set<Seq<u8>>> {
    match connected {
        Some(set) => Some(set@),
        None => None,
    }
}

/// The screen before anything is known.
pub open spec fn initial_selection<M>() -> Selection<M> {
    Selection { paired: Seq::empty(), connected: None }
}

/// Whether a message can come in: a row that it is about has to be on the screen.
pub open spec fn accepts<M>(state: Selection<M>, message: Message<M>) -> bool {
    match message {
        Message::ConnectToDevice(index) => index < state.paired.len(),
        Message::RemoveDevice(index) => index < state.paired.len(),
        _ => true,
    }
}

/// The state after a message.
pub open spec fn next_selection<M>(state: Selection<M>, message: Message<M>) -> Selection<M> {
    match message {
        Message::SetPairedDevices(devices) => Selection { paired: devices@, ..state },
        Message::SetConnectedDevices(connected) => Selection {
            connected: address_set(connected),
            ..state
        },
        _ => state,
    }
}

/// The action that a message leads to.
pub open spec fn action_for<M>(state: Selection<M>, message: Message<M>) -> Action<M> {
    match message {
        Message::ConnectToDevice(index) => Action::ConnectToDevice(state.paired[index as int]),
        Message::RemoveDevice(index) => Action::RemoveDevice(state.paired[index as int]),
        Message::AddDevice => Action::AddDevice,
        Message::SetPairedDevices(_) => Action::Nothing,
        Message::SetConnectedDevices(_) => Action::Nothing,
        Message::Warning(text) => Action::Warning(text),
    }
}

/// Whether `label` is what the row of `device` says of its connection.
pub open spec fn status_shown<M>(
    state: Selection<M>,
    device: PairedDevice<M>,
    labels: Labels,
    label: StatusLabel,
) -> bool {
    match state.connected {
        None => label is Blank,
        Some(connected) => if device.is_demo {
            label is Blank
        } else if connected.contains(device.mac_address.octets@) {
            label matches StatusLabel::Accent(text) && text@ == labels.bluetooth_connected@
        } else {
            label matches StatusLabel::Plain(text) && text@ == labels.bluetooth_not_connected@
        },
    }
}

/// Whether `row` is the one of the device at `index`, where demo devices are marked with the text
/// `demo`.
pub open spec fn row_shown<M>(
    state: Selection<M>,
    index: int,
    labels: Labels,
    demo: Seq<char>,
    row: DeviceRow<M>,
) -> bool {
    let device = state.paired[index];
    &&& row.model == device.model
    &&& row.mac_address@ == colon_hex(device.mac_address.octets@)
    &&& match row.demo_label {
        Some(text) => device.is_demo && text@ == demo,
        None => !device.is_demo,
    }
    &&& status_shown(state, device, labels, row.status)
    &&& row.remove_label@ == labels.remove@
    &&& row.on_remove == Message::<M>::RemoveDevice(index as usize)
    &&& row.connect_label@ == labels.connect@
    &&& row.on_connect == Message::<M>::ConnectToDevice(index as usize)
}

/// Whether `rows` show all paired devices, in their order.
pub open spec fn rows_shown<M>(
    state: Selection<M>,
    labels: Labels,
    demo: Seq<char>,
    rows: Seq<DeviceRow<M>>,
) -> bool {
    &&& rows.len() == state.paired.len()
    &&& forall|i: int|
        0 <= i < rows.len() ==> row_shown(state, i, labels, demo, #[trigger] rows[i])
}

impl<M: Copy> DeviceSelectionModel<M> {
    /// The state, as mathematics.
    pub closed spec fn state(&self) -> Selection<M> {
        Selection { paired: self.paired_devices@, connected: address_set(self.connected_devices) }
    }

    /// A screen that knows nothing yet, and what it has to be told.
    pub fn new() -> (start: (DeviceSelectionModel<M>, Vec<Refresh>))
        ensures
            start.0.state() == initial_selection::<M>(),
            start.0.state().paired.len() == 0,
            start.0.state().connected is None,
            start.1@ == seq![Refresh::PairedDevices, Refresh::ConnectedDevices],
    {
        let model = DeviceSelectionModel { paired_devices: Vec::new(), connected_devices: None };
        assert(model.paired_devices@ =~= Seq::<PairedDevice<M>>::empty());
        (model, vec![Refresh::PairedDevices, Refresh::ConnectedDevices])
    }

    /// The message after the paired devices were asked for: the devices, or the error as a warning
    /// to the user.
    pub fn refresh_paired_devices(result: Result<Vec<PairedDevice<M>>, String>) -> (message:
        Message<M>)
        ensures
            match result {
                Ok(devices) => message == Message::SetPairedDevices(devices),
                Err(warning) => message == Message::<M>::Warning(warning),
            },
    {
        match result {
            Ok(devices) => Message::SetPairedDevices(devices),
            Err(warning) => Message::Warning(warning),
        }
    }

    /// The message after the connected devices were asked for. This is asked periodically, so a
    /// failure (such as Bluetooth being turned off) is not shown to the user: the connection
    /// status is hidden instead.
    pub fn refresh_connected_devices<E>(result: Result<Vec<ConnectionDescriptor>, E>) -> (message:
        Message<M>)
        ensures
            message matches Message::SetConnectedDevices(connected) && address_set(connected)
                == match result {
                Ok(devices) => Some(addresses(devices@)),
                Err(_) => None,
            },
            result matches Ok(devices) ==> (message matches Message::SetConnectedDevices(Some(set))
                && (forall|octets: Seq<u8>| #[trigger]
                        set@.contains(octets) <==> exists|i: int|
                            #![trigger devices@[i]]
                            0 <= i < devices@.len() && devices@[i].mac_address.octets@ == octets)),
            result is Err ==> message == Message::<M>::SetConnectedDevices(None),
    {
        match result {
            Ok(devices) => {
                let mut connected = MacSet::new();
                let ghost all = devices@.map_values(
                    |device: ConnectionDescriptor| device.mac_address.octets@,
                );
                let mut i: usize = 0;
                assert(connected@ =~= all.take(0).to_set());
                while i < devices.len()
                    invariant
                        i <= devices@.len(),
                        all == devices@.map_values(
                            |device: ConnectionDescriptor| device.mac_address.octets@,
                        ),
                        connected@ == all.take(i as int).to_set(),
                    decreases devices@.len() - i,
                {
                    connected.insert(devices[i].mac_address);
                    proof {
                        lemma_take_one_more(all, i as int);
                    }
                    i = i + 1;
                }
                assert(all.take(i as int) =~= all);
                proof {
                    assert forall|octets: Seq<u8>| #[trigger]
                        connected@.contains(octets) <==> exists|i: int|
                            #![trigger devices@[i]]
                            0 <= i < devices@.len() && devices@[i].mac_address.octets@ == octets by {
                        law_connected_addresses_are_those_listed(devices@, octets);
                    }
                }
                Message::SetConnectedDevices(Some(connected))
            },
            Err(_) => Message::SetConnectedDevices(None),
        }
    }

    /// The whole screen.
    pub fn view(&self, labels: &Labels) -> (view: SelectionView<M>)
        ensures
            view.title@ == labels.select_device@,
            view.add_label@ == labels.add_device@,
            view.on_add == Message::<M>::AddDevice,
            rows_shown(self.state(), *labels, uppercase(labels.demo_mode@), view.rows@),
            view.rows@.len() == self.state().paired.len(),
            forall|i: int|
                #![trigger view.rows@[i]]
                0 <= i < view.rows@.len() ==> {
                    &&& view.rows@[i].model == self.state().paired[i].model
                    &&& view.rows@[i].mac_address@ == colon_hex(self.state().paired[i].mac_address.octets@)
                    &&& view.rows@[i].demo_label is Some <==> self.state().paired[i].is_demo
                    &&& view.rows@[i].demo_label matches Some(text) ==> text@ == uppercase(labels.demo_mode@)
                    &&& view.rows@[i].remove_label@ == labels.remove@
                    &&& view.rows@[i].on_remove == Message::<M>::RemoveDevice(i as usize)
                    &&& view.rows@[i].connect_label@ == labels.connect@
                    &&& view.rows@[i].on_connect == Message::<M>::ConnectToDevice(i as usize)
                },
            forall|i: int|
                #![trigger view.rows@[i]]
                0 <= i < view.rows@.len() ==> {
                    &&& self.state().connected is None || self.state().paired[i].is_demo ==> view.rows@[i].status is Blank
                    &&& self.state().connected is Some && !self.state().paired[i].is_demo
                        && self.state().connected->0.contains(self.state().paired[i].mac_address.octets@) ==> (
                    view.rows@[i].status matches StatusLabel::Accent(text) && text@
                        == labels.bluetooth_connected@)
                    &&& self.state().connected is Some && !self.state().paired[i].is_demo
                        && !self.state().connected->0.contains(self.state().paired[i].mac_address.octets@) ==> (
                    view.rows@[i].status matches StatusLabel::Plain(text) && text@
                        == labels.bluetooth_not_connected@)
                },
    {
        SelectionView {
            title: labels.select_device.clone(),
            add_label: labels.add_device.clone(),
            on_add: Message::AddDevice,
            rows: self.items(labels),
        }
    }

    /// The rows of the screen. Demo devices are marked in upper case.
    pub fn items(&self, labels: &Labels) -> (rows: Vec<DeviceRow<M>>)
        ensures
            rows_shown(self.state(), *labels, uppercase(labels.demo_mode@), rows@),
            rows@.len() == self.state().paired.len(),
            forall|i: int|
                #![trigger rows@[i]]
                0 <= i < rows@.len() ==> {
                    &&& rows@[i].model == self.state().paired[i].model
                    &&& rows@[i].mac_address@ == colon_hex(self.state().paired[i].mac_address.octets@)
                    &&& rows@[i].demo_label is Some <==> self.state().paired[i].is_demo
                    &&& rows@[i].demo_label matches Some(text) ==> text@ == uppercase(labels.demo_mode@)
                    &&& rows@[i].remove_label@ == labels.remove@
                    &&& rows@[i].on_remove == Message::<M>::RemoveDevice(i as usize)
                    &&& rows@[i].connect_label@ == labels.connect@
                    &&& rows@[i].on_connect == Message::<M>::ConnectToDevice(i as usize)
                },
            forall|i: int|
                #![trigger rows@[i]]
                0 <= i < rows@.len() ==> {
                    &&& self.state().connected is None || self.state().paired[i].is_demo ==> rows@[i].status is Blank
                    &&& self.state().connected is Some && !self.state().paired[i].is_demo
                        && self.state().connected->0.contains(self.state().paired[i].mac_address.octets@) ==> (
                    rows@[i].status matches StatusLabel::Accent(text) && text@
                        == labels.bluetooth_connected@)
                    &&& self.state().connected is Some && !self.state().paired[i].is_demo
                        && !self.state().connected->0.contains(self.state().paired[i].mac_address.octets@) ==> (
                    rows@[i].status matches StatusLabel::Plain(text) && text@
                        == labels.bluetooth_not_connected@)
                },
    {
        let demo = to_uppercase(labels.demo_mode.as_str());
        self.items_marked(labels, &demo)
    }

    /// The rows of the screen, where demo devices are marked with the text `demo`.
    pub fn items_marked(&self, labels: &Labels, demo: &String) -> (rows: Vec<DeviceRow<M>>)
        ensures
            rows_shown(self.state(), *labels, demo@, rows@),
            rows@.len() == self.state().paired.len(),
            forall|i: int|
                #![trigger rows@[i]]
                0 <= i < rows@.len() ==> {
                    &&& rows@[i].model == self.state().paired[i].model
                    &&& rows@[i].mac_address@ == colon_hex(self.state().paired[i].mac_address.octets@)
                    &&& rows@[i].demo_label is Some <==> self.state().paired[i].is_demo
                    &&& rows@[i].demo_label matches Some(text) ==> text@ == demo@
                    &&& rows@[i].remove_label@ == labels.remove@
                    &&& rows@[i].on_remove == Message::<M>::RemoveDevice(i as usize)
                    &&& rows@[i].connect_label@ == labels.connect@
                    &&& rows@[i].on_connect == Message::<M>::ConnectToDevice(i as usize)
                },
            forall|i: int|
                #![trigger rows@[i]]
                0 <= i < rows@.len() ==> {
                    &&& self.state().connected is None || self.state().paired[i].is_demo ==> rows@[i].status is Blank
                    &&& self.state().connected is Some && !self.state().paired[i].is_demo
                        && self.state().connected->0.contains(self.state().paired[i].mac_address.octets@) ==> (
                    rows@[i].status matches StatusLabel::Accent(text) && text@
                        == labels.bluetooth_connected@)
                    &&& self.state().connected is Some && !self.state().paired[i].is_demo
                        && !self.state().connected->0.contains(self.state().paired[i].mac_address.octets@) ==> (
                    rows@[i].status matches StatusLabel::Plain(text) && text@
                        == labels.bluetooth_not_connected@)
                },
    {
        let mut rows: Vec<DeviceRow<M>> = Vec::new();
        let mut index: usize = 0;
        while index < self.paired_devices.len()
            invariant
                index <= self.paired_devices@.len(),
                rows@.len() == index,
                forall|i: int|
                    0 <= i < index ==> row_shown(
                        self.state(),
                        i,
                        *labels,
                        demo@,
                        #[trigger] rows@[i],
                    ),
            decreases self.paired_devices@.len() - index,
        {
            let device = self.paired_devices[index];
            let demo_label = if device.is_demo {
                Some(demo.clone())
            } else {
                None
            };
            let row = DeviceRow {
                model: device.model,
                mac_address: device.mac_address.to_string(),
                demo_label,
                status: self.connection_status(&device, labels),
                remove_label: labels.remove.clone(),
                on_remove: Message::RemoveDevice(index),
                connect_label: labels.connect.clone(),
                on_connect: Message::ConnectToDevice(index),
            };
            rows.push(row);
            index = index + 1;
        }
        proof {
            law_rows_show_their_devices(self.state(), *labels, demo@, rows@);
        }
        rows
    }

    /// What the row of a device says of its connection: nothing where the connected devices are
    /// not known or the device is a demo.
    pub fn connection_status(&self, device: &PairedDevice<M>, labels: &Labels) -> (label:
        StatusLabel)
        ensures
            status_shown(self.state(), *device, *labels, label),
            self.state().connected is None || device.is_demo ==> label is Blank,
            self.state().connected is Some && !device.is_demo && self.state().connected->0.contains(
                device.mac_address.octets@,
            ) ==> (label matches StatusLabel::Accent(text) && text@ == labels.bluetooth_connected@),
            self.state().connected is Some && !device.is_demo && !self.state().connected->0.contains(
                device.mac_address.octets@,
            ) ==> (label matches StatusLabel::Plain(text) && text@ == labels.bluetooth_not_connected@),
    {
        let connected_devices = match &self.connected_devices {
            Some(connected_devices) => connected_devices,
            None => return StatusLabel::Blank,
        };
        if device.is_demo {
            return StatusLabel::Blank;
        }
        if connected_devices.contains(&device.mac_address) {
            StatusLabel::Accent(labels.bluetooth_connected.clone())
        } else {
            StatusLabel::Plain(labels.bluetooth_not_connected.clone())
        }
    }

    /// Whether a message can come in: a row that it is about has to be on the screen.
    pub fn accepts(&self, message: &Message<M>) -> (accepted: bool)
        ensures
            accepted == accepts(self.state(), *message),
            accepted <==> match *message {
                Message::ConnectToDevice(index) => index < self.state().paired.len(),
                Message::RemoveDevice(index) => index < self.state().paired.len(),
                _ => true,
            },
    {
        match message {
            Message::ConnectToDevice(index) => *index < self.paired_devices.len(),
            Message::RemoveDevice(index) => *index < self.paired_devices.len(),
            _ => true,
        }
    }

    /// Takes a message in.
    #[must_use]
    pub fn update(&mut self, message: Message<M>) -> (action: Action<M>)
        requires
            accepts(old(self).state(), message),
        ensures
            final(self).state() == next_selection(old(self).state(), message),
            action == action_for(old(self).state(), message),
            message matches Message::ConnectToDevice(index) ==> action == Action::ConnectToDevice(
                old(self).state().paired[index as int],
            ),
            message matches Message::RemoveDevice(index) ==> action == Action::RemoveDevice(
                old(self).state().paired[index as int],
            ),
            message is AddDevice ==> action == Action::<M>::AddDevice,
            message matches Message::Warning(text) ==> action == Action::<M>::Warning(text),
            message is SetPairedDevices || message is SetConnectedDevices ==> action == Action::<
                M,
            >::Nothing,
            message matches Message::SetPairedDevices(devices) ==> final(self).state().paired
                == devices@,
            message !is SetPairedDevices ==> final(self).state().paired == old(self).state().paired,
            message matches Message::SetConnectedDevices(Some(set)) ==> final(self).state().connected == Some(set@),
            message matches Message::SetConnectedDevices(None) ==> final(self).state().connected
                == None::<Set<Seq<u8>>>,
            message !is SetConnectedDevices ==> final(self).state().connected == old(self).state().connected,
    {
        match message {
            Message::ConnectToDevice(index) => {
                return Action::ConnectToDevice(self.paired_devices[index]);
            },
            Message::RemoveDevice(index) => {
                return Action::RemoveDevice(self.paired_devices[index]);
            },
            Message::AddDevice => return Action::AddDevice,
            Message::SetPairedDevices(paired_devices) => {
                self.paired_devices = paired_devices;
            },
            Message::SetConnectedDevices(connected_devices) => {
                self.connected_devices = connected_devices;
            },
            Message::Warning(text) => return Action::Warning(text),
        }
        Action::Nothing
    }
}

/// The addresses of some devices.
pub open spec fn addresses(devices: Seq<ConnectionDescriptor>) -> Set<Seq<u8>> {
    devices.map_values(|device: ConnectionDescriptor| device.mac_address.octets@).to_set()
}

/// An address is among those of some devices if and only if one of them, whichever it is, has it.
pub proof fn law_connected_addresses_are_those_listed(
    devices: Seq<ConnectionDescriptor>,
    octets: Seq<u8>,
)
    ensures
        addresses(devices).contains(octets) <==> exists|i: int|
            #![trigger devices[i]]
            0 <= i < devices.len() && devices[i].mac_address.octets@ == octets,
{
    let all = devices.map_values(|device: ConnectionDescriptor| device.mac_address.octets@);
    if all.contains(octets) {
        let i = choose|i: int| 0 <= i < all.len() && all[i] == octets;
        assert(devices[i].mac_address.octets@ == octets);
    }
    if exists|i: int|
        #![trigger devices[i]]
        0 <= i < devices.len() && devices[i].mac_address.octets@ == octets {
        let i = choose|i: int|
            #![trigger devices[i]]
            0 <= i < devices.len() && devices[i].mac_address.octets@ == octets;
        assert(all[i] == octets);
    }
}

/// There is one row for each paired device, in their order. Every row names the model and the
/// address of its device, is marked if and only if that is a demo, says what is known of its
/// connection, and has a button to remove it and a button to connect to it, each with its own
/// label.
pub proof fn law_rows_show_their_devices<M>(
    state: Selection<M>,
    labels: Labels,
    demo: Seq<char>,
    rows: Seq<DeviceRow<M>>,
)
    requires
        rows_shown(state, labels, demo, rows),
    ensures
        rows.len() == state.paired.len(),
        forall|i: int|
            #![trigger rows[i]]
            0 <= i < rows.len() ==> {
                &&& rows[i].model == state.paired[i].model
                &&& rows[i].mac_address@ == colon_hex(state.paired[i].mac_address.octets@)
                &&& rows[i].demo_label is Some <==> state.paired[i].is_demo
                &&& rows[i].demo_label matches Some(text) ==> text@ == demo
                &&& rows[i].remove_label@ == labels.remove@
                &&& rows[i].on_remove == Message::<M>::RemoveDevice(i as usize)
                &&& rows[i].connect_label@ == labels.connect@
                &&& rows[i].on_connect == Message::<M>::ConnectToDevice(i as usize)
            },
        forall|i: int|
            #![trigger rows[i]]
            0 <= i < rows.len() ==> {
                &&& state.connected is None || state.paired[i].is_demo ==> rows[i].status is Blank
                &&& state.connected is Some && !state.paired[i].is_demo
                    && state.connected->0.contains(state.paired[i].mac_address.octets@) ==> (
                rows[i].status matches StatusLabel::Accent(text) && text@
                    == labels.bluetooth_connected@)
                &&& state.connected is Some && !state.paired[i].is_demo
                    && !state.connected->0.contains(state.paired[i].mac_address.octets@) ==> (
                rows[i].status matches StatusLabel::Plain(text) && text@
                    == labels.bluetooth_not_connected@)
            },
{
    assert forall|i: int| 0 <= i < rows.len() implies row_shown(
        state,
        i,
        labels,
        demo,
        #[trigger] rows[i],
    ) by {}
}

/// In every row, the button whose message leads to the removal of a device carries the label for
/// that, and the button whose message leads to a connection carries the label for that: no button
/// does what the other one says.
pub proof fn law_buttons_do_what_they_say<M>(
    state: Selection<M>,
    labels: Labels,
    demo: Seq<char>,
    rows: Seq<DeviceRow<M>>,
    i: int,
)
    requires
        state.paired.len() <= usize::MAX,
        rows_shown(state, labels, demo, rows),
        0 <= i < rows.len(),
    ensures
        action_for(state, rows[i].on_remove) == Action::RemoveDevice(state.paired[i]),
        rows[i].remove_label@ == labels.remove@,
        action_for(state, rows[i].on_connect) == Action::ConnectToDevice(state.paired[i]),
        rows[i].connect_label@ == labels.connect@,
{
    assert(row_shown(state, i, labels, demo, rows[i]));
}

/// In every state, each kind of message leads to its own kind of action and no other: a device is
/// connected to or removed only where that was asked of its row, the add button adds a device, and
/// a warning is passed on with its text.
pub proof fn law_actions_are_what_was_asked_for<M>(
    state: Selection<M>,
    message: Message<M>,
    text: String,
)
    ensures
        action_for(state, message) is AddDevice <==> message is AddDevice,
        action_for(state, message) is ConnectToDevice <==> message is ConnectToDevice,
        action_for(state, message) is RemoveDevice <==> message is RemoveDevice,
        message matches Message::ConnectToDevice(index) ==> action_for(state, message)
            == Action::ConnectToDevice(state.paired[index as int]),
        message matches Message::RemoveDevice(index) ==> action_for(state, message)
            == Action::RemoveDevice(state.paired[index as int]),
        action_for(state, message) == Action::<M>::Warning(text) <==> message
            == Message::<M>::Warning(text),
{
}

/// The paired devices change only where they are told, and are then those that were told; the same
/// holds of the connected devices; and neither is told by anything else.
pub proof fn law_state_is_what_was_told<M>(state: Selection<M>, message: Message<M>)
    ensures
        message matches Message::SetPairedDevices(devices) ==> next_selection(state, message).paired
            == devices@,
        message !is SetPairedDevices ==> next_selection(state, message).paired == state.paired,
        message matches Message::SetConnectedDevices(Some(set)) ==> next_selection(
            state,
            message,
        ).connected == Some(set@),
        message matches Message::SetConnectedDevices(None) ==> next_selection(
            state,
            message,
        ).connected == None::<Set<Seq<u8>>>,
        message !is SetConnectedDevices ==> next_selection(state, message).connected
            == state.connected,
{
}

/// The only messages that cannot come in are those about a row that is not on the screen.
pub proof fn law_only_messages_about_missing_rows_are_refused<M>(
    state: Selection<M>,
    message: Message<M>,
)
    ensures
        !accepts(state, message) <==> {
            ||| message matches Message::ConnectToDevice(index) && index >= state.paired.len()
            ||| message matches Message::RemoveDevice(index) && index >= state.paired.len()
        },
{
}

/// The state after some messages came in in that order.
pub open spec fn selection_after<M>(state: Selection<M>, messages: Seq<Message<M>>) -> Selection<M>
    decreases messages.len(),
{
    if messages.len() == 0 {
        state
    } else {
        next_selection(selection_after(state, messages.drop_last()), messages.last())
    }
}

/// The buttons of a row can always be pressed, act on the device that the row shows, and leave the
/// screen as it is.
pub proof fn law_buttons_act_on_their_row<M>(
    state: Selection<M>,
    labels: Labels,
    demo: Seq<char>,
    rows: Seq<DeviceRow<M>>,
    i: int,
)
    requires
        state.paired.len() <= usize::MAX,
        rows_shown(state, labels, demo, rows),
        0 <= i < rows.len(),
    ensures
        accepts(state, rows[i].on_connect),
        action_for(state, rows[i].on_connect) == Action::ConnectToDevice(state.paired[i]),
        next_selection(state, rows[i].on_connect) == state,
        accepts(state, rows[i].on_remove),
        action_for(state, rows[i].on_remove) == Action::RemoveDevice(state.paired[i]),
        next_selection(state, rows[i].on_remove) == state,
{
    assert(row_shown(state, i, labels, demo, rows[i]));
}

/// A message either asks for something and leaves the state as it is, or tells the screen something
/// and asks for nothing.
pub proof fn law_messages_ask_or_tell<M>(state: Selection<M>, message: Message<M>)
    ensures
        action_for(state, message) is Nothing <==> (message is SetPairedDevices
            || message is SetConnectedDevices),
        action_for(state, message) !is Nothing ==> next_selection(state, message) == state,
{
}

/// What is told of paired devices and what is told of connected devices do not disturb each other.
pub proof fn law_refreshes_commute<M>(
    state: Selection<M>,
    paired: Vec<PairedDevice<M>>,
    connected: Option<MacSet>,
)
    ensures
        selection_after(
            state,
            seq![Message::SetPairedDevices(paired), Message::SetConnectedDevices(connected)],
        ) == selection_after(
            state,
            seq![Message::SetConnectedDevices(connected), Message::SetPairedDevices(paired)],
        ),
        selection_after(
            state,
            seq![Message::SetPairedDevices(paired), Message::SetConnectedDevices(connected)],
        ) == (Selection { paired: paired@, connected: address_set(connected) }),
{
    let a: Message<M> = Message::SetPairedDevices(paired);
    let b: Message<M> = Message::SetConnectedDevices(connected);
    reveal_with_fuel(selection_after, 3);
    assert(seq![a, b].drop_last() =~= seq![a]);
    assert(seq![b, a].drop_last() =~= seq![b]);
    assert(seq![a].drop_last() =~= Seq::<Message<M>>::empty());
    assert(seq![b].drop_last() =~= Seq::<Message<M>>::empty());
}

/// The screen shows the paired devices that it was last told.
pub proof fn law_last_paired_devices_stand<M>(
    state: Selection<M>,
    messages: Seq<Message<M>>,
    i: int,
    devices: Vec<PairedDevice<M>>,
)
    requires
        0 <= i < messages.len(),
        messages[i] == Message::SetPairedDevices(devices),
        forall|j: int| i < j < messages.len() ==> #[trigger] messages[j] !is SetPairedDevices,
    ensures
        selection_after(state, messages).paired == devices@,
    decreases messages.len(),
{
    if i < messages.len() - 1 {
        assert(messages[messages.len() - 1] == messages.last());
        law_last_paired_devices_stand(state, messages.drop_last(), i, devices);
    }
}

/// The screen knows the connected devices that it was last told, and knows none after a refresh
/// that failed.
pub proof fn law_last_connected_devices_stand<M>(
    state: Selection<M>,
    messages: Seq<Message<M>>,
    i: int,
    connected: Option<MacSet>,
)
    requires
        0 <= i < messages.len(),
        messages[i] == Message::<M>::SetConnectedDevices(connected),
        forall|j: int| i < j < messages.len() ==> #[trigger] messages[j] !is SetConnectedDevices,
    ensures
        selection_after(state, messages).connected == address_set(connected),
    decreases messages.len(),
{
    if i < messages.len() - 1 {
        assert(messages[messages.len() - 1] == messages.last());
        law_last_connected_devices_stand(state, messages.drop_last(), i, connected);
    }
}

/// Until the connected devices were told for the first time, no row says anything of a connection.
pub proof fn law_status_is_blank_before_a_refresh<M>(
    messages: Seq<Message<M>>,
    device: PairedDevice<M>,
    labels: Labels,
    label: StatusLabel,
)
    requires
        forall|j: int|
            0 <= j < messages.len() ==> !(#[trigger] messages[j] matches
                Message::SetConnectedDevices(Some(_))),
        status_shown(selection_after(initial_selection(), messages), device, labels, label),
    ensures
        label is Blank,
{
    law_connected_devices_are_unknown_before_a_refresh(messages);
}

/// Until the connected devices were told for the first time, they are not known.
pub proof fn law_connected_devices_are_unknown_before_a_refresh<M>(messages: Seq<Message<M>>)
    requires
        forall|j: int|
            0 <= j < messages.len() ==> !(#[trigger] messages[j] matches
                Message::SetConnectedDevices(Some(_))),
    ensures
        selection_after(initial_selection(), messages).connected is None,
    decreases messages.len(),
{
    if messages.len() > 0 {
        assert(messages[messages.len() - 1] == messages.last());
        law_connected_devices_are_unknown_before_a_refresh(messages.drop_last());
    }
}

/// A demo device never shows a connection.
pub proof fn law_demo_devices_show_no_status<M>(
    state: Selection<M>,
    device: PairedDevice<M>,
    labels: Labels,
    label: StatusLabel,
)
    requires
        device.is_demo,
        status_shown(state, device, labels, label),
    ensures
        label is Blank,
{
}

/// Once a refresh has listed the connected devices, a device that is no demo is shown as connected
/// if and only if its address is in the list, and as not connected otherwise.
pub proof fn law_status_follows_the_refresh<M>(
    state: Selection<M>,
    devices: Seq<ConnectionDescriptor>,
    connected: Option<MacSet>,
    device: PairedDevice<M>,
    labels: Labels,
    label: StatusLabel,
)
    requires
        address_set(connected) == Some(addresses(devices)),
        !device.is_demo,
        status_shown(
            next_selection(state, Message::SetConnectedDevices(connected)),
            device,
            labels,
            label,
        ),
    ensures
        label is Accent <==> exists|i: int|
            0 <= i < devices.len() && #[trigger] devices[i].mac_address.octets@
                == device.mac_address.octets@,
        label is Accent || label is Plain,
{
    let all = devices.map_values(|device: ConnectionDescriptor| device.mac_address.octets@);
    let wanted = device.mac_address.octets@;
    if all.contains(wanted) {
        let i = choose|i: int| 0 <= i < all.len() && all[i] == wanted;
        assert(devices[i].mac_address.octets@ == wanted);
    }
    if exists|i: int|
        0 <= i < devices.len() && #[trigger] devices[i].mac_address.octets@ == wanted {
        let i = choose|i: int|
            0 <= i < devices.len() && #[trigger] devices[i].mac_address.octets@ == wanted;
        assert(all[i] == wanted);
    }
}

/// Once a refresh has listed the connected devices, the row of a device that is no demo reads the
/// text for connected devices, in the accent colour, where its address is in the list, and the text
/// for devices that are not connected where it is not.
pub proof fn law_status_text_follows_the_refresh<M>(
    state: Selection<M>,
    devices: Seq<ConnectionDescriptor>,
    set: MacSet,
    device: PairedDevice<M>,
    labels: Labels,
    label: StatusLabel,
)
    requires
        forall|octets: Seq<u8>| #[trigger]
            set@.contains(octets) <==> exists|i: int|
                #![trigger devices[i]]
                0 <= i < devices.len() && devices[i].mac_address.octets@ == octets,
        !device.is_demo,
        status_shown(
            next_selection(state, Message::SetConnectedDevices(Some(set))),
            device,
            labels,
            label,
        ),
    ensures
        (exists|i: int|
            #![trigger devices[i]]
            0 <= i < devices.len() && devices[i].mac_address.octets@
                == device.mac_address.octets@) ==> (label matches StatusLabel::Accent(text) && text@
            == labels.bluetooth_connected@),
        !(exists|i: int|
            #![trigger devices[i]]
            0 <= i < devices.len() && devices[i].mac_address.octets@
                == device.mac_address.octets@) ==> (label matches StatusLabel::Plain(text) && text@
            == labels.bluetooth_not_connected@),
{
    assert(set@.contains(device.mac_address.octets@) <==> exists|i: int|
        #![trigger devices[i]]
        0 <= i < devices.len() && devices[i].mac_address.octets@ == device.mac_address.octets@);
}

/// After a refresh that failed, no row says anything of a connection.
pub proof fn law_status_is_blank_after_a_failed_refresh<M>(
    state: Selection<M>,
    device: PairedDevice<M>,
    labels: Labels,
    label: StatusLabel,
)
    requires
        status_shown(
            next_selection(state, Message::SetConnectedDevices(None)),
            device,
            labels,
            label,
        ),
    ensures
        label is Blank,
{
}

} // verus!
