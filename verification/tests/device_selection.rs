use openscq30::{
    Action, ConnectionDescriptor, DeviceSelectionModel, Labels, MacAddress, MacSet, Message,
    PairedDevice, Refresh, StatusLabel,
};

const Q30: PairedDevice<&str> = PairedDevice {
    mac_address: MacAddress { octets: [0xAB, 0x0D, 0xEF, 0x12, 0x34, 0x56] },
    model: "SoundcoreA3028",
    is_demo: false,
};
const LIBERTY: PairedDevice<&str> = PairedDevice {
    mac_address: MacAddress { octets: [0, 1, 2, 3, 4, 5] },
    model: "SoundcoreA3951",
    is_demo: false,
};
const DEMO: PairedDevice<&str> = PairedDevice {
    mac_address: MacAddress { octets: [0xAB, 0x0D, 0xEF, 0x12, 0x34, 0x56] },
    model: "SoundcoreA3004",
    is_demo: true,
};

type Model = DeviceSelectionModel<&'static str>;

fn labels() -> Labels {
    Labels {
        select_device: "Select device".into(),
        add_device: "Add device".into(),
        demo_mode: "Demo mode \u{e9}\u{df}".into(),
        remove: "Remove".into(),
        connect: "Connect".into(),
        bluetooth_connected: "Connected".into(),
        bluetooth_not_connected: "Not connected".into(),
    }
}

fn descriptor(name: &str, mac_address: MacAddress) -> ConnectionDescriptor {
    ConnectionDescriptor { name: name.into(), mac_address }
}

fn model_with(devices: Vec<PairedDevice<&'static str>>) -> Model {
    let (mut model, _) = Model::new();
    assert_eq!(model.update(Message::SetPairedDevices(devices)), Action::Nothing);
    model
}

fn listed(devices: Vec<ConnectionDescriptor>) -> Message<&'static str> {
    Model::refresh_connected_devices(Ok::<_, String>(devices))
}

fn statuses(model: &Model) -> Vec<StatusLabel> {
    model.items(&labels()).into_iter().map(|row| row.status).collect()
}

fn connected() -> StatusLabel {
    StatusLabel::Accent("Connected".into())
}

fn not_connected() -> StatusLabel {
    StatusLabel::Plain("Not connected".into())
}

#[test]
fn starts_empty_and_asks_for_both_refreshes() {
    let (model, refreshes) = Model::new();
    assert_eq!(refreshes, vec![Refresh::PairedDevices, Refresh::ConnectedDevices]);
    assert!(model.items(&labels()).is_empty());
    assert_eq!(model.connection_status(&Q30, &labels()), StatusLabel::Blank);
}

#[test]
fn view_has_title_button_and_rows() {
    let view = model_with(vec![Q30, DEMO]).view(&labels());
    assert_eq!(view.title, "Select device");
    assert_eq!(view.add_label, "Add device");
    assert!(matches!(view.on_add, Message::AddDevice));
    assert_eq!(view.rows.len(), 2);
    assert_eq!(view.rows[0].model, "SoundcoreA3028");
    assert_eq!(view.rows[0].mac_address, "AB:0D:EF:12:34:56");
    assert_eq!(view.rows[0].demo_label, None);
    assert_eq!(view.rows[0].remove_label, "Remove");
    assert_eq!(view.rows[0].connect_label, "Connect");
    assert_eq!(view.rows[1].model, "SoundcoreA3004");
    assert_eq!(view.rows[1].demo_label.as_deref(), Some("DEMO MODE \u{c9}SS"));
}

#[test]
fn given_mark_is_shown_on_demo_devices_only() {
    let rows = model_with(vec![DEMO, LIBERTY]).items_marked(&labels(), &"demo".to_string());
    assert_eq!(rows[0].demo_label.as_deref(), Some("demo"));
    assert_eq!(rows[1].demo_label, None);
    assert_eq!(rows[1].mac_address, "00:01:02:03:04:05");
}

#[test]
fn buttons_act_on_the_device_of_their_row() {
    let devices = [Q30, LIBERTY, DEMO];
    let mut model = model_with(devices.to_vec());
    for (index, row) in model.items(&labels()).into_iter().enumerate() {
        assert!(model.accepts(&row.on_connect));
        assert_eq!(model.update(row.on_connect), Action::ConnectToDevice(devices[index]));
        assert!(model.accepts(&row.on_remove));
        assert_eq!(model.update(row.on_remove), Action::RemoveDevice(devices[index]));
    }
    assert_eq!(model.items(&labels()).len(), 3);
}

#[test]
fn messages_about_missing_rows_are_not_accepted() {
    let model = model_with(vec![Q30]);
    assert!(model.accepts(&Message::ConnectToDevice(0)));
    assert!(!model.accepts(&Message::ConnectToDevice(1)));
    assert!(!model.accepts(&Message::RemoveDevice(usize::MAX)));
    assert!(model.accepts(&Message::AddDevice));
}

#[test]
fn other_messages_ask_or_tell() {
    let mut model = model_with(vec![Q30]);
    assert_eq!(model.update(Message::AddDevice), Action::AddDevice);
    assert_eq!(model.update(Message::Warning("oh".into())), Action::Warning("oh".into()));
    assert_eq!(model.update(Message::SetConnectedDevices(None)), Action::Nothing);
    assert_eq!(model.update(Message::SetPairedDevices(vec![])), Action::Nothing);
    assert!(model.items(&labels()).is_empty());
}

#[test]
fn status_is_blank_until_a_refresh_succeeds() {
    let mut model = model_with(vec![Q30, LIBERTY]);
    assert_eq!(statuses(&model), vec![StatusLabel::Blank, StatusLabel::Blank]);
    let failed = Model::refresh_connected_devices(Err("Bluetooth is off"));
    let _ = model.update(failed);
    assert_eq!(statuses(&model), vec![StatusLabel::Blank, StatusLabel::Blank]);
    let _ = model.update(listed(vec![]));
    assert_eq!(statuses(&model), vec![not_connected(), not_connected()]);
}

#[test]
fn status_follows_the_last_refresh() {
    let mut model = model_with(vec![Q30, LIBERTY, DEMO]);
    let _ = model.update(listed(vec![
        descriptor("a", Q30.mac_address),
        descriptor("b", Q30.mac_address),
    ]));
    assert_eq!(statuses(&model), vec![connected(), not_connected(), StatusLabel::Blank]);
    let _ = model.update(listed(vec![descriptor("c", LIBERTY.mac_address)]));
    assert_eq!(statuses(&model), vec![not_connected(), connected(), StatusLabel::Blank]);
    let _ = model.update(Model::refresh_connected_devices(Err(())));
    assert_eq!(statuses(&model), vec![StatusLabel::Blank, StatusLabel::Blank, StatusLabel::Blank]);
}

#[test]
fn refreshes_do_not_disturb_each_other() {
    let (mut first, _) = Model::new();
    let _ = first.update(Message::SetPairedDevices(vec![Q30]));
    let _ = first.update(listed(vec![descriptor("a", Q30.mac_address)]));
    let (mut second, _) = Model::new();
    let _ = second.update(listed(vec![descriptor("a", Q30.mac_address)]));
    let _ = second.update(Message::SetPairedDevices(vec![Q30]));
    assert_eq!(statuses(&first), vec![connected()]);
    assert_eq!(statuses(&second), vec![connected()]);
}

#[test]
fn paired_devices_are_those_told_last() {
    let mut model = model_with(vec![Q30, LIBERTY]);
    let _ = model.update(Message::SetPairedDevices(vec![LIBERTY]));
    let rows = model.items(&labels());
    assert_eq!(rows.len(), 1);
    assert_eq!(rows[0].model, LIBERTY.model);
}

#[test]
fn refresh_of_paired_devices_gives_devices_or_a_warning() {
    match Model::refresh_paired_devices(Ok(vec![Q30, DEMO])) {
        Message::SetPairedDevices(devices) => assert_eq!(devices, vec![Q30, DEMO]),
        other => panic!("{other:?}"),
    }
    match Model::refresh_paired_devices(Err("database is locked".into())) {
        Message::Warning(text) => assert_eq!(text, "database is locked"),
        other => panic!("{other:?}"),
    }
}

#[test]
fn addresses_are_told_apart_by_every_octet() {
    let mut set = MacSet::new();
    set.insert(LIBERTY.mac_address);
    let copy = set.clone();
    set.insert(Q30.mac_address);
    assert!(set.contains(&LIBERTY.mac_address) && set.contains(&Q30.mac_address));
    assert!(copy.contains(&LIBERTY.mac_address) && !copy.contains(&Q30.mac_address));
    for i in 0..6 {
        let mut octets = LIBERTY.mac_address.octets;
        octets[i] ^= 0x80;
        assert!(!set.contains(&MacAddress { octets }));
    }
}

#[test]
fn address_as_text_and_number() {
    let mac = MacAddress::from_bytes(&[0xAB, 0x0D, 0xEF, 0x12, 0x34, 0x56]);
    assert_eq!(mac, Q30.mac_address);
    assert_eq!(mac.to_string(), "AB:0D:EF:12:34:56");
    assert_eq!(mac.key(), 0xAB0D_EF12_3456);
    let broadcast = MacAddress { octets: [0xFF; 6] };
    assert_eq!(broadcast.to_string(), "FF:FF:FF:FF:FF:FF");
    assert_eq!(broadcast.key(), 0xFFFF_FFFF_FFFF);
}
