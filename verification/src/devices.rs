//! The devices that are connected to the Bluetooth adapter.

use crate::bytes::{lemma_be_value_injective, lemma_take_one_more};
use crate::mac_address::MacAddress;
use crate::text::{read_utf8_lossy, utf8_lossy};
use vstd::prelude::*;
use vstd::slice::slice_to_vec;
use vstd::utf8::{decode_utf8, valid_utf8};

verus! {

/// A device that can be connected to.
#[derive(Debug, Clone, PartialEq, Eq, Hash)]
pub struct ConnectionDescriptor {
    pub name: String,
    pub mac_address: MacAddress,
}

impl View for ConnectionDescriptor {
    type V = (Seq<char>, Seq<u8>);

    /// The name and the octets of the address.
    open spec fn view(&self) -> (Seq<char>, Seq<u8>) {
        (self.name@, self.mac_address.octets@)
    }
}

/// One device, as the shim reports it: the bytes of its name and its address.
#[derive(Debug, PartialEq, Eq)]
pub struct DeviceReport {
    pub name: Vec<u8>,
    pub mac_address: MacAddress,
}

impl DeviceReport {
    /// The report of a device with the six bytes of `mac` as its address.
    pub fn new(name: &[u8], mac: &[u8]) -> (report: DeviceReport)
        requires
            mac@.len() == 6,
        ensures
            report.name@ == name@,
            report.mac_address.octets@ == mac@,
    {
        DeviceReport { name: slice_to_vec(name), mac_address: MacAddress::from_bytes(mac) }
    }
}

/// The device that a report is about. Bytes of a name that are not valid UTF-8 are replaced.
pub open spec fn reported_device(report: DeviceReport) -> (Seq<char>, Seq<u8>) {
    (utf8_lossy(report.name@), report.mac_address.octets@)
}

/// The devices that some reports are about.
pub open spec fn reported_devices(reports: Seq<DeviceReport>) -> Set<(Seq<char>, Seq<u8>)> {
    reports.map_values(|report: DeviceReport| reported_device(report)).to_set()
}

/// A device is among those reported if and only if one of the reports, whichever it is, has its
/// name and its address.
pub proof fn law_listed_devices_are_those_reported(
    reports: Seq<DeviceReport>,
    name: Seq<char>,
    octets: Seq<u8>,
)
    ensures
        reported_devices(reports).contains((name, octets)) <==> exists|i: int|
            #![trigger reports[i]]
            0 <= i < reports.len() && name == utf8_lossy(reports[i].name@) && octets
                == reports[i].mac_address.octets@,
{
    let all = reports.map_values(|report: DeviceReport| reported_device(report));
    if all.contains((name, octets)) {
        let i = choose|i: int| 0 <= i < all.len() && all[i] == (name, octets);
        assert(reported_device(reports[i]) == (name, octets));
    }
    if exists|i: int|
        #![trigger reports[i]]
        0 <= i < reports.len() && name == utf8_lossy(reports[i].name@) && octets
            == reports[i].mac_address.octets@ {
        let i = choose|i: int|
            #![trigger reports[i]]
            0 <= i < reports.len() && name == utf8_lossy(reports[i].name@) && octets
                == reports[i].mac_address.octets@;
        assert(all[i] == (name, octets));
    }
}

/// A further report adds exactly the device that it is about.
pub proof fn law_further_report_adds_its_device(reports: Seq<DeviceReport>, report: DeviceReport)
    ensures
        reported_devices(reports.push(report)) == reported_devices(reports).insert(
            (utf8_lossy(report.name@), report.mac_address.octets@),
        ),
        reported_devices(Seq::<DeviceReport>::empty()) == Set::<(Seq<char>, Seq<u8>)>::empty(),
{
    let longer = reports.push(report);
    let all = longer.map_values(|report: DeviceReport| reported_device(report));
    let n = reports.len() as int;
    lemma_take_one_more(all, n);
    assert(all.take(n) =~= reports.map_values(|report: DeviceReport| reported_device(report)));
    assert(all.take(n + 1) =~= all);
    assert(reported_devices(Seq::<DeviceReport>::empty()) =~= Set::<
        (Seq<char>, Seq<u8>),
    >::empty());
}

/// Names that are valid UTF-8 are read as the text that they encode.
pub open spec fn names_decoded(reports: Seq<DeviceReport>) -> bool {
    forall|i: int|
        0 <= i < reports.len() && valid_utf8(reports[i].name@) ==> reported_device(
            #[trigger] reports[i],
        ) == (decode_utf8(reports[i].name@), reports[i].mac_address.octets@)
}

/// A set of devices. Two devices are the same where both name and address are the same.
#[derive(Debug)]
pub struct DeviceSet {
    devices: Vec<ConnectionDescriptor>,
}

/// The names and addresses of some devices.
pub open spec fn descriptors(devices: Seq<ConnectionDescriptor>) -> Seq<(Seq<char>, Seq<u8>)> {
    devices.map_values(|device: ConnectionDescriptor| device@)
}

impl View for DeviceSet {
    type V = Set<(Seq<char>, Seq<u8>)>;

    closed spec fn view(&self) -> Set<(Seq<char>, Seq<u8>)> {
        descriptors(self.devices@).to_set()
    }
}

impl DeviceSet {
    /// No device is in the set twice.
    pub closed spec fn wf(&self) -> bool {
        descriptors(self.devices@).no_duplicates()
    }

    /// The empty set.
    pub fn new() -> (set: DeviceSet)
        ensures
            set.wf(),
            set@ == Set::<(Seq<char>, Seq<u8>)>::empty(),
    {
        let set = DeviceSet { devices: Vec::new() };
        assert(set@ =~= Set::<(Seq<char>, Seq<u8>)>::empty());
        set
    }

    /// Whether a device is in the set.
    pub fn contains(&self, descriptor: &ConnectionDescriptor) -> (found: bool)
        ensures
            found == self@.contains(descriptor@),
            found == self@.contains((descriptor.name@, descriptor.mac_address.octets@)),
    {
        let ghost all = descriptors(self.devices@);
        let mut i: usize = 0;
        while i < self.devices.len()
            invariant
                i <= self.devices@.len(),
                all == descriptors(self.devices@),
                forall|j: int| 0 <= j < i ==> #[trigger] all[j] != descriptor@,
            decreases self.devices@.len() - i,
        {
            let device = &self.devices[i];
            let same_address = device.mac_address.key() == descriptor.mac_address.key();
            proof {
                assert(all[i as int] == device@);
                if same_address {
                    lemma_be_value_injective(
                        device.mac_address.octets@,
                        descriptor.mac_address.octets@,
                    );
                }
            }
            if same_address && device.name == descriptor.name {
                assert(all.contains(descriptor@));
                return true;
            }
            i = i + 1;
        }
        false
    }

    /// Puts a device into the set.
    pub fn insert(&mut self, descriptor: ConnectionDescriptor)
        requires
            old(self).wf(),
        ensures
            final(self).wf(),
            final(self)@ == old(self)@.insert(descriptor@),
            final(self)@ == old(self)@.insert(
                (descriptor.name@, descriptor.mac_address.octets@),
            ),
    {
        if self.contains(&descriptor) {
            assert(self@ =~= old(self)@.insert(descriptor@));
        } else {
            self.devices.push(descriptor);
            proof {
                let before = descriptors(old(self).devices@);
                let after = descriptors(self.devices@);
                assert(after =~= before.push(descriptor@));
                assert(after.take(before.len() as int) =~= before);
                assert(after.take(after.len() as int) =~= after);
                lemma_take_one_more(after, before.len() as int);
            }
        }
    }

    /// Takes down a device that the shim reports.
    pub fn on_device(&mut self, report: &DeviceReport)
        requires
            old(self).wf(),
        ensures
            final(self).wf(),
            final(self)@ == old(self)@.insert(reported_device(*report)),
            final(self)@ == old(self)@.insert(
                (utf8_lossy(report.name@), report.mac_address.octets@),
            ),
            valid_utf8(report.name@) ==> reported_device(*report) == (
                decode_utf8(report.name@),
                report.mac_address.octets@,
            ),
    {
        let name = read_utf8_lossy(report.name.as_slice());
        self.insert(ConnectionDescriptor { name, mac_address: report.mac_address });
    }

    /// Takes down all devices that the shim reports.
    pub fn from_reports(reports: &Vec<DeviceReport>) -> (set: DeviceSet)
        ensures
            set.wf(),
            set@ == reported_devices(reports@),
            names_decoded(reports@),
            forall|name: Seq<char>, octets: Seq<u8>| #[trigger]
                set@.contains((name, octets)) <==> exists|i: int|
                    #![trigger reports@[i]]
                    0 <= i < reports@.len() && name == utf8_lossy(reports@[i].name@) && octets
                        == reports@[i].mac_address.octets@,
            forall|i: int|
                #![trigger reports@[i]]
                0 <= i < reports@.len() && valid_utf8(reports@[i].name@) ==> set@.contains(
                    (decode_utf8(reports@[i].name@), reports@[i].mac_address.octets@),
                ),
    {
        let ghost all = reports@.map_values(|report: DeviceReport| reported_device(report));
        let mut set = DeviceSet::new();
        let mut i: usize = 0;
        assert(set@ =~= all.take(0).to_set());
        while i < reports.len()
            invariant
                i <= reports@.len(),
                set.wf(),
                all == reports@.map_values(|report: DeviceReport| reported_device(report)),
                set@ == all.take(i as int).to_set(),
                names_decoded(reports@.take(i as int)),
            decreases reports@.len() - i,
        {
            set.on_device(&reports[i]);
            proof {
                lemma_take_one_more(all, i as int);
            }
            i = i + 1;
        }
        assert(all.take(i as int) =~= all);
        assert(reports@.take(i as int) =~= reports@);
        proof {
            assert forall|name: Seq<char>, octets: Seq<u8>| #[trigger]
                set@.contains((name, octets)) <==> exists|i: int|
                    #![trigger reports@[i]]
                    0 <= i < reports@.len() && name == utf8_lossy(reports@[i].name@) && octets
                        == reports@[i].mac_address.octets@ by {
                law_listed_devices_are_those_reported(reports@, name, octets);
            }
            assert forall|i: int|
                #![trigger reports@[i]]
                0 <= i < reports@.len() && valid_utf8(reports@[i].name@) implies set@.contains(
                (decode_utf8(reports@[i].name@), reports@[i].mac_address.octets@),
            ) by {
                assert(set@.contains(
                    (utf8_lossy(reports@[i].name@), reports@[i].mac_address.octets@),
                ));
            }
        }
        set
    }

    /// The devices, each of them once.
    pub fn into_vec(self) -> (devices: Vec<ConnectionDescriptor>)
        requires
            self.wf(),
        ensures
            descriptors(devices@).no_duplicates(),
            descriptors(devices@).to_set() == self@,
            forall|i: int, j: int|
                #![trigger devices@[i], devices@[j]]
                0 <= i < j < devices@.len() ==> (devices@[i].name@ != devices@[j].name@
                    || devices@[i].mac_address.octets@ != devices@[j].mac_address.octets@),
            forall|name: Seq<char>, octets: Seq<u8>| #[trigger]
                self@.contains((name, octets)) <==> exists|i: int|
                    #![trigger devices@[i]]
                    0 <= i < devices@.len() && name == devices@[i].name@ && octets
                        == devices@[i].mac_address.octets@,
    {
        proof {
            let all = descriptors(self.devices@);
            assert forall|i: int, j: int|
                #![trigger self.devices@[i], self.devices@[j]]
                0 <= i < j < self.devices@.len() implies (self.devices@[i].name@
                != self.devices@[j].name@ || self.devices@[i].mac_address.octets@
                != self.devices@[j].mac_address.octets@) by {
                assert(all[i] != all[j]);
            }
            assert forall|name: Seq<char>, octets: Seq<u8>| #[trigger]
                self@.contains((name, octets)) <==> exists|i: int|
                    #![trigger self.devices@[i]]
                    0 <= i < self.devices@.len() && name == self.devices@[i].name@ && octets
                        == self.devices@[i].mac_address.octets@ by {
                if all.contains((name, octets)) {
                    let i = choose|i: int| 0 <= i < all.len() && all[i] == (name, octets);
                    assert(self.devices@[i]@ == (name, octets));
                }
                if exists|i: int|
                    #![trigger self.devices@[i]]
                    0 <= i < self.devices@.len() && name == self.devices@[i].name@ && octets
                        == self.devices@[i].mac_address.octets@ {
                    let i = choose|i: int|
                        #![trigger self.devices@[i]]
                        0 <= i < self.devices@.len() && name == self.devices@[i].name@ && octets
                            == self.devices@[i].mac_address.octets@;
                    assert(all[i] == (name, octets));
                }
            }
        }
        self.devices
    }
}

} // verus!
