//! The RFCOMM services that a device offers, and which of them to connect to.

use crate::bytes::{
    array_from_slice, be_range, be_value, lemma_be_value_bound, lemma_be_value_injective,
    lemma_take_one_more,
};
use crate::connection::ConnectionError;
use std::collections::{HashMap, HashSet};
use uuid::Uuid;
use vstd::prelude::*;

verus! {

/// The number of a service UUID: its sixteen bytes, most significant first.
pub open spec fn uuid_number(bytes: Seq<u8>) -> u128 {
    be_value(bytes) as u128
}

/// The number of a service UUID is what its sixteen bytes write, most significant first, in full.
pub proof fn law_uuid_number_is_big_endian(bytes: Seq<u8>)
    requires
        bytes.len() == 16,
    ensures
        uuid_number(bytes) == be_value(bytes),
{
    lemma_uuid_number_fits(bytes);
}

/// Two service UUIDs have the same number only if they are the same sixteen bytes.
pub proof fn law_uuid_number_identifies(a: Seq<u8>, b: Seq<u8>)
    requires
        a.len() == 16,
        b.len() == 16,
        uuid_number(a) == uuid_number(b),
    ensures
        a == b,
{
    lemma_uuid_number_fits(a);
    lemma_uuid_number_fits(b);
    lemma_be_value_injective(a, b);
}

/// The number of sixteen bytes fits in 128 bits.
proof fn lemma_uuid_number_fits(bytes: Seq<u8>)
    requires
        bytes.len() == 16,
    ensures
        be_value(bytes) <= u128::MAX,
{
    lemma_be_value_bound(bytes);
    reveal_with_fuel(be_range, 17);
}

/// Reads sixteen bytes with `Uuid::from_bytes`, which keeps them as they are, and gives the
/// `Uuid::as_u128` of the result, which is the big-endian number of the bytes.
#[verifier::external_body]
fn read_uuid(bytes: [u8; 16]) -> (number: u128)
    ensures
        number == be_value(bytes@),
{
    Uuid::from_bytes(bytes).as_u128()
}

/// One service, as the shim reports it: its UUID and the RFCOMM channel it is on.
#[derive(Debug, Clone, Copy, PartialEq, Eq)]
pub struct ServiceReport {
    pub uuid: [u8; 16],
    pub channel_id: u8,
}

impl ServiceReport {
    /// The report of a service with the sixteen bytes of `uuid`.
    pub fn new(uuid: &[u8], channel_id: u8) -> (report: ServiceReport)
        requires
            uuid@.len() == 16,
        ensures
            report.uuid@ == uuid@,
            report.channel_id == channel_id,
    {
        ServiceReport { uuid: array_from_slice(uuid), channel_id }
    }
}

/// The channel of each service, after `reports` came in in that order.
pub open spec fn reported(reports: Seq<ServiceReport>) -> Map<u128, u8>
    decreases reports.len(),
{
    if reports.len() == 0 {
        Map::empty()
    } else {
        reported(reports.drop_last()).insert(
            uuid_number(reports.last().uuid@),
            reports.last().channel_id,
        )
    }
}

/// A further report adds its service, or gives it another channel, and leaves all others alone.
pub proof fn law_reports_add_up(reports: Seq<ServiceReport>, report: ServiceReport)
    ensures
        reported(reports.push(report)) == reported(reports).insert(
            uuid_number(report.uuid@),
            report.channel_id,
        ),
{
    assert(reports.push(report).drop_last() =~= reports);
}

/// A service is known after some reports if and only if one of them was about it.
pub proof fn law_known_services_were_reported(reports: Seq<ServiceReport>, number: u128)
    ensures
        reported(reports).contains_key(number) <==> exists|i: int|
            0 <= i < reports.len() && uuid_number(#[trigger] reports[i].uuid@) == number,
    decreases reports.len(),
{
    if reports.len() > 0 {
        let earlier = reports.drop_last();
        law_known_services_were_reported(earlier, number);
        if reported(earlier).contains_key(number) {
            let i = choose|i: int|
                0 <= i < earlier.len() && uuid_number(#[trigger] earlier[i].uuid@) == number;
            assert(uuid_number(reports[i].uuid@) == number);
        }
        if uuid_number(reports.last().uuid@) == number {
            assert(uuid_number(reports[reports.len() - 1].uuid@) == number);
        }
        if exists|i: int|
            0 <= i < reports.len() && uuid_number(#[trigger] reports[i].uuid@) == number {
            let i = choose|i: int|
                0 <= i < reports.len() && uuid_number(#[trigger] reports[i].uuid@) == number;
            if i < earlier.len() {
                assert(uuid_number(earlier[i].uuid@) == number);
            }
        }
    }
}

/// Where several reports are about one service, the last of them gives its channel.
pub proof fn law_last_report_wins(reports: Seq<ServiceReport>, i: int)
    requires
        0 <= i < reports.len(),
        forall|j: int|
            i < j < reports.len() ==> uuid_number(#[trigger] reports[j].uuid@) != uuid_number(
                reports[i].uuid@,
            ),
    ensures
        reported(reports).contains_key(uuid_number(reports[i].uuid@)),
        reported(reports)[uuid_number(reports[i].uuid@)] == reports[i].channel_id,
    decreases reports.len(),
{
    if i < reports.len() - 1 {
        let earlier = reports.drop_last();
        assert forall|j: int| i < j < earlier.len() implies uuid_number(#[trigger] earlier[j].uuid@)
            != uuid_number(earlier[i].uuid@) by {
            assert(earlier[j] == reports[j]);
        }
        law_last_report_wins(earlier, i);
        assert(reports[reports.len() - 1] == reports.last());
    }
}

/// After some reports, the channel of a service is that of the last report with its UUID, whatever
/// else was reported; where no report has its UUID, the device counts as not found.
pub proof fn law_channel_of_a_service_is_the_last_reported(reports: Seq<ServiceReport>, uuid: u128)
    ensures
        forall|i: int|
            #![trigger reports[i]]
            0 <= i < reports.len() && be_value(reports[i].uuid@) == uuid && (forall|j: int|
                #![trigger reports[j]]
                i < j < reports.len() ==> be_value(reports[j].uuid@) != uuid) ==> channel_in(
            reported(reports),
            uuid,
        ) == Ok::<u8, ConnectionError>(reports[i].channel_id),
        (forall|i: int|
            #![trigger reports[i]]
            0 <= i < reports.len() ==> be_value(reports[i].uuid@) != uuid) ==> channel_in(
            reported(reports),
            uuid,
        ) == Err::<u8, ConnectionError>(ConnectionError::DeviceNotFound),
{
    assert forall|i: int| 0 <= i < reports.len() implies uuid_number(#[trigger] reports[i].uuid@)
        == be_value(reports[i].uuid@) by {
        lemma_uuid_number_fits(reports[i].uuid@);
    }
    law_known_services_were_reported(reports, uuid);
    assert forall|i: int|
        #![trigger reports[i]]
        0 <= i < reports.len() && be_value(reports[i].uuid@) == uuid && (forall|j: int|
            #![trigger reports[j]]
            i < j < reports.len() ==> be_value(reports[j].uuid@) != uuid) implies channel_in(
        reported(reports),
        uuid,
    ) == Ok::<u8, ConnectionError>(reports[i].channel_id) by {
        assert(uuid_number(reports[i].uuid@) == uuid);
        assert forall|j: int| i < j < reports.len() implies uuid_number(
            #[trigger] reports[j].uuid@,
        ) != uuid_number(reports[i].uuid@) by {
            assert(be_value(reports[j].uuid@) != uuid);
        }
        law_last_report_wins(reports, i);
    }
}

/// The services on offer after some reports are exactly those that a report has the UUID of.
pub proof fn law_offered_services_are_those_reported(reports: Seq<ServiceReport>, uuid: u128)
    ensures
        reported(reports).dom().contains(uuid) <==> exists|i: int|
            #![trigger reports[i]]
            0 <= i < reports.len() && be_value(reports[i].uuid@) == uuid,
{
    assert forall|i: int| 0 <= i < reports.len() implies uuid_number(#[trigger] reports[i].uuid@)
        == be_value(reports[i].uuid@) by {
        lemma_uuid_number_fits(reports[i].uuid@);
    }
    law_known_services_were_reported(reports, uuid);
    if exists|i: int|
        #![trigger reports[i]]
        0 <= i < reports.len() && be_value(reports[i].uuid@) == uuid {
        let i = choose|i: int|
            #![trigger reports[i]]
            0 <= i < reports.len() && be_value(reports[i].uuid@) == uuid;
        assert(uuid_number(reports[i].uuid@) == uuid);
    }
}

/// A constant strategy chooses its service and no other, whatever is on offer.
pub proof fn law_constant_strategy_ignores_the_offer<F: Fn(HashSet<u128>) -> u128>(
    constant: u128,
    offered: Set<u128>,
    uuid: u128,
)
    ensures
        may_choose(RfcommServiceSelectionStrategy::<F>::Constant(constant), offered, uuid) <==> uuid
            == constant,
        can_choose(RfcommServiceSelectionStrategy::<F>::Constant(constant), offered),
{
}

/// A dynamic strategy chooses what its function answers when it is handed exactly the services on
/// offer.
pub proof fn law_dynamic_strategy_asks_its_function<F: Fn(HashSet<u128>) -> u128>(
    select_service: F,
    offered: Set<u128>,
    uuid: u128,
)
    requires
        may_choose(RfcommServiceSelectionStrategy::Dynamic(select_service), offered, uuid),
    ensures
        exists|uuids: HashSet<u128>|
            uuids@ == offered && #[trigger] call_ensures(select_service, (uuids,), uuid),
{
    let strategy = RfcommServiceSelectionStrategy::Dynamic(select_service);
    assert(may_choose(strategy, offered, uuid));
    let uuids = choose|uuids: HashSet<u128>|
        uuids@ == offered && #[trigger] call_ensures(select_service, (uuids,), uuid);
    assert(uuids@ == offered && call_ensures(select_service, (uuids,), uuid));
}

/// The RFCOMM channel of each service that a device offers.
#[derive(Debug)]
pub struct RfcommServices {
    channels: HashMap<u128, u8>,
}

impl View for RfcommServices {
    type V = Map<u128, u8>;

    closed spec fn view(&self) -> Map<u128, u8> {
        self.channels@
    }
}

impl RfcommServices {
    /// No services.
    pub fn new() -> (services: RfcommServices)
        ensures
            services@ == Map::<u128, u8>::empty(),
    {
        RfcommServices { channels: HashMap::new() }
    }

    /// Takes down a service that the shim reports. An earlier report about the same service is
    /// overridden.
    pub fn on_service(&mut self, report: &ServiceReport)
        ensures
            final(self)@ == old(self)@.insert(uuid_number(report.uuid@), report.channel_id),
            final(self)@ == old(self)@.insert(be_value(report.uuid@) as u128, report.channel_id),
    {
        broadcast use vstd::std_specs::hash::group_hash_axioms;

        self.channels.insert(read_uuid(report.uuid), report.channel_id);
    }

    /// Takes down services in the order in which the shim reports them.
    pub fn from_reports(reports: &Vec<ServiceReport>) -> (services: RfcommServices)
        ensures
            services@ == reported(reports@),
            forall|number: u128| #[trigger]
                services@.contains_key(number) <==> exists|i: int|
                    #![trigger reports@[i]]
                    0 <= i < reports@.len() && be_value(reports@[i].uuid@) == number,
            forall|i: int|
                #![trigger reports@[i]]
                0 <= i < reports@.len() && (forall|j: int|
                    #![trigger reports@[j]]
                    i < j < reports@.len() ==> be_value(reports@[j].uuid@) != be_value(
                        reports@[i].uuid@,
                    )) ==> services@[be_value(reports@[i].uuid@) as u128] == reports@[i].channel_id,
    {
        let mut services = RfcommServices::new();
        let mut i: usize = 0;
        while i < reports.len()
            invariant
                i <= reports@.len(),
                services@ == reported(reports@.take(i as int)),
            decreases reports@.len() - i,
        {
            services.on_service(&reports[i]);
            i = i + 1;
            assert(reports@.take(i as int).drop_last() =~= reports@.take(i as int - 1));
        }
        assert(reports@.take(i as int) =~= reports@);
        proof {
            assert forall|number: u128| #[trigger]
                services@.contains_key(number) <==> exists|i: int|
                    #![trigger reports@[i]]
                    0 <= i < reports@.len() && be_value(reports@[i].uuid@) == number by {
                law_offered_services_are_those_reported(reports@, number);
            }
            assert forall|i: int|
                #![trigger reports@[i]]
                0 <= i < reports@.len() && (forall|j: int|
                    #![trigger reports@[j]]
                    i < j < reports@.len() ==> be_value(reports@[j].uuid@) != be_value(
                        reports@[i].uuid@,
                    )) implies services@[be_value(reports@[i].uuid@) as u128]
                == reports@[i].channel_id by {
                let uuid = be_value(reports@[i].uuid@) as u128;
                lemma_uuid_number_fits(reports@[i].uuid@);
                law_channel_of_a_service_is_the_last_reported(reports@, uuid);
            }
        }
        services
    }

    /// The numbers of the services on offer.
    pub fn uuids(&self) -> (uuids: HashSet<u128>)
        ensures
            uuids@ == self@.dom(),
    {
        broadcast use vstd::std_specs::hash::group_hash_axioms;

        let mut uuids: HashSet<u128> = HashSet::new();
        for uuid in iter: self.channels.keys()
            invariant
                uuids@ == iter.seq().unref().take(iter.index()).to_set(),
                iter.seq().unref().take(iter.seq().len() as int) == iter.seq().unref(),
                iter.seq().unref().to_set() == self.channels@.dom(),
        {
            uuids.insert(*uuid);
            proof {
                lemma_take_one_more(iter.seq().unref(), iter.index());
            }
        }
        uuids
    }

    /// The channel of one service. A device that does not offer it counts as not found.
    pub fn channel_of(&self, uuid: u128) -> (channel: Result<u8, ConnectionError>)
        ensures
            channel == channel_in(self@, uuid),
            self@.contains_key(uuid) ==> channel == Ok::<u8, ConnectionError>(self@[uuid]),
            !self@.contains_key(uuid) ==> channel == Err::<u8, ConnectionError>(
                ConnectionError::DeviceNotFound,
            ),
    {
        broadcast use vstd::std_specs::hash::group_hash_axioms;

        match self.channels.get(&uuid) {
            Some(channel_id) => Ok(*channel_id),
            None => Err(ConnectionError::DeviceNotFound),
        }
    }
}

/// The channel that a service is on.
pub open spec fn channel_in(services: Map<u128, u8>, uuid: u128) -> Result<u8, ConnectionError> {
    if services.contains_key(uuid) {
        Ok(services[uuid])
    } else {
        Err(ConnectionError::DeviceNotFound)
    }
}

/// How to choose among the services that a device offers.
pub enum RfcommServiceSelectionStrategy<F> {
    /// Always this service.
    Constant(u128),
    /// The service that a function picks out of those on offer.
    Dynamic(F),
}

/// Whether `strategy` may choose `uuid` where `offered` are on offer.
pub open spec fn may_choose<F: Fn(HashSet<u128>) -> u128>(
    strategy: RfcommServiceSelectionStrategy<F>,
    offered: Set<u128>,
    uuid: u128,
) -> bool {
    match strategy {
        RfcommServiceSelectionStrategy::Constant(constant) => uuid == constant,
        RfcommServiceSelectionStrategy::Dynamic(select_service) => exists|uuids: HashSet<u128>|
            uuids@ == offered && #[trigger] call_ensures(select_service, (uuids,), uuid),
    }
}

/// Whether `strategy` can be asked to choose where `offered` are on offer.
pub open spec fn can_choose<F: Fn(HashSet<u128>) -> u128>(
    strategy: RfcommServiceSelectionStrategy<F>,
    offered: Set<u128>,
) -> bool {
    strategy matches RfcommServiceSelectionStrategy::Dynamic(select_service)
        ==> forall|uuids: HashSet<u128>|
        uuids@ == offered ==> #[trigger] call_requires(select_service, (uuids,))
}

impl<F: Fn(HashSet<u128>) -> u128> RfcommServiceSelectionStrategy<F> {
    /// Chooses a service, which need not be one of those on offer.
    pub fn choose_service(&self, services: &RfcommServices) -> (uuid: u128)
        requires
            can_choose(*self, services@.dom()),
        ensures
            may_choose(*self, services@.dom(), uuid),
            *self matches RfcommServiceSelectionStrategy::Constant(constant) ==> uuid == constant,
            *self matches RfcommServiceSelectionStrategy::Dynamic(select_service) ==> exists|
                uuids: HashSet<u128>,
            |
                uuids@ == services@.dom() && #[trigger] call_ensures(
                    select_service,
                    (uuids,),
                    uuid,
                ),
    {
        match self {
            RfcommServiceSelectionStrategy::Constant(uuid) => *uuid,
            RfcommServiceSelectionStrategy::Dynamic(select_service) => {
                select_service(services.uuids())
            },
        }
    }
}

} // verus!
