//! RFCOMM connections through the IOBluetooth shim.
//!
//! The shim is called elsewhere. What is decided here is what to ask of it and what its answers
//! mean.

use crate::bytes::be_value;
use crate::channels::{
    accepted_packets, copy_status_receiver, offer_packet, offered_packets, packet_limit,
    packet_queue, packets_out, packets_reach, packets_read, publish_status, published_statuses,
    queue_answers, status_channel, status_reaches, PacketSender, SendOutcome, StatusSender,
};
use crate::connection::{failure, ConnectionError, ConnectionStatus, IOBluetoothError, OK};
use crate::devices::{names_decoded, reported_devices, DeviceReport, DeviceSet};
use crate::mac_address::MacAddress;
use crate::services::{
    can_choose, channel_in, law_channel_of_a_service_is_the_last_reported,
    law_offered_services_are_those_reported, may_choose, reported, RfcommServiceSelectionStrategy,
    RfcommServices, ServiceReport,
};
use crate::text::utf8_lossy;
use std::collections::HashSet;
use tokio::sync::{mpsc, watch};
use vstd::prelude::*;
use vstd::slice::slice_to_vec;
use vstd::utf8::{decode_utf8, valid_utf8};

verus! {

/// The number of inbound packets that wait for a slow reader before further ones are dropped.
pub const PACKET_QUEUE_LIMIT: usize = 100;

/// Finds devices and connects to them.
#[derive(Debug, Clone, Copy)]
pub struct IOBluetoothRfcommBackend;

impl Default for IOBluetoothRfcommBackend {
    fn default() -> (backend: IOBluetoothRfcommBackend)
        ensures
            backend == IOBluetoothRfcommBackend,
    {
        IOBluetoothRfcommBackend
    }
}

/// What the shim has to be asked in order to open a channel.
#[derive(Debug, Clone, Copy, PartialEq, Eq)]
pub struct OpenRequest {
    pub mac_address: MacAddress,
    pub channel_id: u8,
}

/// The request to open the channel that was found, if one was.
pub open spec fn request_for(
    mac_address: MacAddress,
    channel: Result<u8, ConnectionError>,
) -> Result<OpenRequest, ConnectionError> {
    match channel {
        Ok(channel_id) => Ok(OpenRequest { mac_address, channel_id }),
        Err(error) => Err(error),
    }
}

impl IOBluetoothRfcommBackend {
    /// The connected devices, out of what the shim reported while it listed them.
    pub fn devices(&self, reports: &Vec<DeviceReport>) -> (devices: Result<
        DeviceSet,
        ConnectionError,
    >)
        ensures
            devices matches Ok(set) && set.wf() && set@ == reported_devices(reports@),
            devices matches Ok(set) && (forall|name: Seq<char>, octets: Seq<u8>| #[trigger]
                set@.contains((name, octets)) <==> exists|i: int|
                    #![trigger reports@[i]]
                    0 <= i < reports@.len() && name == utf8_lossy(reports@[i].name@) && octets
                        == reports@[i].mac_address.octets@),
            devices matches Ok(set) && (forall|i: int|
                #![trigger reports@[i]]
                0 <= i < reports@.len() && valid_utf8(reports@[i].name@) ==> set@.contains(
                    (decode_utf8(reports@[i].name@), reports@[i].mac_address.octets@),
                )),
            names_decoded(reports@),
    {
        Ok(DeviceSet::from_reports(reports))
    }

    /// The services of a device, out of the code with which the shim ended the listing and what it
    /// reported meanwhile.
    pub fn rfcomm_services(result: i32, reports: &Vec<ServiceReport>) -> (services: Result<
        RfcommServices,
        ConnectionError,
    >)
        ensures
            result == OK ==> (services matches Ok(known) && known@ == reported(reports@)),
            result != OK ==> services == Err::<RfcommServices, ConnectionError>(failure(result)),
            result == 0 <==> services is Ok,
            services matches Ok(known) ==> (forall|number: u128| #[trigger]
                known@.contains_key(number) <==> exists|i: int|
                    #![trigger reports@[i]]
                    0 <= i < reports@.len() && be_value(reports@[i].uuid@) == number),
            services matches Ok(known) ==> (forall|i: int|
                #![trigger reports@[i]]
                0 <= i < reports@.len() && (forall|j: int|
                    #![trigger reports@[j]]
                    i < j < reports@.len() ==> be_value(reports@[j].uuid@) != be_value(
                        reports@[i].uuid@,
                    )) ==> known@[be_value(reports@[i].uuid@) as u128] == reports@[i].channel_id),
            result == 1 ==> services == Err::<RfcommServices, ConnectionError>(
                ConnectionError::DeviceNotFound,
            ),
            result != 0 && result != 1 ==> services == Err::<RfcommServices, ConnectionError>(
                ConnectionError::Other { source: IOBluetoothError { code: result } },
            ),
    {
        if result == OK {
            Ok(RfcommServices::from_reports(reports))
        } else {
            Err(ConnectionError::from_code(result))
        }
    }

    /// What to open on the device, out of how the shim listed its services. The listing must have
    /// succeeded, and the chosen service must be one that was reported.
    pub fn connect<F: Fn(HashSet<u128>) -> u128>(
        &self,
        mac_address: MacAddress,
        service_selection_strategy: RfcommServiceSelectionStrategy<F>,
        result: i32,
        reports: &Vec<ServiceReport>,
    ) -> (request: Result<OpenRequest, ConnectionError>)
        requires
            result == OK ==> can_choose(service_selection_strategy, reported(reports@).dom()),
        ensures
            result != OK ==> request == Err::<OpenRequest, ConnectionError>(failure(result)),
            result == OK ==> exists|uuid: u128| #[trigger]
                may_choose(service_selection_strategy, reported(reports@).dom(), uuid)
                    && request == request_for(mac_address, channel_in(reported(reports@), uuid)),
            result == 1 ==> request == Err::<OpenRequest, ConnectionError>(
                ConnectionError::DeviceNotFound,
            ),
            result != 0 && result != 1 ==> request == Err::<OpenRequest, ConnectionError>(
                ConnectionError::Other { source: IOBluetoothError { code: result } },
            ),
            result == 0 ==> (service_selection_strategy matches
                RfcommServiceSelectionStrategy::Constant(uuid) ==> {
                &&& forall|i: int|
                        #![trigger reports@[i]]
                        0 <= i < reports@.len() && be_value(reports@[i].uuid@) == uuid && (forall|j: int|
                            #![trigger reports@[j]]
                            i < j < reports@.len() ==> be_value(reports@[j].uuid@) != uuid) ==> request == Ok::<OpenRequest, ConnectionError>(
                        OpenRequest { mac_address, channel_id: reports@[i].channel_id },
                    )
                &&& (forall|i: int|
                        #![trigger reports@[i]]
                        0 <= i < reports@.len() ==> be_value(reports@[i].uuid@) != uuid) ==> request == Err::<OpenRequest, ConnectionError>(
                        ConnectionError::DeviceNotFound,
                    )
            }),
            result == 0 ==> (service_selection_strategy matches
                RfcommServiceSelectionStrategy::Dynamic(select_service) ==> exists|
                uuids: HashSet<u128>,
                uuid: u128,
            |
                {
                    &&& #[trigger] call_ensures(select_service, (uuids,), uuid)
                    &&& forall|number: u128| #[trigger]
                            uuids@.contains(number) <==> exists|i: int|
                                #![trigger reports@[i]]
                                0 <= i < reports@.len() && be_value(reports@[i].uuid@) == number
                    &&& forall|i: int|
                            #![trigger reports@[i]]
                            0 <= i < reports@.len() && be_value(reports@[i].uuid@) == uuid && (forall|j: int|
                                #![trigger reports@[j]]
                                i < j < reports@.len() ==> be_value(reports@[j].uuid@) != uuid) ==> request == Ok::<OpenRequest, ConnectionError>(
                            OpenRequest { mac_address, channel_id: reports@[i].channel_id },
                        )
                    &&& (forall|i: int|
                            #![trigger reports@[i]]
                            0 <= i < reports@.len() ==> be_value(reports@[i].uuid@) != uuid) ==> request == Err::<OpenRequest, ConnectionError>(
                            ConnectionError::DeviceNotFound,
                        )
                }),
    {
        let services = match Self::rfcomm_services(result, reports) {
            Ok(services) => services,
            Err(error) => return Err(error),
        };
        let uuid: u128 = service_selection_strategy.choose_service(&services);
        proof {
            law_channel_of_a_service_is_the_last_reported(reports@, uuid);
            assert forall|number: u128| #[trigger]
                reported(reports@).dom().contains(number) <==> exists|i: int|
                    #![trigger reports@[i]]
                    0 <= i < reports@.len() && be_value(reports@[i].uuid@) == number by {
                law_offered_services_are_those_reported(reports@, number);
            }
        }
        match services.channel_of(uuid) {
            Ok(channel_id) => Ok(OpenRequest { mac_address, channel_id }),
            Err(error) => Err(error),
        }
    }
}

/// With a constant strategy, a listing that succeeded leads to the channel of that service on the
/// given device, as it was reported last, whatever other services were reported; where the service
/// was not reported, the device counts as not found.
pub proof fn law_constant_service_is_the_one_opened<F: Fn(HashSet<u128>) -> u128>(
    mac_address: MacAddress,
    constant: u128,
    reports: Seq<ServiceReport>,
    chosen: u128,
    request: Result<OpenRequest, ConnectionError>,
)
    requires
        may_choose(
            RfcommServiceSelectionStrategy::<F>::Constant(constant),
            reported(reports).dom(),
            chosen,
        ),
        request == request_for(mac_address, channel_in(reported(reports), chosen)),
    ensures
        forall|i: int|
            #![trigger reports[i]]
            0 <= i < reports.len() && be_value(reports[i].uuid@) == constant && (forall|j: int|
                #![trigger reports[j]]
                i < j < reports.len() ==> be_value(reports[j].uuid@) != constant) ==> request == Ok::<OpenRequest, ConnectionError>(
            OpenRequest { mac_address, channel_id: reports[i].channel_id },
        ),
        (forall|i: int|
            #![trigger reports[i]]
            0 <= i < reports.len() ==> be_value(reports[i].uuid@) != constant) ==> request == Err::<OpenRequest, ConnectionError>(
            ConnectionError::DeviceNotFound,
        ),
{
    law_channel_of_a_service_is_the_last_reported(reports, constant);
}

/// With a dynamic strategy, its function is handed exactly the services that were reported, and a
/// listing that succeeded leads to the channel of the service that it answers, as it was reported
/// last; where that service was not reported, the device counts as not found.
pub proof fn law_chosen_service_is_the_one_opened<F: Fn(HashSet<u128>) -> u128>(
    mac_address: MacAddress,
    select_service: F,
    reports: Seq<ServiceReport>,
    chosen: u128,
    request: Result<OpenRequest, ConnectionError>,
)
    requires
        may_choose(
            RfcommServiceSelectionStrategy::Dynamic(select_service),
            reported(reports).dom(),
            chosen,
        ),
        request == request_for(mac_address, channel_in(reported(reports), chosen)),
    ensures
        exists|uuids: HashSet<u128>|
            {
                &&& #[trigger] call_ensures(select_service, (uuids,), chosen)
                &&& forall|number: u128| #[trigger]
                        uuids@.contains(number) <==> exists|i: int|
                            #![trigger reports[i]]
                            0 <= i < reports.len() && be_value(reports[i].uuid@) == number
            },
        forall|i: int|
            #![trigger reports[i]]
            0 <= i < reports.len() && be_value(reports[i].uuid@) == chosen && (forall|j: int|
                #![trigger reports[j]]
                i < j < reports.len() ==> be_value(reports[j].uuid@) != chosen) ==> request == Ok::<OpenRequest, ConnectionError>(
            OpenRequest { mac_address, channel_id: reports[i].channel_id },
        ),
        (forall|i: int|
            #![trigger reports[i]]
            0 <= i < reports.len() ==> be_value(reports[i].uuid@) != chosen) ==> request == Err::<OpenRequest, ConnectionError>(
            ConnectionError::DeviceNotFound,
        ),
{
    law_channel_of_a_service_is_the_last_reported(reports, chosen);
    let uuids = choose|uuids: HashSet<u128>|
        uuids@ == reported(reports).dom() && #[trigger] call_ensures(
            select_service,
            (uuids,),
            chosen,
        );
    assert forall|number: u128| #[trigger]
        uuids@.contains(number) <==> exists|i: int|
            #![trigger reports[i]]
            0 <= i < reports.len() && be_value(reports[i].uuid@) == number by {
        law_offered_services_are_those_reported(reports, number);
    }
    assert(call_ensures(select_service, (uuids,), chosen));
}

/// What the callbacks of a channel work on. It lives until the channel is closed, after which no
/// further callback can come.
#[derive(Debug)]
pub struct CallbackContext {
    packet_sender: PacketSender,
    connection_status_sender: StatusSender,
}

impl CallbackContext {
    /// What the queue answered to the inbound packets, oldest first.
    pub closed spec fn answers(&self) -> Seq<SendOutcome> {
        queue_answers(self.packet_sender.sender)
    }

    /// The number of packets that had been read when the last inbound packet came.
    pub closed spec fn read(&self) -> nat {
        packets_read(self.packet_sender.sender)
    }

    /// The inbound packets that were offered to the queue, oldest first.
    pub closed spec fn offered(&self) -> Seq<Seq<u8>> {
        offered_packets(self.packet_sender.sender)
    }

    /// The inbound packets that were passed on, oldest first.
    pub closed spec fn accepted(&self) -> Seq<Seq<u8>> {
        accepted_packets(self.packet_sender.sender)
    }

    /// The statuses that were published, oldest first.
    pub closed spec fn statuses(&self) -> Seq<ConnectionStatus> {
        published_statuses(self.connection_status_sender.sender)
    }

    /// Whether inbound packets come out of `receiver`.
    pub closed spec fn packets_reach(&self, receiver: mpsc::Receiver<Vec<u8>>) -> bool {
        packets_reach(self.packet_sender.sender, receiver)
    }

    /// The inbound packets that come out of `receiver`, first to last, once it has been read until
    /// nothing is left of those that came in so far.
    pub closed spec fn packets_out(&self, receiver: mpsc::Receiver<Vec<u8>>) -> Seq<Seq<u8>> {
        packets_out(self.packet_sender.sender, receiver)
    }

    /// Whether `receiver` sees the published status.
    pub closed spec fn status_reaches(&self, receiver: watch::Receiver<ConnectionStatus>) -> bool {
        status_reaches(self.connection_status_sender.sender, receiver)
    }

    /// A connection starts out connected, and once disconnected it stays so. No more packets wait
    /// unread than the queue can hold.
    pub open spec fn wf(&self) -> bool {
        &&& self.statuses().len() > 0
        &&& self.statuses()[0] == ConnectionStatus::Connected
        &&& forall|i: int|
            0 < i < self.statuses().len() ==> #[trigger] self.statuses()[i]
                == ConnectionStatus::Disconnected
        &&& self.read() <= self.accepted().len() <= self.read() + PACKET_QUEUE_LIMIT
        &&& self.holds_limit()
    }

    /// The packet queue has the size that it is meant to have.
    pub closed spec fn holds_limit(&self) -> bool {
        packet_limit(self.packet_sender.sender) == PACKET_QUEUE_LIMIT
    }

    /// Both ends that the callbacks fed before are still fed.
    pub open spec fn reaches_as(&self, other: &CallbackContext) -> bool {
        &&& forall|receiver: mpsc::Receiver<Vec<u8>>| #[trigger]
            self.packets_reach(receiver) == other.packets_reach(receiver)
        &&& forall|receiver: watch::Receiver<ConnectionStatus>| #[trigger]
            self.status_reaches(receiver) == other.status_reaches(receiver)
    }

    /// Passes an inbound packet on. This never waits: a packet is dropped, and handed back, where
    /// the queue is full or nobody reads it any more. The queue is full where as many packets as
    /// it can hold wait unread.
    pub fn on_data(&mut self, data: &[u8]) -> (outcome: SendOutcome)
        requires
            old(self).wf(),
        ensures
            final(self).wf(),
            data_passed_on(*old(self), data@, outcome, *final(self)),
            final(self).answers() == old(self).answers().push(outcome),
            final(self).offered() == old(self).offered().push(data@),
            outcome is Accepted ==> final(self).accepted() == old(self).accepted().push(data@),
            outcome !is Accepted ==> final(self).accepted() == old(self).accepted(),
            outcome matches SendOutcome::Full(packet) ==> packet@ == data@,
            outcome matches SendOutcome::Closed(packet) ==> packet@ == data@,
            outcome is Full ==> old(self).accepted().len() - final(self).read() >= 100,
            outcome is Accepted ==> old(self).accepted().len() - final(self).read() < 100,
            forall|receiver: mpsc::Receiver<Vec<u8>>|
                old(self).packets_reach(receiver) && outcome is Accepted
                    ==> #[trigger] final(self).packets_out(receiver) == old(self).packets_out(
                    receiver,
                ).push(data@),
            forall|receiver: mpsc::Receiver<Vec<u8>>|
                old(self).packets_reach(receiver) && outcome !is Accepted
                    ==> #[trigger] final(self).packets_out(receiver) == old(self).packets_out(
                    receiver,
                ),
            old(self).read() <= final(self).read() <= old(self).accepted().len(),
            final(self).statuses() == old(self).statuses(),
            forall|receiver: mpsc::Receiver<Vec<u8>>| #[trigger]
                final(self).packets_reach(receiver) == old(self).packets_reach(receiver),
            forall|receiver: watch::Receiver<ConnectionStatus>| #[trigger]
                final(self).status_reaches(receiver) == old(self).status_reaches(receiver),
    {
        offer_packet(&mut self.packet_sender, slice_to_vec(data))
    }

    /// Publishes that the channel was closed.
    pub fn on_closed(&mut self)
        requires
            old(self).wf(),
        ensures
            final(self).wf(),
            channel_closed(*old(self), *final(self)),
            final(self).statuses() == old(self).statuses().push(ConnectionStatus::Disconnected),
            final(self).offered() == old(self).offered(),
            final(self).accepted() == old(self).accepted(),
            forall|receiver: mpsc::Receiver<Vec<u8>>| #[trigger]
                final(self).packets_out(receiver) == old(self).packets_out(receiver),
            forall|receiver: mpsc::Receiver<Vec<u8>>| #[trigger]
                final(self).packets_reach(receiver) == old(self).packets_reach(receiver),
            forall|receiver: watch::Receiver<ConnectionStatus>| #[trigger]
                final(self).status_reaches(receiver) == old(self).status_reaches(receiver),
    {
        publish_status(&mut self.connection_status_sender, ConnectionStatus::Disconnected);
    }
}

/// The number of packets that waited unread when the packet came in that led from `before` to
/// `after`.
pub open spec fn waiting(before: CallbackContext, after: CallbackContext) -> int {
    before.accepted().len() - after.read()
}

/// What an inbound packet does to the context of the callbacks: it is offered to the queue as it
/// came; where the queue takes it, it comes out behind all others; where not, it is handed back and
/// nothing comes out of it.
pub open spec fn data_passed_on(
    before: CallbackContext,
    data: Seq<u8>,
    outcome: SendOutcome,
    after: CallbackContext,
) -> bool {
    &&& after.answers() == before.answers().push(outcome)
    &&& after.offered() == before.offered().push(data)
    &&& after.accepted() == if outcome is Accepted {
        before.accepted().push(data)
    } else {
        before.accepted()
    }
    &&& forall|receiver: mpsc::Receiver<Vec<u8>>|
        before.packets_reach(receiver) ==> #[trigger] after.packets_out(receiver)
            == if outcome is Accepted {
            before.packets_out(receiver).push(data)
        } else {
            before.packets_out(receiver)
        }
    &&& before.read() <= after.read() <= before.accepted().len()
    &&& outcome is Accepted ==> waiting(before, after) < PACKET_QUEUE_LIMIT
    &&& outcome matches SendOutcome::Full(packet) ==> packet@ == data && waiting(before, after)
        >= PACKET_QUEUE_LIMIT
    &&& outcome matches SendOutcome::Closed(packet) ==> packet@ == data
    &&& after.statuses() == before.statuses()
    &&& after.holds_limit() == before.holds_limit()
    &&& after.reaches_as(&before)
}

/// An inbound packet is offered to the queue whole and unchanged. Either it is the next packet to
/// come out, or the caller gets the same bytes back and nothing comes out of it; and it is never
/// turned away for want of room while fewer than a hundred packets wait unread.
pub proof fn law_inbound_packet_is_passed_on_or_handed_back(
    before: CallbackContext,
    data: Seq<u8>,
    outcome: SendOutcome,
    after: CallbackContext,
    receiver: mpsc::Receiver<Vec<u8>>,
    status: watch::Receiver<ConnectionStatus>,
)
    requires
        data_passed_on(before, data, outcome, after),
        before.packets_reach(receiver),
    ensures
        after.answers() == before.answers().push(outcome),
        after.offered() == before.offered().push(data),
        outcome is Accepted ==> after.accepted() == before.accepted().push(data)
            && after.packets_out(receiver) == before.packets_out(receiver).push(data),
        outcome !is Accepted ==> after.accepted() == before.accepted() && after.packets_out(receiver)
            == before.packets_out(receiver),
        outcome matches SendOutcome::Full(packet) ==> packet@ == data,
        outcome matches SendOutcome::Closed(packet) ==> packet@ == data,
        outcome is Full ==> before.accepted().len() - after.read() >= 100,
        outcome is Accepted ==> before.accepted().len() - after.read() < 100,
        before.read() <= after.read() <= before.accepted().len(),
        after.statuses() == before.statuses(),
        after.packets_reach(receiver),
        after.status_reaches(status) == before.status_reaches(status),
{
}

/// What the report that the channel was closed does to the context of the callbacks.
pub open spec fn channel_closed(before: CallbackContext, after: CallbackContext) -> bool {
    &&& after.statuses() == before.statuses().push(ConnectionStatus::Disconnected)
    &&& after.answers() == before.answers()
    &&& after.offered() == before.offered()
    &&& after.accepted() == before.accepted()
    &&& after.read() == before.read()
    &&& forall|receiver: mpsc::Receiver<Vec<u8>>| #[trigger]
        after.packets_out(receiver) == before.packets_out(receiver)
    &&& after.holds_limit() == before.holds_limit()
    &&& after.reaches_as(&before)
}

/// The report that the channel was closed publishes that the connection is down, and neither adds
/// nor takes a packet.
pub proof fn law_closing_only_publishes_the_status(
    before: CallbackContext,
    after: CallbackContext,
    receiver: mpsc::Receiver<Vec<u8>>,
    status: watch::Receiver<ConnectionStatus>,
)
    requires
        channel_closed(before, after),
    ensures
        after.statuses() == before.statuses().push(ConnectionStatus::Disconnected),
        after.offered() == before.offered(),
        after.accepted() == before.accepted(),
        after.packets_out(receiver) == before.packets_out(receiver),
        after.packets_reach(receiver) == before.packets_reach(receiver),
        after.status_reaches(status) == before.status_reaches(status),
{
}

/// A callback of the shim.
pub enum Callback {
    /// A packet came in, and the queue answered so.
    Data { data: Seq<u8>, outcome: SendOutcome },
    /// The channel was closed.
    Closed,
}

/// What a callback does to its context.
pub open spec fn callback_step(
    before: CallbackContext,
    callback: Callback,
    after: CallbackContext,
) -> bool {
    match callback {
        Callback::Data { data, outcome } => data_passed_on(before, data, outcome, after),
        Callback::Closed => channel_closed(before, after),
    }
}

/// A run of callbacks of any kind: `callbacks[i]` finds `contexts[i]` and leaves
/// `contexts[i + 1]`.
pub open spec fn callback_run(
    contexts: Seq<CallbackContext>,
    callbacks: Seq<Callback>,
) -> bool {
    &&& contexts.len() == callbacks.len() + 1
    &&& forall|i: int|
        0 <= i < callbacks.len() ==> callback_step(
            contexts[i],
            #[trigger] callbacks[i],
            contexts[i + 1],
        )
}

/// The packets that came in during a run, in their order.
pub open spec fn inbound(callbacks: Seq<Callback>) -> Seq<Seq<u8>>
    decreases callbacks.len(),
{
    if callbacks.len() == 0 {
        Seq::empty()
    } else {
        let earlier = inbound(callbacks.drop_last());
        match callbacks.last() {
            Callback::Data { data, outcome } => earlier.push(data),
            Callback::Closed => earlier,
        }
    }
}

/// The packets that came in during a run and were answered with `Accepted`, in their order.
pub open spec fn inbound_accepted(callbacks: Seq<Callback>) -> Seq<Seq<u8>>
    decreases callbacks.len(),
{
    if callbacks.len() == 0 {
        Seq::empty()
    } else {
        let earlier = inbound_accepted(callbacks.drop_last());
        match callbacks.last() {
            Callback::Data { data, outcome: SendOutcome::Accepted } => earlier.push(data),
            _ => earlier,
        }
    }
}

/// Whether the queue took every packet that came in during a run.
pub open spec fn all_accepted(callbacks: Seq<Callback>) -> bool {
    forall|i: int|
        0 <= i < callbacks.len() ==> (#[trigger] callbacks[i] matches Callback::Data {
            data,
            outcome,
        } ==> outcome is Accepted)
}

/// Whether no packet that came in during a run found the receiver closed or gone.
pub open spec fn none_closed(callbacks: Seq<Callback>) -> bool {
    forall|i: int|
        0 <= i < callbacks.len() ==> (#[trigger] callbacks[i] matches Callback::Data {
            data,
            outcome,
        } ==> outcome !is Closed)
}

/// Whether each packet that came in during a run found fewer packets waiting unread than the queue
/// can hold.
pub open spec fn reader_keeps_up(
    contexts: Seq<CallbackContext>,
    callbacks: Seq<Callback>,
) -> bool {
    forall|i: int|
        0 <= i < callbacks.len() && #[trigger] callbacks[i] is Data ==> waiting(
            contexts[i],
            contexts[i + 1],
        ) < PACKET_QUEUE_LIMIT
}

/// Over any run of callbacks, every packet is offered to the queue, and the packets that it takes,
/// and that come out of its receiver, are exactly those that were answered with `Accepted`,
/// unchanged and in the order in which they came in.
pub proof fn law_accepted_packets_come_out_in_order(
    contexts: Seq<CallbackContext>,
    callbacks: Seq<Callback>,
    receiver: mpsc::Receiver<Vec<u8>>,
)
    requires
        callback_run(contexts, callbacks),
        contexts[0].packets_reach(receiver),
    ensures
        contexts.last().packets_reach(receiver),
        contexts.last().offered() == contexts[0].offered() + inbound(callbacks),
        contexts.last().accepted() == contexts[0].accepted() + inbound_accepted(callbacks),
        contexts.last().packets_out(receiver) == contexts[0].packets_out(receiver)
            + inbound_accepted(callbacks),
    decreases callbacks.len(),
{
    if callbacks.len() > 0 {
        let n = callbacks.len() - 1;
        lemma_shorter_run(contexts, callbacks, n);
        assert(callbacks.take(n) =~= callbacks.drop_last());
        law_accepted_packets_come_out_in_order(contexts.take(n + 1), callbacks.take(n), receiver);
        assert(callback_step(contexts[n], callbacks[n], contexts[n + 1]));
    }
}

/// A packet that comes in while the receiver is there is taken if and only if fewer packets wait
/// unread than the queue can hold. Otherwise it is answered with `Full`.
pub proof fn law_packet_is_taken_where_there_is_room(
    before: CallbackContext,
    data: Seq<u8>,
    outcome: SendOutcome,
    after: CallbackContext,
)
    requires
        data_passed_on(before, data, outcome, after),
        outcome !is Closed,
    ensures
        outcome is Accepted <==> waiting(before, after) < PACKET_QUEUE_LIMIT,
        outcome is Full <==> waiting(before, after) >= PACKET_QUEUE_LIMIT,
{
}

/// Over any run of callbacks that starts from a valid context, the context stays valid, so that
/// no more packets ever wait unread than the queue can hold, and what was read stays read.
pub proof fn law_callbacks_keep_the_context_valid(
    contexts: Seq<CallbackContext>,
    callbacks: Seq<Callback>,
)
    requires
        callback_run(contexts, callbacks),
        contexts[0].wf(),
    ensures
        contexts.last().wf(),
        contexts[0].read() <= contexts.last().read(),
        contexts.last().accepted().len() - contexts.last().read() <= PACKET_QUEUE_LIMIT,
    decreases callbacks.len(),
{
    if callbacks.len() > 0 {
        let n = callbacks.len() - 1;
        lemma_shorter_run(contexts, callbacks, n);
        law_callbacks_keep_the_context_valid(contexts.take(n + 1), callbacks.take(n));
        assert(callback_step(contexts[n], callbacks[n], contexts[n + 1]));
    }
}

/// Over any run of callbacks, no packet is answered with `Full` while the queue has taken fewer
/// packets than it can hold.
pub proof fn law_queue_is_not_full_too_early(
    contexts: Seq<CallbackContext>,
    callbacks: Seq<Callback>,
    i: int,
)
    requires
        callback_run(contexts, callbacks),
        0 <= i < callbacks.len(),
        contexts[i].accepted().len() < PACKET_QUEUE_LIMIT,
    ensures
        callbacks[i] matches Callback::Data { data, outcome } ==> outcome !is Full,
{
    assert(callback_step(contexts[i], callbacks[i], contexts[i + 1]));
}

/// Over any run of callbacks during which the receiver is there and the reader never lets the
/// queue fill up, the packets that come out of the receiver are exactly those that came in, in
/// that order, one for one: none is lost, repeated, merged or split.
pub proof fn law_packets_come_out_as_they_came_in(
    contexts: Seq<CallbackContext>,
    callbacks: Seq<Callback>,
    receiver: mpsc::Receiver<Vec<u8>>,
)
    requires
        callback_run(contexts, callbacks),
        contexts[0].packets_reach(receiver),
        none_closed(callbacks),
        reader_keeps_up(contexts, callbacks),
    ensures
        all_accepted(callbacks),
        contexts.last().packets_out(receiver) == contexts[0].packets_out(receiver) + inbound(
            callbacks,
        ),
{
    assert forall|i: int| 0 <= i < callbacks.len() implies (#[trigger] callbacks[i] matches
        Callback::Data { data, outcome } ==> outcome is Accepted) by {
        assert(callback_step(contexts[i], callbacks[i], contexts[i + 1]));
    }
    law_accepted_packets_come_out_in_order(contexts, callbacks, receiver);
    lemma_all_accepted(callbacks);
}

/// Packets for which the queue has room from the start come out exactly as they came in, however
/// slow the reader is, as long as the receiver is there.
pub proof fn law_packets_within_the_limit_come_out(
    contexts: Seq<CallbackContext>,
    callbacks: Seq<Callback>,
    receiver: mpsc::Receiver<Vec<u8>>,
)
    requires
        callback_run(contexts, callbacks),
        contexts[0].packets_reach(receiver),
        none_closed(callbacks),
        contexts[0].accepted().len() + inbound(callbacks).len() <= PACKET_QUEUE_LIMIT,
    ensures
        all_accepted(callbacks),
        contexts.last().packets_out(receiver) == contexts[0].packets_out(receiver) + inbound(
            callbacks,
        ),
{
    assert forall|i: int|
        0 <= i < callbacks.len() && #[trigger] callbacks[i] is Data implies waiting(
        contexts[i],
        contexts[i + 1],
    ) < PACKET_QUEUE_LIMIT by {
        lemma_shorter_run(contexts, callbacks, i);
        law_accepted_packets_come_out_in_order(contexts.take(i + 1), callbacks.take(i), receiver);
        lemma_inbound_grows(callbacks, i);
    }
    law_packets_come_out_as_they_came_in(contexts, callbacks, receiver);
}

/// Over any run of callbacks, both receivers of a connection stay served, and the status is that
/// the connection is down if and only if it was before or the channel was reported as closed.
pub proof fn law_status_follows_the_callbacks(
    contexts: Seq<CallbackContext>,
    callbacks: Seq<Callback>,
)
    requires
        callback_run(contexts, callbacks),
        contexts[0].wf(),
    ensures
        contexts.last().reaches_as(&contexts[0]),
        contexts.last().statuses().last() == ConnectionStatus::Disconnected <==> (
        contexts[0].statuses().last() == ConnectionStatus::Disconnected || exists|i: int|
            0 <= i < callbacks.len() && #[trigger] callbacks[i] is Closed),
    decreases callbacks.len(),
{
    if callbacks.len() > 0 {
        let n = callbacks.len() - 1;
        let shorter = callbacks.take(n);
        lemma_shorter_run(contexts, callbacks, n);
        law_status_follows_the_callbacks(contexts.take(n + 1), shorter);
        assert(callback_step(contexts[n], callbacks[n], contexts[n + 1]));
        assert(forall|i: int| 0 <= i < n ==> shorter[i] == #[trigger] callbacks[i]);
        if exists|i: int| 0 <= i < n && #[trigger] shorter[i] is Closed {
            let i = choose|i: int| 0 <= i < n && #[trigger] shorter[i] is Closed;
            assert(callbacks[i] is Closed);
        }
    }
}

/// The first `n` callbacks of a run are a run.
proof fn lemma_shorter_run(contexts: Seq<CallbackContext>, callbacks: Seq<Callback>, n: int)
    requires
        callback_run(contexts, callbacks),
        0 <= n <= callbacks.len(),
    ensures
        callback_run(contexts.take(n + 1), callbacks.take(n)),
{
    let shorter = contexts.take(n + 1);
    assert forall|i: int| 0 <= i < n implies callback_step(
        shorter[i],
        #[trigger] callbacks.take(n)[i],
        shorter[i + 1],
    ) by {
        assert(callback_step(contexts[i], callbacks[i], contexts[i + 1]));
    }
}

/// No more packets are accepted than came in, and what comes in before a packet is less than what
/// comes in with it.
proof fn lemma_inbound_grows(callbacks: Seq<Callback>, i: int)
    requires
        0 <= i < callbacks.len(),
        callbacks[i] is Data,
    ensures
        inbound_accepted(callbacks.take(i)).len() < inbound(callbacks).len(),
    decreases callbacks.len(),
{
    let earlier = callbacks.drop_last();
    if i == callbacks.len() - 1 {
        assert(callbacks.take(i) =~= earlier);
        lemma_accepted_among_inbound(earlier);
    } else {
        assert(earlier.take(i) =~= callbacks.take(i));
        lemma_inbound_grows(earlier, i);
    }
}

/// No more packets are accepted than came in.
proof fn lemma_accepted_among_inbound(callbacks: Seq<Callback>)
    ensures
        inbound_accepted(callbacks).len() <= inbound(callbacks).len(),
    decreases callbacks.len(),
{
    if callbacks.len() > 0 {
        lemma_accepted_among_inbound(callbacks.drop_last());
    }
}

/// Where all packets are accepted, the accepted ones are all of them.
proof fn lemma_all_accepted(callbacks: Seq<Callback>)
    requires
        all_accepted(callbacks),
    ensures
        inbound_accepted(callbacks) == inbound(callbacks),
    decreases callbacks.len(),
{
    if callbacks.len() > 0 {
        assert(callbacks[callbacks.len() - 1] == callbacks.last());
        let earlier = callbacks.drop_last();
        assert forall|i: int| 0 <= i < earlier.len() implies (#[trigger] earlier[i] matches
            Callback::Data { data, outcome } ==> outcome is Accepted) by {
            assert(earlier[i] == callbacks[i]);
        }
        lemma_all_accepted(earlier);
    }
}

/// The published status is that the connection is up if and only if the channel was never reported
/// as closed: every such report adds one status, and inbound packets add none.
pub proof fn law_status_tells_whether_the_channel_closed(context: CallbackContext)
    requires
        context.wf(),
    ensures
        context.statuses().last() == ConnectionStatus::Connected <==> context.statuses().len()
            == 1,
{
}

/// The receiving ends of a connection whose channel the shim has yet to open.
#[derive(Debug)]
pub struct PendingConnection {
    packet_receiver: mpsc::Receiver<Vec<u8>>,
    connection_status_receiver: watch::Receiver<ConnectionStatus>,
}

impl PendingConnection {
    /// Where inbound packets come out.
    pub closed spec fn packets(&self) -> mpsc::Receiver<Vec<u8>> {
        self.packet_receiver
    }

    /// Where the status is seen.
    pub closed spec fn status(&self) -> watch::Receiver<ConnectionStatus> {
        self.connection_status_receiver
    }
}

/// A block of data, and the handle of the channel that it is to be written to.
#[derive(Debug, PartialEq, Eq)]
pub struct WriteRequest {
    pub handle: usize,
    pub data: Vec<u8>,
}

/// An open RFCOMM channel.
#[derive(Debug)]
pub struct IOBluetoothRfcommConnection {
    handle: usize,
    read_channel: Option<mpsc::Receiver<Vec<u8>>>,
    connection_status_receiver: watch::Receiver<ConnectionStatus>,
}

impl IOBluetoothRfcommConnection {
    /// The handle of the channel.
    pub closed spec fn channel(&self) -> usize {
        self.handle
    }

    /// Where inbound packets come out, until somebody has taken it.
    pub closed spec fn packets(&self) -> Option<mpsc::Receiver<Vec<u8>>> {
        self.read_channel
    }

    /// Where the status is seen.
    pub closed spec fn status(&self) -> watch::Receiver<ConnectionStatus> {
        self.connection_status_receiver
    }

    /// An open channel has a handle that is not null.
    pub open spec fn wf(&self) -> bool {
        self.channel() != 0
    }

    /// Makes what the callbacks and the connection need before the shim opens the channel.
    pub fn prepare() -> (ends: (CallbackContext, PendingConnection))
        ensures
            ends.0.wf(),
            ends.0.answers() == Seq::<SendOutcome>::empty(),
            ends.0.read() == 0,
            ends.0.offered() == Seq::<Seq<u8>>::empty(),
            ends.0.accepted() == Seq::<Seq<u8>>::empty(),
            ends.0.packets_out(ends.1.packets()) == Seq::<Seq<u8>>::empty(),
            ends.0.statuses() == seq![ConnectionStatus::Connected],
            ends.0.packets_reach(ends.1.packets()),
            ends.0.status_reaches(ends.1.status()),
    {
        let (packet_sender, packet_receiver) = packet_queue(PACKET_QUEUE_LIMIT);
        let (connection_status_sender, connection_status_receiver) = status_channel(
            ConnectionStatus::Connected,
        );
        (
            CallbackContext { packet_sender, connection_status_sender },
            PendingConnection { packet_receiver, connection_status_receiver },
        )
    }

    /// What became of the channel, out of the handle that the shim gave (null, that is zero, where
    /// it failed) and its error code.
    pub fn open(pending: PendingConnection, handle: usize, error_code: i32) -> (connection: Result<
        IOBluetoothRfcommConnection,
        ConnectionError,
    >)
        ensures
            handle == 0 ==> connection == Err::<IOBluetoothRfcommConnection, ConnectionError>(
                failure(error_code),
            ),
            handle == 0 && error_code == 1 ==> connection == Err::<
                IOBluetoothRfcommConnection,
                ConnectionError,
            >(ConnectionError::DeviceNotFound),
            handle == 0 && error_code != 1 ==> connection == Err::<
                IOBluetoothRfcommConnection,
                ConnectionError,
            >(ConnectionError::Other { source: IOBluetoothError { code: error_code } }),
            handle != 0 ==> {
                &&& connection matches Ok(open)
                &&& open.wf()
                &&& open.channel() == handle
                &&& open.packets() == Some(pending.packets())
                &&& open.status() == pending.status()
            },
    {
        if handle == 0 {
            return Err(ConnectionError::from_code(error_code));
        }
        Ok(
            IOBluetoothRfcommConnection {
                handle,
                read_channel: Some(pending.packet_receiver),
                connection_status_receiver: pending.connection_status_receiver,
            },
        )
    }

    /// The handle of the channel, which has to be closed when the connection is dropped.
    pub fn handle(&self) -> (handle: usize)
        ensures
            handle == self.channel(),
    {
        self.handle
    }

    /// What to write in order to send `data`.
    pub fn write(&self, data: &[u8]) -> (request: WriteRequest)
        ensures
            request.handle == self.channel(),
            request.data@ == data@,
    {
        WriteRequest { handle: self.handle, data: slice_to_vec(data) }
    }

    /// What the code means with which the shim ended a write.
    pub fn write_result(result: i32) -> (written: Result<(), ConnectionError>)
        ensures
            result == OK ==> written == Ok::<(), ConnectionError>(()),
            result != OK ==> written == Err::<(), ConnectionError>(
                ConnectionError::WriteError { source: IOBluetoothError { code: result } },
            ),
    {
        if result != OK {
            return Err(ConnectionError::WriteError { source: IOBluetoothError { code: result } });
        }
        Ok(())
    }

    /// Whether nobody has taken the read channel yet.
    pub fn has_read_channel(&self) -> (available: bool)
        ensures
            available == self.packets() is Some,
    {
        self.read_channel.is_some()
    }

    /// Hands out where inbound packets come out. This can be done once per connection.
    pub fn read_channel(&mut self) -> (receiver: mpsc::Receiver<Vec<u8>>)
        requires
            old(self).packets() is Some,
        ensures
            old(self).packets() == Some(receiver),
            final(self).packets() is None,
            final(self).channel() == old(self).channel(),
            final(self).status() == old(self).status(),
    {
        self.read_channel.take().unwrap()
    }

    /// Another end where the status is seen.
    pub fn connection_status(&self) -> (receiver: watch::Receiver<ConnectionStatus>)
        ensures
            forall|context: CallbackContext| #[trigger]
                context.status_reaches(receiver) == context.status_reaches(self.status()),
    {
        copy_status_receiver(&self.connection_status_receiver)
    }
}

/// Whether the callbacks that work on `context` serve `connection`: its inbound packets come out
/// where it hands them out, and its status is seen.
pub open spec fn serves(
    context: CallbackContext,
    connection: IOBluetoothRfcommConnection,
) -> bool {
    &&& connection.packets() matches Some(receiver) ==> context.packets_reach(receiver)
    &&& context.status_reaches(connection.status())
}

/// A connection that was opened with the ends that were prepared together is served by them, and
/// still is after any callback.
pub proof fn law_callbacks_serve_their_connection(
    prepared: CallbackContext,
    pending: PendingConnection,
    connection: IOBluetoothRfcommConnection,
    later: CallbackContext,
)
    requires
        prepared.packets_reach(pending.packets()),
        prepared.status_reaches(pending.status()),
        connection.packets() == Some(pending.packets()),
        connection.status() == pending.status(),
        later.reaches_as(&prepared),
    ensures
        serves(prepared, connection),
        serves(later, connection),
{
}

} // verus!
