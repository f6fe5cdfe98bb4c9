//! The client registry: who is connected, from which address, and what is
//! waiting to be sent to them.
//!
//! A client is one record that holds its identity, its address, its outbound
//! mailbox and its liveness flag. The records are kept in a map keyed by
//! identity, beside the identities in the order in which the clients
//! registered. Every lookup reads the same records, so the
//! identity-to-address, address-to-identity and identity-to-mailbox views
//! cannot disagree, and a change to one record changes all three at once.

use crate::common::address::Address;
use crate::common::client_to_server::{BundleView, ClientMessageView};
use crate::common::client_to_server::{ClientToServerMessage, ClientToServerMessageBundle};
use crate::common::queues::{InboundQueue, Mailbox, QueueView, MAX_QUEUE_CAPACITY};
use crate::common::server_to_client::{ServerMessageView, ServerToClientMessage};
use crate::common::wire::DecodeError;
use std::collections::HashMap;
use vstd::prelude::*;

verus! {

broadcast use vstd::std_specs::hash::group_hash_axioms;

/// Capacity of the queue of client messages that wait for the simulation.
pub const INBOUND_QUEUE_CAPACITY: usize = 1000;

/// Capacity of each client's outbound mailbox.
pub const MAILBOX_CAPACITY: usize = 100;

/// The most messages sent to one client in one pass of the send loop.
pub const MAX_MESSAGES_PER_CLIENT_FRAME: usize = 128;

/// What the registry knows of one client.
pub struct ClientRecord {
    id: u32,
    address: Address,
    mailbox: Mailbox,
    disconnected: bool,
}

/// A client record as a mathematical value.
pub ghost struct ClientView {
    pub id: u32,
    pub address: Address,
    pub mailbox: QueueView<ServerMessageView>,
    pub disconnected: bool,
}

impl ClientView {
    /// The record after a message was pushed into its mailbox.
    pub open spec fn received(self, message: ServerMessageView) -> ClientView {
        ClientView { mailbox: self.mailbox.offered(message), ..self }
    }

    /// The record after a pass of the send loop with the given cap.
    pub open spec fn drained(self, limit: nat) -> ClientView {
        ClientView { mailbox: self.mailbox.without_first(self.sendable(limit)), ..self }
    }

    /// How many messages a pass of the send loop with the given cap takes.
    pub open spec fn sendable(self, limit: nat) -> nat {
        crate::common::queues::drained_count(self.mailbox.items.len(), limit)
    }
}

impl View for ClientRecord {
    type V = ClientView;

    closed spec fn view(&self) -> ClientView {
        ClientView {
            id: self.id,
            address: self.address,
            mailbox: self.mailbox@,
            disconnected: self.disconnected,
        }
    }
}

/// The table of connected clients.
pub struct ClientRegistry {
    /// The records, keyed by identity.
    records: HashMap<u32, ClientRecord>,
    /// The identities of the records, in the order of registration.
    order: Vec<u32>,
    next_id: u32,
    mailbox_capacity: usize,
}

/// The registry as a mathematical value.
pub ghost struct RegistryView {
    /// The connected clients, in the order in which they registered.
    pub clients: Seq<ClientView>,
    /// The identity that the next new client gets.
    pub next_id: u32,
    /// The capacity that a new client's mailbox gets.
    pub mailbox_capacity: nat,
}

impl RegistryView {
    /// No two clients share an identity or an address, every identity was
    /// handed out by this registry, and no mailbox holds more than its capacity.
    pub open spec fn wf(self) -> bool {
        &&& 0 < self.mailbox_capacity <= MAX_QUEUE_CAPACITY
        &&& forall|i: int|
            0 <= i < self.clients.len() ==> (#[trigger] self.clients[i]).id < self.next_id
                && self.clients[i].mailbox.wf()
        &&& forall|i: int, j: int|
            0 <= i < self.clients.len() && 0 <= j < self.clients.len() && i != j ==> (
            #[trigger] self.clients[i]).id != (#[trigger] self.clients[j]).id
                && self.clients[i].address != self.clients[j].address
    }

    /// Whether a client with this identity is connected.
    pub open spec fn knows_id(self, id: u32) -> bool {
        exists|i: int| 0 <= i < self.clients.len() && (#[trigger] self.clients[i]).id == id
    }

    /// Whether a client with this address is connected.
    pub open spec fn knows_address(self, address: Address) -> bool {
        exists|i: int|
            0 <= i < self.clients.len() && (#[trigger] self.clients[i]).address == address
    }

    /// Where the client with this identity stands among the clients.
    pub open spec fn position_of_id(self, id: u32) -> int {
        choose|i: int| 0 <= i < self.clients.len() && (#[trigger] self.clients[i]).id == id
    }

    /// Where the client with this address stands among the clients.
    pub open spec fn position_of_address(self, address: Address) -> int {
        choose|i: int|
            0 <= i < self.clients.len() && (#[trigger] self.clients[i]).address == address
    }

    /// The identity registered for an address.
    pub open spec fn id_of(self, address: Address) -> Option<u32> {
        if self.knows_address(address) {
            Some(self.clients[self.position_of_address(address)].id)
        } else {
            None
        }
    }

    /// The address registered for an identity.
    pub open spec fn address_of(self, id: u32) -> Option<Address> {
        if self.knows_id(id) {
            Some(self.clients[self.position_of_id(id)].address)
        } else {
            None
        }
    }

    /// The mailbox of the client with this identity.
    pub open spec fn mailbox_of(self, id: u32) -> Option<QueueView<ServerMessageView>> {
        if self.knows_id(id) {
            Some(self.clients[self.position_of_id(id)].mailbox)
        } else {
            None
        }
    }

    /// The liveness flag of the client with this identity.
    pub open spec fn disconnected_of(self, id: u32) -> Option<bool> {
        if self.knows_id(id) {
            Some(self.clients[self.position_of_id(id)].disconnected)
        } else {
            None
        }
    }

    /// Whether no identity is left to hand out.
    pub open spec fn exhausted(self) -> bool {
        self.next_id == u32::MAX
    }

    /// The registry after a message was sent to one client. An unknown
    /// identity changes nothing.
    pub open spec fn delivered(self, id: u32, message: ServerMessageView) -> RegistryView {
        RegistryView {
            clients: self.clients.map_values(
                |c: ClientView|
                    if c.id == id {
                        c.received(message)
                    } else {
                        c
                    },
            ),
            ..self
        }
    }

    /// The registry after a message was sent to every client but one.
    pub open spec fn broadcast_except(self, sender: u32, message: ServerMessageView) -> RegistryView {
        RegistryView {
            clients: self.clients.map_values(
                |c: ClientView|
                    if c.id != sender {
                        c.received(message)
                    } else {
                        c
                    },
            ),
            ..self
        }
    }

    /// The registry after a message was sent to every client.
    pub open spec fn broadcast(self, message: ServerMessageView) -> RegistryView {
        RegistryView {
            clients: self.clients.map_values(|c: ClientView| c.received(message)),
            ..self
        }
    }

    /// The registry after the client with this identity was removed. An
    /// unknown identity changes nothing.
    pub open spec fn removed(self, id: u32) -> RegistryView {
        if self.knows_id(id) {
            RegistryView { clients: self.clients.remove(self.position_of_id(id)), ..self }
        } else {
            self
        }
    }

    /// The registry after one pass of the send loop with the given cap.
    pub open spec fn drained(self, limit: nat) -> RegistryView {
        RegistryView { clients: self.clients.map_values(|c: ClientView| c.drained(limit)), ..self }
    }

    /// The record of a client that has just registered: its mailbox holds the
    /// message that tells it its identity.
    pub open spec fn new_client(self, address: Address) -> ClientView {
        ClientView {
            id: self.next_id,
            address,
            mailbox: QueueView::empty(self.mailbox_capacity).offered(
                ServerMessageView::ClientIdAssignment { new_client_id: self.next_id },
            ),
            disconnected: false,
        }
    }
}

impl View for ClientRegistry {
    type V = RegistryView;

    closed spec fn view(&self) -> RegistryView {
        RegistryView {
            clients: self.order@.map_values(|id: u32| self.records@[id]@),
            next_id: self.next_id,
            mailbox_capacity: self.mailbox_capacity as nat,
        }
    }
}

impl ClientRegistry {
    /// The registry's invariant: its view is well-formed, every identity in
    /// the order keys the record that carries it, and no other record exists.
    pub closed spec fn wf(&self) -> bool {
        &&& self@.wf()
        &&& forall|i: int|
            0 <= i < self.order.len() ==> self.records@.contains_key(#[trigger] self.order[i])
                && self.records@[self.order[i]].id == self.order[i]
                && self.records@[self.order[i]].mailbox.wf()
        &&& forall|id: u32| #[trigger] self.records@.contains_key(id) ==> self.order@.contains(id)
    }

    /// A well-formed registry has a well-formed view.
    pub proof fn lemma_wf_view(&self)
        requires
            self.wf(),
        ensures
            self@.wf(),
    {
    }

    /// The record that an identity keys is the record of the client with
    /// that identity.
    proof fn lemma_keyed(&self, id: u32)
        requires
            self.wf(),
        ensures
            self.records@.contains_key(id) <==> self@.knows_id(id),
            self.records@.contains_key(id) ==> {
                &&& self@.clients[self@.position_of_id(id)] == self.records@[id]@
                &&& self.order[self@.position_of_id(id)] == id
                &&& 0 <= self@.position_of_id(id) < self.order.len()
                &&& self.records@[id].id == id
                &&& self.records@[id].mailbox.wf()
            },
    {
        if self.records@.contains_key(id) {
            let i = choose|i: int| 0 <= i < self.order@.len() && self.order@[i] == id;
            assert(self.order[i] == id);
            assert(self@.clients[i].id == id);
            self@.lemma_found_in_place(i);
        }
        if self@.knows_id(id) {
            let i = self@.position_of_id(id);
            assert(self@.clients[i].id == id);
            assert(self.order[i] == id);
        }
    }

    /// Creates a registry without clients. Each client that registers later
    /// gets a mailbox of the given capacity.
    pub fn new(mailbox_capacity: usize) -> (registry: ClientRegistry)
        requires
            0 < mailbox_capacity <= MAX_QUEUE_CAPACITY,
        ensures
            registry.wf(),
            registry@ == (RegistryView {
                clients: Seq::empty(),
                next_id: 0,
                mailbox_capacity: mailbox_capacity as nat,
            }),
    {
        ClientRegistry::starting_at(0, mailbox_capacity)
    }

    /// Creates a registry without clients that hands out identities from
    /// `first_id` on.
    pub fn starting_at(first_id: u32, mailbox_capacity: usize) -> (registry: ClientRegistry)
        requires
            0 < mailbox_capacity <= MAX_QUEUE_CAPACITY,
        ensures
            registry.wf(),
            registry@ == (RegistryView {
                clients: Seq::empty(),
                next_id: first_id,
                mailbox_capacity: mailbox_capacity as nat,
            }),
    {
        let registry = ClientRegistry {
            records: HashMap::new(),
            order: Vec::new(),
            next_id: first_id,
            mailbox_capacity,
        };
        assert(registry@.clients =~= Seq::empty());
        registry
    }

    /// Whether an identity is left to hand out to a new client.
    pub fn has_identity_left(&self) -> (left: bool)
        ensures
            left == !self@.exhausted(),
    {
        self.next_id < u32::MAX
    }

    /// The number of connected clients.
    pub fn len(&self) -> (len: usize)
        ensures
            len == self@.clients.len(),
    {
        self.order.len()
    }

    /// The record of the client with this identity, if there is one.
    fn record_of(&self, id: u32) -> (found: Option<&ClientRecord>)
        requires
            self.wf(),
        ensures
            found is Some <==> self@.knows_id(id),
            found matches Some(record) ==> record@ == self@.clients[self@.position_of_id(id)]
                && record.mailbox.wf(),
    {
        proof {
            self.lemma_keyed(id);
        }
        self.records.get(&id)
    }

    /// Where the client with this address stands in the order, if there is
    /// one.
    fn find_address(&self, address: Address) -> (found: Option<usize>)
        requires
            self.wf(),
        ensures
            found is Some <==> self@.knows_address(address),
            found matches Some(i) ==> i < self.order.len() && self@.clients[i as int].address
                == address && i == self@.position_of_address(address) && self.order[i as int]
                == self@.clients[i as int].id,
    {
        let mut i: usize = 0;
        while i < self.order.len()
            invariant
                i <= self.order.len(),
                self.wf(),
                forall|j: int| 0 <= j < i ==> (#[trigger] self@.clients[j]).address != address,
            decreases self.order.len() - i,
        {
            let id = self.order[i];
            if let Some(record) = self.records.get(&id) {
                if record.address == address {
                    proof {
                        assert(self@.clients[i as int].address == address);
                        self@.lemma_found_in_place(i as int);
                    }
                    return Some(i);
                }
            }
            i += 1;
        }
        None
    }

    /// The identity registered for an address.
    pub fn lookup_id(&self, address: Address) -> (id: Option<u32>)
        requires
            self.wf(),
        ensures
            id == self@.id_of(address),
    {
        match self.find_address(address) {
            Some(i) => Some(self.order[i]),
            None => None,
        }
    }

    /// The address registered for an identity.
    pub fn lookup_address(&self, id: u32) -> (address: Option<Address>)
        requires
            self.wf(),
        ensures
            address == self@.address_of(id),
    {
        match self.record_of(id) {
            Some(record) => Some(record.address),
            None => None,
        }
    }

    /// The liveness flag of the client with this identity: whether it is
    /// marked as disconnected.
    pub fn is_disconnected(&self, id: u32) -> (disconnected: Option<bool>)
        requires
            self.wf(),
        ensures
            disconnected == self@.disconnected_of(id),
    {
        match self.record_of(id) {
            Some(record) => Some(record.disconnected),
            None => None,
        }
    }

    /// The mailbox of the client with this identity, to look at.
    pub fn mailbox_of(&self, id: u32) -> (mailbox: Option<&Mailbox>)
        requires
            self.wf(),
        ensures
            mailbox is Some <==> self@.knows_id(id),
            mailbox matches Some(m) ==> m.wf() && Some(m@) == self@.mailbox_of(id),
    {
        match self.record_of(id) {
            Some(record) => Some(&record.mailbox),
            None => None,
        }
    }

    /// Puts a message into the mailbox of the client with this identity.
    fn offer_to(&mut self, id: u32, message: ServerToClientMessage) -> (outcome: Delivery)
        requires
            old(self).wf(),
        ensures
            final(self).wf(),
            final(self).order@ == old(self).order@,
            final(self)@ == old(self)@.delivered(id, message@),
            outcome == old(self)@.delivery(id),
    {
        proof {
            self.lemma_keyed(id);
        }
        match self.records.remove(&id) {
            Some(mut record) => {
                let result = record.mailbox.push(message);
                let _ = self.records.insert(id, record);
                proof {
                    assert(self.records@.dom() =~= old(self).records@.dom());
                    assert(self@.clients =~= old(self)@.delivered(id, message@).clients);
                }
                if result.is_ok() {
                    Delivery::Enqueued
                } else {
                    Delivery::MailboxFull
                }
            },
            None => {
                proof {
                    assert(self.records@ =~= old(self).records@);
                    assert(self@.clients =~= old(self)@.delivered(id, message@).clients);
                }
                Delivery::UnknownClient
            },
        }
    }

    /// Takes from the mailbox of the client at a place in the order what one
    /// pass of the send loop sends to it.
    fn take_batch(&mut self, i: usize) -> (batch: Option<OutboundBatch>)
        requires
            old(self).wf(),
            i < old(self).order.len(),
        ensures
            final(self).wf(),
            final(self).order@ == old(self).order@,
            final(self)@ == (RegistryView {
                clients: old(self)@.clients.update(
                    i as int,
                    old(self)@.clients[i as int].drained(MAX_MESSAGES_PER_CLIENT_FRAME as nat),
                ),
                ..old(self)@
            }),
            batch matches Some(b) && b.taken_from(
                old(self)@.clients[i as int],
                MAX_MESSAGES_PER_CLIENT_FRAME as nat,
            ),
    {
        let id = self.order[i];
        proof {
            self.lemma_keyed(id);
            self@.lemma_found_in_place(i as int);
        }
        match self.records.remove(&id) {
            Some(mut record) => {
                let messages = record.mailbox.drain(MAX_MESSAGES_PER_CLIENT_FRAME);
                let batch = OutboundBatch { client_id: record.id, address: record.address, messages };
                let _ = self.records.insert(id, record);
                proof {
                    assert(self.records@.dom() =~= old(self).records@.dom());
                    assert(self@.clients =~= old(self)@.clients.update(
                        i as int,
                        old(self)@.clients[i as int].drained(MAX_MESSAGES_PER_CLIENT_FRAME as nat),
                    ));
                }
                Some(batch)
            },
            None => None,
        }
    }
}

/// What became of a message sent to one client.
#[derive(Clone, Copy, Debug, PartialEq, Eq, Structural)]
pub enum Delivery {
    /// The message waits in the client's mailbox.
    Enqueued,
    /// The client's mailbox was full: the message was dropped.
    MailboxFull,
    /// No client has this identity: the message was dropped.
    UnknownClient,
}

impl RegistryView {
    /// What becomes of a message sent to the client with this identity.
    pub open spec fn delivery(self, id: u32) -> Delivery {
        match self.mailbox_of(id) {
            None => Delivery::UnknownClient,
            Some(mailbox) => if mailbox.is_full() {
                Delivery::MailboxFull
            } else {
                Delivery::Enqueued
            },
        }
    }
}

impl ClientRegistry {
    /// Takes the next identity and leaves the records as they are.
    fn take_identity(&mut self) -> (id: u32)
        requires
            !old(self)@.exhausted(),
        ensures
            id == old(self)@.next_id,
            final(self)@ == (RegistryView { next_id: (id + 1) as u32, ..old(self)@ }),
            final(self).records@ == old(self).records@,
            final(self).order@ == old(self).order@,
            final(self).mailbox_capacity == old(self).mailbox_capacity,
            old(self).wf() ==> final(self).wf(),
    {
        let id = self.next_id;
        self.next_id = id + 1;
        id
    }
}

/// Hands out the next client identity. Identities count up from zero and are
/// never handed out twice.
pub fn get_next_connection_id(registry: &mut ClientRegistry) -> (id: u32)
    requires
        !old(registry)@.exhausted(),
    ensures
        id == old(registry)@.next_id,
        final(registry)@ == (RegistryView { next_id: (id + 1) as u32, ..old(registry)@ }),
        old(registry).wf() ==> final(registry).wf(),
{
    registry.take_identity()
}

/// Puts a message into one client's mailbox. Nothing happens when no client
/// has this identity; a full mailbox drops the message and counts the drop.
pub fn send_to_one_client(
    registry: &mut ClientRegistry,
    client_id: u32,
    message: ServerToClientMessage,
) -> (outcome: Delivery)
    requires
        old(registry).wf(),
    ensures
        final(registry).wf(),
        final(registry)@ == old(registry)@.delivered(client_id, message@),
        outcome == old(registry)@.delivery(client_id),
{
    registry.offer_to(client_id, message)
}

/// Puts a copy of a message into the mailbox of every client but the sender.
/// A full mailbox drops its copy and counts the drop.
pub fn broadcast_to_all_except(
    registry: &mut ClientRegistry,
    sender_id: u32,
    message: ServerToClientMessage,
)
    requires
        old(registry).wf(),
    ensures
        final(registry).wf(),
        final(registry)@ == old(registry)@.broadcast_except(sender_id, message@),
{
    let ghost before = registry@;
    let ghost target = before.broadcast_except(sender_id, message@);
    let mut i: usize = 0;
    while i < registry.order.len()
        invariant
            i <= registry.order.len(),
            registry.wf(),
            before.wf(),
            registry.order@ == old(registry).order@,
            registry@.next_id == before.next_id,
            registry@.mailbox_capacity == before.mailbox_capacity,
            registry@.clients.len() == before.clients.len(),
            target == before.broadcast_except(sender_id, message@),
            forall|j: int| 0 <= j < i ==> (#[trigger] registry@.clients[j]) == target.clients[j],
            forall|j: int|
                i <= j < before.clients.len() ==> (#[trigger] registry@.clients[j])
                    == before.clients[j],
        decreases registry.order.len() - i,
    {
        let ghost earlier = registry@;
        let id = registry.order[i];
        assert(earlier.clients[i as int] == before.clients[i as int]);
        assert(earlier.clients[i as int].id == id);
        if id != sender_id {
            let copy = message.clone();
            let _ = registry.offer_to(id, copy);
        }
        proof {
            assert(registry@.clients =~= earlier.clients.update(
                i as int,
                target.clients[i as int],
            ));
        }
        i += 1;
    }
    assert(registry@.clients =~= target.clients);
}

/// Puts a copy of a message into the mailbox of every client. A full mailbox
/// drops its copy and counts the drop.
pub fn broadcast_to_all(registry: &mut ClientRegistry, message: ServerToClientMessage)
    requires
        old(registry).wf(),
    ensures
        final(registry).wf(),
        final(registry)@ == old(registry)@.broadcast(message@),
{
    let ghost before = registry@;
    let ghost target = before.broadcast(message@);
    let mut i: usize = 0;
    while i < registry.order.len()
        invariant
            i <= registry.order.len(),
            registry.wf(),
            before.wf(),
            registry.order@ == old(registry).order@,
            registry@.next_id == before.next_id,
            registry@.mailbox_capacity == before.mailbox_capacity,
            registry@.clients.len() == before.clients.len(),
            target == before.broadcast(message@),
            forall|j: int| 0 <= j < i ==> (#[trigger] registry@.clients[j]) == target.clients[j],
            forall|j: int|
                i <= j < before.clients.len() ==> (#[trigger] registry@.clients[j])
                    == before.clients[j],
        decreases registry.order.len() - i,
    {
        let ghost earlier = registry@;
        let id = registry.order[i];
        assert(earlier.clients[i as int] == before.clients[i as int]);
        assert(earlier.clients[i as int].id == id);
        let copy = message.clone();
        let _ = registry.offer_to(id, copy);
        proof {
            assert(registry@.clients =~= earlier.clients.update(
                i as int,
                target.clients[i as int],
            ));
        }
        i += 1;
    }
    assert(registry@.clients =~= target.clients);
}

/// Everything the transport tasks and the simulation share: the registry and
/// the queue of client messages that wait for the simulation.
pub struct ServerContext {
    pub registry: ClientRegistry,
    pub inbound: InboundQueue,
}

/// The shared state as a mathematical value.
pub ghost struct ContextView {
    pub registry: RegistryView,
    pub inbound: QueueView<BundleView>,
}

impl ContextView {
    pub open spec fn wf(self) -> bool {
        self.registry.wf() && self.inbound.wf()
    }

    /// The identity that registering an address returns: the one the address
    /// already has, or else the next one to hand out.
    pub open spec fn assigned_id(self, address: Address) -> u32 {
        match self.registry.id_of(address) {
            Some(id) => id,
            None => self.registry.next_id,
        }
    }

    /// The state after an address was registered. A known address changes
    /// nothing. A new one gets a record with a fresh mailbox that holds its
    /// identity assignment, and a `Connect` from it joins the inbound queue.
    pub open spec fn registered(self, address: Address) -> ContextView {
        if self.registry.knows_address(address) {
            self
        } else {
            ContextView {
                registry: RegistryView {
                    clients: self.registry.clients.push(self.registry.new_client(address)),
                    next_id: (self.registry.next_id + 1) as u32,
                    ..self.registry
                },
                inbound: self.inbound.offered(
                    BundleView {
                        client_id: self.registry.next_id,
                        message: ClientMessageView::Connect,
                    },
                ),
            }
        }
    }

    /// Whether a datagram from this address can be given an identity.
    pub open spec fn admits(self, address: Address) -> bool {
        self.registry.knows_address(address) || !self.registry.exhausted()
    }

    /// The state after a datagram from `address` arrived. `decoded` is the
    /// message it held, or `None` when the payload did not decode. A decoded
    /// message is offered to the inbound queue; a `Disconnect` also removes
    /// its sender from the registry, whether or not the queue had room.
    pub open spec fn after_datagram(
        self,
        address: Address,
        decoded: Option<ClientMessageView>,
    ) -> ContextView {
        if !self.admits(address) {
            self
        } else {
            let registered = self.registered(address);
            let client_id = self.assigned_id(address);
            match decoded {
                Some(message) => ContextView {
                    registry: if message is Disconnect {
                        registered.registry.removed(client_id)
                    } else {
                        registered.registry
                    },
                    inbound: registered.inbound.offered(BundleView { client_id, message }),
                },
                None => registered,
            }
        }
    }

    /// What is reported of a datagram from `address`.
    pub open spec fn datagram_outcome(
        self,
        address: Address,
        decoded: Option<ClientMessageView>,
    ) -> Received {
        if !self.admits(address) {
            Received::Refused
        } else if decoded is None {
            Received::Undecodable { client_id: self.assigned_id(address) }
        } else if self.registered(address).inbound.is_full() {
            Received::QueueFull { client_id: self.assigned_id(address) }
        } else {
            Received::Queued { client_id: self.assigned_id(address) }
        }
    }
}

impl View for ServerContext {
    type V = ContextView;

    open spec fn view(&self) -> ContextView {
        ContextView { registry: self.registry@, inbound: self.inbound@ }
    }
}

impl ServerContext {
    pub open spec fn wf(&self) -> bool {
        self.registry.wf() && self.inbound.wf()
    }

    /// A well-formed context has a well-formed view.
    pub proof fn lemma_wf_view(&self)
        requires
            self.wf(),
        ensures
            self@.wf(),
    {
        self.registry.lemma_wf_view();
        self.inbound.lemma_wf_bounded();
    }

    /// Whether a datagram from this address can be given an identity: the
    /// address is registered, or an identity is left for it.
    pub fn admits(&self, address: Address) -> (admitted: bool)
        requires
            self.wf(),
        ensures
            admitted == self@.admits(address),
    {
        self.registry.has_identity_left() || self.registry.lookup_id(address).is_some()
    }

    /// Creates a context without clients, with the usual capacities.
    pub fn new() -> (context: ServerContext)
        ensures
            context.wf(),
            context@ == (ContextView {
                registry: RegistryView {
                    clients: Seq::empty(),
                    next_id: 0,
                    mailbox_capacity: MAILBOX_CAPACITY as nat,
                },
                inbound: QueueView::empty(INBOUND_QUEUE_CAPACITY as nat),
            }),
    {
        ServerContext::with_capacities(INBOUND_QUEUE_CAPACITY, MAILBOX_CAPACITY)
    }

    /// Creates a context without clients, with the given capacities.
    pub fn with_capacities(inbound_capacity: usize, mailbox_capacity: usize) -> (context:
        ServerContext)
        requires
            0 < inbound_capacity <= MAX_QUEUE_CAPACITY,
            0 < mailbox_capacity <= MAX_QUEUE_CAPACITY,
        ensures
            context.wf(),
            context@ == (ContextView {
                registry: RegistryView {
                    clients: Seq::empty(),
                    next_id: 0,
                    mailbox_capacity: mailbox_capacity as nat,
                },
                inbound: QueueView::empty(inbound_capacity as nat),
            }),
    {
        ServerContext {
            registry: ClientRegistry::new(mailbox_capacity),
            inbound: InboundQueue::new(inbound_capacity),
        }
    }
}

/// Registers the client behind an address and returns its identity.
///
/// A known address keeps its identity and nothing changes. A new address gets
/// the next identity, a record with an empty mailbox and a cleared liveness
/// flag; its identity assignment is put into that mailbox, and a `Connect`
/// from it is put into the inbound queue (and dropped if that queue is full).
pub fn add_client(context: &mut ServerContext, address: Address) -> (id: u32)
    requires
        old(context).wf(),
        old(context)@.admits(address),
    ensures
        final(context).wf(),
        final(context)@ == old(context)@.registered(address),
        id == old(context)@.assigned_id(address),
        final(context)@.registry.id_of(address) == Some(id),
{
    if let Some(i) = context.registry.find_address(address) {
        return context.registry.order[i];
    }
    proof {
        let id = context.registry.next_id;
        context.registry.lemma_keyed(id);
        if context.registry@.knows_id(id) {
            let k = context.registry@.position_of_id(id);
            assert(context.registry@.clients[k].id == id);
        }
    }
    let id = context.registry.take_identity();
    let mut mailbox = Mailbox::new(context.registry.mailbox_capacity);
    let _ = mailbox.push(ServerToClientMessage::ClientIdAssignment { new_client_id: id });
    let record = ClientRecord { id, address, mailbox, disconnected: false };
    let _ = context.registry.records.insert(id, record);
    context.registry.order.push(id);
    let _ = context.inbound.push(
        ClientToServerMessageBundle { client_id: id, message: ClientToServerMessage::Connect },
    );
    proof {
        let expected = old(context)@.registered(address);
        let last = context.registry.order.len() - 1;
        assert(context.registry.order[last] == id);
        assert forall|i: int| 0 <= i < last implies #[trigger] context.registry.order[i] == old(
            context,
        ).registry.order[i] && context.registry.order[i] != id by {
            assert(old(context).registry@.clients[i].id == old(context).registry.order[i]);
        }
        assert(context@.registry.clients =~= expected.registry.clients);
        assert(context@.registry.clients[last].address == address);
        assert forall|k: u32| #[trigger]
            context.registry.records@.contains_key(k) implies context.registry.order@.contains(
            k,
        ) by {
            if k == id {
                assert(context.registry.order@[last] == k);
            } else {
                assert(old(context).registry.records@.contains_key(k));
                let j = choose|j: int|
                    0 <= j < old(context).registry.order@.len() && old(
                        context,
                    ).registry.order@[j] == k;
                assert(context.registry.order@[j] == k);
            }
        }
    }
    id
}

/// Removes a client: its record, and with it its address, its mailbox and
/// whatever still waited there. Returns whether there was such a client; an
/// unknown identity changes nothing.
pub fn remove_client(registry: &mut ClientRegistry, id: u32) -> (removed: bool)
    requires
        old(registry).wf(),
    ensures
        final(registry).wf(),
        final(registry)@ == old(registry)@.removed(id),
        removed == old(registry)@.knows_id(id),
{
    proof {
        registry.lemma_keyed(id);
    }
    if !registry.records.contains_key(&id) {
        return false;
    }
    let ghost place = registry@.position_of_id(id);
    let mut i: usize = 0;
    while i < registry.order.len()
        invariant
            i <= place < registry.order.len(),
            registry.order[place] == id,
            registry.wf(),
            place == registry@.position_of_id(id),
            registry.order@ == old(registry).order@,
            registry.records@ == old(registry).records@,
        ensures
            i == place,
        decreases registry.order.len() - i,
    {
        if registry.order[i] == id {
            proof {
                assert(registry@.clients[i as int].id == id);
                registry@.lemma_found_in_place(i as int);
            }
            break ;
        }
        i += 1;
    }
    let _ = registry.records.remove(&id);
    let _ = registry.order.remove(i);
    proof {
        let after = old(registry)@.removed(id);
        old(registry)@.lemma_removed_from_all_views(id);
        assert forall|k: int| 0 <= k < registry.order.len() implies #[trigger] registry.order[k]
            == old(registry).order[if k < place {
            k
        } else {
            k + 1
        }] && registry.order[k] != id by {
            let j = if k < place {
                k
            } else {
                k + 1
            };
            assert(old(registry)@.clients[j].id == old(registry).order[j]);
        }
        assert(registry@.clients =~= after.clients);
        assert forall|k: u32| #[trigger]
            registry.records@.contains_key(k) implies registry.order@.contains(k) by {
            assert(old(registry).records@.contains_key(k));
            let j = choose|j: int|
                0 <= j < old(registry).order@.len() && old(registry).order@[j] == k;
            let m = if j < place {
                j
            } else {
                j - 1
            };
            assert(registry.order@[m] == k);
        }
    }
    true
}

/// What became of a datagram.
#[derive(Clone, Copy, Debug, PartialEq, Eq, Structural)]
pub enum Received {
    /// Its message waits in the inbound queue.
    Queued { client_id: u32 },
    /// The inbound queue was full: the message was dropped.
    QueueFull { client_id: u32 },
    /// The payload did not decode: the datagram was dropped.
    Undecodable { client_id: u32 },
    /// The address is new and no identity is left: the datagram was dropped.
    Refused,
}

/// The message of a decode result, as a mathematical value.
pub open spec fn decoded_view(decoded: Result<ClientToServerMessage, DecodeError>) -> Option<
    ClientMessageView,
> {
    match decoded {
        Ok(message) => Some(message@),
        Err(_) => None,
    }
}

/// Takes in one datagram: what one round of the receive loop does once the
/// datagram is read and its payload decoded.
///
/// The sender is looked up by its address and registered if it is new. A
/// decoded message then joins the inbound queue under the sender's identity,
/// or is dropped if the queue is full. A `Disconnect` ends the sender's
/// registration: its record is removed, whether or not the message found
/// room in the queue. A payload that did not decode is dropped; the sender
/// stays registered.
pub fn handle_inbound_datagram(
    context: &mut ServerContext,
    address: Address,
    decoded: Result<ClientToServerMessage, DecodeError>,
) -> (outcome: Received)
    requires
        old(context).wf(),
    ensures
        final(context).wf(),
        final(context)@ == old(context)@.after_datagram(address, decoded_view(decoded)),
        outcome == old(context)@.datagram_outcome(address, decoded_view(decoded)),
{
    if !context.admits(address) {
        return Received::Refused;
    }
    let client_id = add_client(context, address);
    match decoded {
        Ok(message) => {
            let leaving = match message {
                ClientToServerMessage::Disconnect => true,
                _ => false,
            };
            let result = context.inbound.push(ClientToServerMessageBundle { client_id, message });
            if leaving {
                let _ = remove_client(&mut context.registry, client_id);
            }
            if result.is_ok() {
                Received::Queued { client_id }
            } else {
                Received::QueueFull { client_id }
            }
        },
        Err(_) => Received::Undecodable { client_id },
    }
}

/// What one pass of the send loop has to send to one client.
pub struct OutboundBatch {
    pub client_id: u32,
    pub address: Address,
    /// The messages to send, oldest first.
    pub messages: Vec<ServerToClientMessage>,
}

impl OutboundBatch {
    /// The batch holds what a pass with the given cap takes from the client.
    pub open spec fn taken_from(&self, client: ClientView, limit: nat) -> bool {
        &&& self.client_id == client.id
        &&& self.address == client.address
        &&& self.messages.len() == client.sendable(limit)
        &&& forall|j: int|
            0 <= j < self.messages.len() ==> (#[trigger] self.messages[j])@
                == client.mailbox.items[j]
    }
}

/// Takes from every mailbox what one pass of the send loop sends: the oldest
/// messages, at most `MAX_MESSAGES_PER_CLIENT_FRAME` per client, so that one
/// backed-up client cannot hold up the others. There is one batch per client,
/// in the order of the registry; each names the address to send to.
pub fn collect_outbound_messages(registry: &mut ClientRegistry) -> (batches: Vec<OutboundBatch>)
    requires
        old(registry).wf(),
    ensures
        final(registry).wf(),
        final(registry)@ == old(registry)@.drained(MAX_MESSAGES_PER_CLIENT_FRAME as nat),
        batches.len() == old(registry)@.clients.len(),
        forall|i: int|
            0 <= i < batches.len() ==> (#[trigger] batches[i]).taken_from(
                old(registry)@.clients[i],
                MAX_MESSAGES_PER_CLIENT_FRAME as nat,
            ),
{
    let ghost before = registry@;
    let ghost limit = MAX_MESSAGES_PER_CLIENT_FRAME as nat;
    let ghost target = before.drained(limit);
    let mut batches: Vec<OutboundBatch> = Vec::new();
    let mut i: usize = 0;
    while i < registry.order.len()
        invariant
            i <= registry.order.len(),
            batches.len() == i,
            registry.wf(),
            before.wf(),
            limit == MAX_MESSAGES_PER_CLIENT_FRAME,
            registry.order@ == old(registry).order@,
            registry@.next_id == before.next_id,
            registry@.mailbox_capacity == before.mailbox_capacity,
            registry@.clients.len() == before.clients.len(),
            target == before.drained(limit),
            forall|j: int| 0 <= j < i ==> (#[trigger] registry@.clients[j]) == target.clients[j],
            forall|j: int|
                i <= j < before.clients.len() ==> (#[trigger] registry@.clients[j])
                    == before.clients[j],
            forall|j: int|
                0 <= j < i ==> (#[trigger] batches[j]).taken_from(before.clients[j], limit),
        decreases registry.order.len() - i,
    {
        assert(registry@.clients[i as int] == before.clients[i as int]);
        if let Some(batch) = registry.take_batch(i) {
            batches.push(batch);
        }
        i += 1;
    }
    assert(registry@.clients =~= target.clients);
    batches
}

impl RegistryView {
    /// In a well-formed registry a client is found, by its identity and by its
    /// address, at the place where it stands.
    pub proof fn lemma_found_in_place(self, i: int)
        requires
            self.wf(),
            0 <= i < self.clients.len(),
        ensures
            self.knows_id(self.clients[i].id),
            self.knows_address(self.clients[i].address),
            self.position_of_id(self.clients[i].id) == i,
            self.position_of_address(self.clients[i].address) == i,
    {
        let c = self.clients[i];
        assert(self.clients[i].id == c.id);
        assert(self.clients[i].address == c.address);
        let by_id = self.position_of_id(c.id);
        let by_address = self.position_of_address(c.address);
        assert(self.clients[by_id].id == c.id);
        assert(self.clients[by_address].address == c.address);
    }

    /// The three views of the registry agree: the identity found for an
    /// address leads back to that address and has a mailbox.
    pub proof fn lemma_views_agree_on_address(self, address: Address)
        requires
            self.wf(),
        ensures
            self.id_of(address) matches Some(id) ==> self.address_of(id) == Some(address)
                && self.mailbox_of(id) is Some,
    {
        if self.knows_address(address) {
            let i = self.position_of_address(address);
            self.lemma_found_in_place(i);
        }
    }

    /// The three views of the registry agree: an identity has an address
    /// exactly when it has a mailbox, and its address leads back to it.
    pub proof fn lemma_views_agree_on_id(self, id: u32)
        requires
            self.wf(),
        ensures
            self.address_of(id) is Some <==> self.knows_id(id),
            self.mailbox_of(id) is Some <==> self.knows_id(id),
            self.address_of(id) matches Some(address) ==> self.id_of(address) == Some(id),
    {
        if self.knows_id(id) {
            let i = self.position_of_id(id);
            self.lemma_found_in_place(i);
        }
    }

    /// The clients that stay when one is removed keep their order and are
    /// what they were.
    proof fn lemma_removed_shifts(self, id: u32)
        requires
            self.wf(),
            self.knows_id(id),
        ensures
            self.removed(id).clients.len() == self.clients.len() - 1,
            forall|k: int|
                0 <= k < self.removed(id).clients.len() ==> (#[trigger] self.removed(
                    id,
                ).clients[k]) == self.clients[if k < self.position_of_id(id) {
                    k
                } else {
                    k + 1
                }],
            self.removed(id).wf(),
    {
        self.lemma_found_in_place(self.position_of_id(id));
    }

    /// Removing a client removes it from all three views at once.
    pub proof fn lemma_removed_from_all_views(self, id: u32)
        requires
            self.wf(),
        ensures
            self.removed(id).wf(),
            !self.removed(id).knows_id(id),
            self.removed(id).address_of(id) is None,
            self.removed(id).mailbox_of(id) is None,
            self.address_of(id) matches Some(address) ==> self.removed(id).id_of(address) is None,
    {
        let after = self.removed(id);
        if self.knows_id(id) {
            let i = self.position_of_id(id);
            self.lemma_found_in_place(i);
            self.lemma_removed_shifts(id);
            if after.knows_id(id) {
                let k = after.position_of_id(id);
                assert(after.clients[k].id == id);
            }
            if after.knows_address(self.clients[i].address) {
                let k = after.position_of_address(self.clients[i].address);
                assert(after.clients[k].address == self.clients[i].address);
            }
        }
    }

    /// Removing a client leaves every other client as it was, in all three
    /// views.
    pub proof fn lemma_removed_keeps_others(self, id: u32, other: u32)
        requires
            self.wf(),
            other != id,
        ensures
            self.removed(id).knows_id(other) == self.knows_id(other),
            self.removed(id).address_of(other) == self.address_of(other),
            self.removed(id).mailbox_of(other) == self.mailbox_of(other),
            self.removed(id).disconnected_of(other) == self.disconnected_of(other),
    {
        let after = self.removed(id);
        if self.knows_id(id) {
            let i = self.position_of_id(id);
            self.lemma_removed_shifts(id);
            if self.knows_id(other) {
                let j = self.position_of_id(other);
                self.lemma_found_in_place(j);
                let k = if j < i {
                    j
                } else {
                    j - 1
                };
                assert(after.clients[k] == self.clients[j]);
                after.lemma_found_in_place(k);
            }
            if after.knows_id(other) {
                let k = after.position_of_id(other);
                after.lemma_found_in_place(k);
                let j = if k < i {
                    k
                } else {
                    k + 1
                };
                assert(self.clients[j].id == other);
                self.lemma_found_in_place(j);
            }
        }
    }

    /// A broadcast that leaves out the sender reaches the mailbox of every
    /// other client and never the sender's.
    pub proof fn lemma_broadcast_except_spares_sender(
        self,
        sender: u32,
        message: ServerMessageView,
        id: u32,
    )
        requires
            self.wf(),
            self.knows_id(id),
        ensures
            self.broadcast_except(sender, message).wf(),
            self.broadcast_except(sender, message).knows_id(id),
            self.broadcast_except(sender, message).address_of(id) == self.address_of(id),
            id == sender ==> self.broadcast_except(sender, message).mailbox_of(id)
                == self.mailbox_of(id),
            id != sender ==> self.broadcast_except(sender, message).mailbox_of(id) == Some(
                self.mailbox_of(id)->Some_0.offered(message),
            ),
    {
        let after = self.broadcast_except(sender, message);
        let i = self.position_of_id(id);
        self.lemma_found_in_place(i);
        assert(after.wf());
        assert(after.clients[i].id == id);
        after.lemma_found_in_place(i);
    }

    /// A broadcast reaches the mailbox of every client.
    pub proof fn lemma_broadcast_reaches_all(self, message: ServerMessageView, id: u32)
        requires
            self.wf(),
            self.knows_id(id),
        ensures
            self.broadcast(message).wf(),
            self.broadcast(message).knows_id(id),
            self.broadcast(message).mailbox_of(id) == Some(
                self.mailbox_of(id)->Some_0.offered(message),
            ),
    {
        let after = self.broadcast(message);
        let i = self.position_of_id(id);
        self.lemma_found_in_place(i);
        assert(after.wf());
        assert(after.clients[i].id == id);
        after.lemma_found_in_place(i);
    }

    /// A message sent to one client reaches its mailbox and no other.
    pub proof fn lemma_delivered_to_one(self, target: u32, message: ServerMessageView, id: u32)
        requires
            self.wf(),
            self.knows_id(id),
        ensures
            self.delivered(target, message).wf(),
            self.delivered(target, message).knows_id(id),
            id != target ==> self.delivered(target, message).mailbox_of(id) == self.mailbox_of(id),
            id == target ==> self.delivered(target, message).mailbox_of(id) == Some(
                self.mailbox_of(id)->Some_0.offered(message),
            ),
    {
        let after = self.delivered(target, message);
        let i = self.position_of_id(id);
        self.lemma_found_in_place(i);
        assert(after.wf());
        assert(after.clients[i].id == id);
        after.lemma_found_in_place(i);
    }
}

impl ContextView {
    /// Registering keeps the state well-formed, and the address then has the
    /// identity that was returned, an address and a mailbox.
    pub proof fn lemma_registered(self, address: Address)
        requires
            self.wf(),
            self.admits(address),
        ensures
            self.registered(address).wf(),
            self.registered(address).registry.id_of(address) == Some(self.assigned_id(address)),
            self.registered(address).registry.address_of(self.assigned_id(address)) == Some(
                address,
            ),
            self.registered(address).registry.mailbox_of(self.assigned_id(address)) is Some,
            !self.registry.knows_address(address) ==> self.registered(
                address,
            ).registry.disconnected_of(self.assigned_id(address)) == Some(false)
                && self.registered(address).registry.mailbox_of(self.assigned_id(address))
                == Some(self.registry.new_client(address).mailbox),
    {
        let after = self.registered(address);
        if self.registry.knows_address(address) {
            self.registry.lemma_views_agree_on_address(address);
        } else {
            let last = self.registry.clients.len() as int;
            assert(after.registry.clients[last] == self.registry.new_client(address));
            assert forall|i: int| 0 <= i < last implies (#[trigger] after.registry.clients[i])
                == self.registry.clients[i] by {}
            assert(after.registry.wf());
            after.registry.lemma_found_in_place(last);
        }
    }

    /// Registering an address twice, with no removal in between, returns the
    /// same identity both times, and the second time changes nothing.
    pub proof fn lemma_register_idempotent(self, address: Address)
        requires
            self.wf(),
            self.admits(address),
        ensures
            self.registered(address).admits(address),
            self.registered(address).assigned_id(address) == self.assigned_id(address),
            self.registered(address).registered(address) == self.registered(address),
    {
        self.lemma_registered(address);
    }

    /// Datagrams from one address belong to one client: a second datagram
    /// gets the identity that the first one got, and registers nobody.
    pub proof fn lemma_one_client_per_address(
        self,
        address: Address,
        first: ClientMessageView,
        second: ClientMessageView,
    )
        requires
            self.wf(),
            self.admits(address),
            !(first is Disconnect),
        ensures
            ({
                let once = self.after_datagram(address, Some(first));
                let twice = once.after_datagram(address, Some(second));
                let client_id = self.assigned_id(address);
                &&& once.registry == self.registered(address).registry
                &&& once.admits(address)
                &&& once.assigned_id(address) == client_id
                &&& twice.inbound == once.inbound.offered(BundleView { client_id, message: second })
                &&& !(second is Disconnect) ==> twice.registry == once.registry
            }),
    {
        self.lemma_registered(address);
    }

    /// A `Disconnect` ends the sender's registration: afterwards neither its
    /// address nor its identity is known, and the registry is well-formed.
    pub proof fn lemma_disconnect_unregisters(self, address: Address)
        requires
            self.wf(),
            self.admits(address),
        ensures
            ({
                let after = self.after_datagram(address, Some(ClientMessageView::Disconnect));
                &&& after.wf()
                &&& after.registry.id_of(address) is None
                &&& !after.registry.knows_id(self.assigned_id(address))
                &&& after.inbound == self.registered(address).inbound.offered(
                    BundleView {
                        client_id: self.assigned_id(address),
                        message: ClientMessageView::Disconnect,
                    },
                )
            }),
    {
        self.lemma_registered(address);
        self.registered(address).registry.lemma_removed_from_all_views(self.assigned_id(address));
    }

    /// A datagram whose payload does not decode puts nothing of its own into
    /// the inbound queue: from a known address it changes nothing at all, and
    /// from a new address it does no more than register the sender.
    pub proof fn lemma_undecodable_is_dropped(self, address: Address)
        ensures
            self.registry.knows_address(address) ==> self.after_datagram(address, None) == self,
            self.admits(address) ==> self.after_datagram(address, None) == self.registered(
                address,
            ),
            !self.admits(address) ==> self.after_datagram(address, None) == self,
    {
    }
}

/// A change to the set of clients.
pub ghost enum RegistryChange {
    /// The client behind an address registers.
    Register { address: Address },
    /// The client with an identity is removed.
    Unregister { id: u32 },
}

impl ContextView {
    /// The state after one change. Registering does nothing when the address
    /// is new and no identity is left.
    pub open spec fn changed(self, change: RegistryChange) -> ContextView {
        match change {
            RegistryChange::Register { address } => if self.admits(address) {
                self.registered(address)
            } else {
                self
            },
            RegistryChange::Unregister { id } => ContextView {
                registry: self.registry.removed(id),
                ..self
            },
        }
    }

    /// The state after the changes were made, first to last.
    pub open spec fn changed_all(self, changes: Seq<RegistryChange>) -> ContextView
        decreases changes.len(),
    {
        if changes.len() == 0 {
            self
        } else {
            self.changed_all(changes.drop_last()).changed(changes.last())
        }
    }

    /// Whatever clients register and are removed, in whatever order, the
    /// registry stays well-formed, and so its three views agree afterwards:
    /// the identity found for an address leads back to that address and has
    /// a mailbox.
    pub proof fn lemma_views_agree_after_changes(
        self,
        changes: Seq<RegistryChange>,
        address: Address,
    )
        requires
            self.wf(),
        ensures
            self.changed_all(changes).wf(),
            self.changed_all(changes).registry.id_of(address) matches Some(id) ==> self.changed_all(
                changes,
            ).registry.address_of(id) == Some(address) && self.changed_all(
                changes,
            ).registry.mailbox_of(id) is Some,
        decreases changes.len(),
    {
        if changes.len() > 0 {
            let earlier = self.changed_all(changes.drop_last());
            self.lemma_views_agree_after_changes(changes.drop_last(), address);
            match changes.last() {
                RegistryChange::Register { address: registering } => {
                    if earlier.admits(registering) {
                        earlier.lemma_registered(registering);
                    }
                },
                RegistryChange::Unregister { id } => {
                    earlier.registry.lemma_removed_from_all_views(id);
                },
            }
        }
        self.changed_all(changes).registry.lemma_views_agree_on_address(address);
    }
}

} // verus!
