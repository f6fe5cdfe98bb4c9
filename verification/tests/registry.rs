use multiplayer::common::address::Address;
use multiplayer::common::client_to_server::{ClientToServerMessage, ClientToServerMessageBundle};
use multiplayer::common::queues::InboundQueue;
use multiplayer::common::server_to_client::ServerToClientMessage;
use multiplayer::common::wire::DecodeError;
use multiplayer::server::connection_handling::{
    add_client, broadcast_to_all, broadcast_to_all_except, collect_outbound_messages,
    get_next_connection_id, handle_inbound_datagram, remove_client, send_to_one_client,
    ClientRegistry, Delivery, Received, ServerContext, INBOUND_QUEUE_CAPACITY, MAILBOX_CAPACITY,
    MAX_MESSAGES_PER_CLIENT_FRAME,
};

fn addr(port: u16) -> Address {
    Address::V4 { ip: 0x7f00_0001, port }
}

fn assignment(id: u32) -> ServerToClientMessage {
    ServerToClientMessage::ClientIdAssignment { new_client_id: id }
}

fn connect(client_id: u32) -> ClientToServerMessageBundle {
    ClientToServerMessageBundle { client_id, message: ClientToServerMessage::Connect }
}

fn corrupt(length: usize) -> Result<ClientToServerMessage, DecodeError> {
    Err(DecodeError { length, cause: "unexpected end of input".to_string() })
}

/// A context with `n` clients on ports 1000, 1001, ... whose mailboxes and
/// inbound queue are empty.
fn context_with_clients(n: u16) -> ServerContext {
    let mut context = ServerContext::new();
    for port in 0..n {
        add_client(&mut context, addr(1000 + port));
    }
    while context.inbound.pop().is_some() {}
    collect_outbound_messages(&mut context.registry);
    context
}

fn mailbox_contents(context: &mut ServerContext) -> Vec<(u32, Vec<ServerToClientMessage>)> {
    collect_outbound_messages(&mut context.registry)
        .into_iter()
        .map(|batch| (batch.client_id, batch.messages))
        .collect()
}

#[test]
fn new_context_has_the_usual_capacities() {
    let mut context = ServerContext::new();
    assert_eq!(INBOUND_QUEUE_CAPACITY, 1000);
    assert_eq!(MAILBOX_CAPACITY, 100);
    assert_eq!(MAX_MESSAGES_PER_CLIENT_FRAME, 128);
    assert_eq!(context.inbound.capacity(), 1000);
    assert_eq!(context.inbound.len(), 0);
    assert_eq!(context.registry.len(), 0);
    let id = add_client(&mut context, addr(1));
    assert_eq!(context.registry.mailbox_of(id).map(|m| m.capacity()), Some(100));
}

#[test]
fn first_client_gets_identity_zero_and_is_told() {
    let mut context = ServerContext::new();
    let id = add_client(&mut context, addr(4000));
    assert_eq!(id, 0);
    assert_eq!(context.registry.len(), 1);
    assert_eq!(context.registry.lookup_id(addr(4000)), Some(0));
    assert_eq!(context.registry.lookup_address(0), Some(addr(4000)));
    assert_eq!(context.registry.mailbox_of(0).map(|m| m.len()), Some(1));
    assert_eq!(context.inbound.pop(), Some(connect(0)));
    assert_eq!(context.inbound.pop(), None);
    assert_eq!(mailbox_contents(&mut context), vec![(0, vec![assignment(0)])]);
}

#[test]
fn identities_count_up() {
    let mut context = ServerContext::new();
    assert_eq!(add_client(&mut context, addr(1)), 0);
    assert_eq!(add_client(&mut context, addr(2)), 1);
    assert_eq!(add_client(&mut context, addr(3)), 2);
    assert_eq!(context.registry.len(), 3);
}

#[test]
fn registering_twice_returns_the_same_identity() {
    let mut context = ServerContext::new();
    let first = add_client(&mut context, addr(4000));
    let second = add_client(&mut context, addr(4000));
    assert_eq!(first, second);
    assert_eq!(context.registry.len(), 1);
    assert_eq!(context.inbound.len(), 1);
    assert_eq!(context.registry.mailbox_of(first).map(|m| m.len()), Some(1));
}

#[test]
fn addresses_that_differ_in_any_field_are_different_clients() {
    let mut context = ServerContext::new();
    let a = add_client(&mut context, Address::V4 { ip: 1, port: 80 });
    let b = add_client(&mut context, Address::V4 { ip: 1, port: 81 });
    let c = add_client(&mut context, Address::V4 { ip: 2, port: 80 });
    let d = add_client(
        &mut context,
        Address::V6 { ip: 1, port: 80, flowinfo: 0, scope_id: 0 },
    );
    let e = add_client(
        &mut context,
        Address::V6 { ip: 1, port: 80, flowinfo: 0, scope_id: 1 },
    );
    assert_eq!((a, b, c, d, e), (0, 1, 2, 3, 4));
}

#[test]
fn the_three_views_agree() {
    let mut context = context_with_clients(5);
    remove_client(&mut context.registry, 2);
    add_client(&mut context, addr(2000));
    for port in 0..5u16 {
        let address = addr(1000 + port);
        match context.registry.lookup_id(address) {
            Some(id) => {
                assert_eq!(context.registry.lookup_address(id), Some(address));
                assert!(context.registry.mailbox_of(id).is_some());
            }
            None => assert_eq!(port, 2),
        }
    }
    for id in 0..8u32 {
        let address = context.registry.lookup_address(id);
        assert_eq!(address.is_some(), context.registry.mailbox_of(id).is_some());
        if let Some(address) = address {
            assert_eq!(context.registry.lookup_id(address), Some(id));
        }
    }
}

#[test]
fn unknown_lookups_find_nothing() {
    let context = context_with_clients(2);
    assert_eq!(context.registry.lookup_id(addr(9)), None);
    assert_eq!(context.registry.lookup_address(2), None);
    assert!(context.registry.mailbox_of(2).is_none());
}

#[test]
fn removal_clears_all_three_views() {
    let mut context = context_with_clients(3);
    assert!(remove_client(&mut context.registry, 1));
    assert_eq!(context.registry.len(), 2);
    assert_eq!(context.registry.lookup_address(1), None);
    assert_eq!(context.registry.lookup_id(addr(1001)), None);
    assert!(context.registry.mailbox_of(1).is_none());
    assert_eq!(context.registry.lookup_id(addr(1000)), Some(0));
    assert_eq!(context.registry.lookup_id(addr(1002)), Some(2));
}

#[test]
fn removing_an_unknown_identity_changes_nothing() {
    let mut context = context_with_clients(2);
    assert!(!remove_client(&mut context.registry, 7));
    assert!(remove_client(&mut context.registry, 0));
    assert!(!remove_client(&mut context.registry, 0));
    assert_eq!(context.registry.len(), 1);
    assert_eq!(context.registry.lookup_id(addr(1001)), Some(1));
}

#[test]
fn identities_are_not_reused_after_removal() {
    let mut context = context_with_clients(2);
    assert!(remove_client(&mut context.registry, 1));
    assert_eq!(add_client(&mut context, addr(1001)), 2);
    assert_eq!(context.registry.lookup_address(1), None);
}

#[test]
fn next_connection_id_counts_up_from_the_start() {
    let mut registry = ClientRegistry::new(10);
    assert_eq!(get_next_connection_id(&mut registry), 0);
    assert_eq!(get_next_connection_id(&mut registry), 1);
    let mut registry = ClientRegistry::starting_at(41, 10);
    assert_eq!(get_next_connection_id(&mut registry), 41);
    assert_eq!(get_next_connection_id(&mut registry), 42);
}

#[test]
fn connect_is_dropped_when_the_inbound_queue_is_full() {
    let mut context = ServerContext::with_capacities(1, 4);
    assert_eq!(add_client(&mut context, addr(1)), 0);
    assert_eq!(add_client(&mut context, addr(2)), 1);
    assert_eq!(context.inbound.len(), 1);
    assert_eq!(context.inbound.dropped(), 1);
    assert_eq!(context.inbound.pop(), Some(connect(0)));
    assert_eq!(context.registry.lookup_id(addr(2)), Some(1));
}

#[test]
fn send_to_one_client_reports_what_happened() {
    let mut context = ServerContext::with_capacities(10, 2);
    let id = add_client(&mut context, addr(1));
    let welcome = ServerToClientMessage::PlayerJoined { id: 9 };
    assert_eq!(
        send_to_one_client(&mut context.registry, id, welcome.clone()),
        Delivery::Enqueued
    );
    assert_eq!(
        send_to_one_client(&mut context.registry, id, welcome.clone()),
        Delivery::MailboxFull
    );
    assert_eq!(
        send_to_one_client(&mut context.registry, 5, welcome.clone()),
        Delivery::UnknownClient
    );
    assert_eq!(context.registry.mailbox_of(id).map(|m| m.dropped()), Some(1));
    assert_eq!(mailbox_contents(&mut context), vec![(0, vec![assignment(0), welcome])]);
}

#[test]
fn broadcast_except_skips_the_sender() {
    let mut context = context_with_clients(4);
    let message = ServerToClientMessage::PlayerLeft { id: 2 };
    broadcast_to_all_except(&mut context.registry, 2, message.clone());
    assert_eq!(
        mailbox_contents(&mut context),
        vec![
            (0, vec![message.clone()]),
            (1, vec![message.clone()]),
            (2, vec![]),
            (3, vec![message.clone()]),
        ]
    );
}

#[test]
fn broadcast_except_an_unknown_sender_reaches_everyone() {
    let mut context = context_with_clients(2);
    let message = ServerToClientMessage::PlayerLeft { id: 9 };
    broadcast_to_all_except(&mut context.registry, 9, message.clone());
    assert_eq!(
        mailbox_contents(&mut context),
        vec![(0, vec![message.clone()]), (1, vec![message.clone()])]
    );
}

#[test]
fn broadcast_reaches_everyone() {
    let mut context = context_with_clients(3);
    let message = ServerToClientMessage::ChatMessage { from: 1, message: "hi".to_string() };
    broadcast_to_all(&mut context.registry, message.clone());
    assert_eq!(
        mailbox_contents(&mut context),
        vec![
            (0, vec![message.clone()]),
            (1, vec![message.clone()]),
            (2, vec![message.clone()]),
        ]
    );
}

#[test]
fn a_full_mailbox_does_not_hold_up_the_others() {
    let mut context = ServerContext::with_capacities(10, 2);
    let slow = add_client(&mut context, addr(1));
    let fast = add_client(&mut context, addr(2));
    let filler = ServerToClientMessage::PlayerJoined { id: 7 };
    assert_eq!(send_to_one_client(&mut context.registry, slow, filler.clone()), Delivery::Enqueued);
    let message = ServerToClientMessage::PlayerLeft { id: 7 };
    broadcast_to_all(&mut context.registry, message.clone());
    assert_eq!(context.registry.mailbox_of(slow).map(|m| m.dropped()), Some(1));
    assert_eq!(context.registry.mailbox_of(fast).map(|m| m.dropped()), Some(0));
    assert_eq!(
        mailbox_contents(&mut context),
        vec![(slow, vec![assignment(slow), filler]), (fast, vec![assignment(fast), message])]
    );
}

#[test]
fn datagram_from_a_new_address_registers_and_queues() {
    let mut context = ServerContext::new();
    let outcome = handle_inbound_datagram(
        &mut context,
        addr(5000),
        Ok(ClientToServerMessage::RequestToSpawnPlayer),
    );
    assert_eq!(outcome, Received::Queued { client_id: 0 });
    assert_eq!(context.registry.lookup_id(addr(5000)), Some(0));
    assert_eq!(context.inbound.pop(), Some(connect(0)));
    assert_eq!(
        context.inbound.pop(),
        Some(ClientToServerMessageBundle {
            client_id: 0,
            message: ClientToServerMessage::RequestToSpawnPlayer
        })
    );
    assert_eq!(context.inbound.pop(), None);
}

#[test]
fn datagram_from_a_known_address_keeps_its_identity() {
    let mut context = context_with_clients(3);
    let outcome = handle_inbound_datagram(
        &mut context,
        addr(1001),
        Ok(ClientToServerMessage::ChatMessage { message: "hello".to_string() }),
    );
    assert_eq!(outcome, Received::Queued { client_id: 1 });
    assert_eq!(context.registry.len(), 3);
    assert_eq!(
        context.inbound.pop(),
        Some(ClientToServerMessageBundle {
            client_id: 1,
            message: ClientToServerMessage::ChatMessage { message: "hello".to_string() }
        })
    );
    assert_eq!(context.inbound.pop(), None);
}

#[test]
fn corrupt_datagram_from_a_known_address_changes_nothing() {
    let mut context = context_with_clients(2);
    let outcome = handle_inbound_datagram(&mut context, addr(1000), corrupt(3));
    assert_eq!(outcome, Received::Undecodable { client_id: 0 });
    assert_eq!(context.inbound.len(), 0);
    assert_eq!(context.inbound.dropped(), 0);
    assert_eq!(context.registry.len(), 2);
    assert_eq!(mailbox_contents(&mut context), vec![(0, vec![]), (1, vec![])]);
}

#[test]
fn corrupt_datagram_from_a_new_address_only_registers() {
    let mut context = ServerContext::new();
    let outcome = handle_inbound_datagram(&mut context, addr(1), corrupt(0));
    assert_eq!(outcome, Received::Undecodable { client_id: 0 });
    assert_eq!(context.registry.lookup_id(addr(1)), Some(0));
    assert_eq!(context.inbound.pop(), Some(connect(0)));
    assert_eq!(context.inbound.pop(), None);
}

#[test]
fn datagram_is_dropped_when_the_inbound_queue_is_full() {
    let mut context = ServerContext::with_capacities(2, 4);
    let chat = |text: &str| Ok(ClientToServerMessage::ChatMessage { message: text.to_string() });
    assert_eq!(
        handle_inbound_datagram(&mut context, addr(1), chat("a")),
        Received::Queued { client_id: 0 }
    );
    assert_eq!(
        handle_inbound_datagram(&mut context, addr(1), chat("b")),
        Received::QueueFull { client_id: 0 }
    );
    assert_eq!(context.inbound.len(), 2);
    assert_eq!(context.inbound.dropped(), 1);
    assert_eq!(
        handle_inbound_datagram(&mut context, addr(2), chat("c")),
        Received::QueueFull { client_id: 1 }
    );
    assert_eq!(context.inbound.dropped(), 3);
    assert_eq!(context.registry.lookup_id(addr(2)), Some(1));
}

#[test]
fn datagram_is_refused_when_no_identity_is_left() {
    let mut context = ServerContext {
        registry: ClientRegistry::starting_at(u32::MAX - 1, 4),
        inbound: InboundQueue::new(8),
    };
    assert!(context.registry.has_identity_left());
    assert!(context.admits(addr(1)));
    assert_eq!(
        handle_inbound_datagram(&mut context, addr(1), Ok(ClientToServerMessage::Connect)),
        Received::Queued { client_id: u32::MAX - 1 }
    );
    assert!(!context.registry.has_identity_left());
    assert!(context.admits(addr(1)));
    assert!(!context.admits(addr(2)));
    assert_eq!(
        handle_inbound_datagram(&mut context, addr(2), Ok(ClientToServerMessage::Connect)),
        Received::Refused
    );
    assert_eq!(context.registry.len(), 1);
    assert_eq!(context.registry.lookup_id(addr(2)), None);
    assert_eq!(context.inbound.len(), 2);
    assert_eq!(
        handle_inbound_datagram(&mut context, addr(1), Ok(ClientToServerMessage::Connect)),
        Received::Queued { client_id: u32::MAX - 1 }
    );
}

#[test]
fn two_datagrams_from_one_new_address_register_one_client() {
    let mut context = ServerContext::new();
    let chat = |text: &str| Ok(ClientToServerMessage::ChatMessage { message: text.to_string() });
    assert_eq!(
        handle_inbound_datagram(&mut context, addr(7), chat("m1")),
        Received::Queued { client_id: 0 }
    );
    assert_eq!(
        handle_inbound_datagram(&mut context, addr(7), chat("m2")),
        Received::Queued { client_id: 0 }
    );
    assert_eq!(context.registry.len(), 1);
    assert_eq!(add_client(&mut context, addr(8)), 1);
}

#[test]
fn disconnect_is_queued_and_unregisters_the_sender() {
    let mut context = context_with_clients(2);
    assert_eq!(
        handle_inbound_datagram(&mut context, addr(1000), Ok(ClientToServerMessage::Disconnect)),
        Received::Queued { client_id: 0 }
    );
    assert_eq!(
        context.inbound.pop(),
        Some(ClientToServerMessageBundle {
            client_id: 0,
            message: ClientToServerMessage::Disconnect
        })
    );
    assert_eq!(context.registry.len(), 1);
    assert_eq!(context.registry.lookup_id(addr(1000)), None);
    assert_eq!(context.registry.lookup_address(0), None);
    assert!(context.registry.mailbox_of(0).is_none());
    assert_eq!(context.registry.lookup_id(addr(1001)), Some(1));
}

#[test]
fn disconnect_unregisters_even_when_the_queue_is_full() {
    let mut context = ServerContext::with_capacities(1, 4);
    assert_eq!(add_client(&mut context, addr(1)), 0);
    assert_eq!(
        handle_inbound_datagram(&mut context, addr(1), Ok(ClientToServerMessage::Disconnect)),
        Received::QueueFull { client_id: 0 }
    );
    assert_eq!(context.registry.len(), 0);
    assert_eq!(context.registry.lookup_id(addr(1)), None);
    assert_eq!(context.inbound.pop(), Some(connect(0)));
    assert_eq!(context.inbound.pop(), None);
}

#[test]
fn a_client_that_comes_back_gets_a_new_identity() {
    let mut context = context_with_clients(1);
    handle_inbound_datagram(&mut context, addr(1000), Ok(ClientToServerMessage::Disconnect));
    assert_eq!(
        handle_inbound_datagram(&mut context, addr(1000), Ok(ClientToServerMessage::Connect)),
        Received::Queued { client_id: 1 }
    );
    assert_eq!(context.registry.lookup_address(0), None);
    assert_eq!(context.registry.lookup_address(1), Some(addr(1000)));
}

#[test]
fn outbound_pass_takes_what_waits_and_names_the_address() {
    let mut context = ServerContext::new();
    let a = add_client(&mut context, addr(1));
    let b = add_client(&mut context, addr(2));
    let message = ServerToClientMessage::PlayerJoined { id: b };
    assert_eq!(send_to_one_client(&mut context.registry, a, message.clone()), Delivery::Enqueued);
    let batches = collect_outbound_messages(&mut context.registry);
    assert_eq!(batches.len(), 2);
    assert_eq!(batches[0].client_id, a);
    assert_eq!(batches[0].address, addr(1));
    assert_eq!(batches[0].messages, vec![assignment(a), message]);
    assert_eq!(batches[1].client_id, b);
    assert_eq!(batches[1].address, addr(2));
    assert_eq!(batches[1].messages, vec![assignment(b)]);
    let batches = collect_outbound_messages(&mut context.registry);
    assert_eq!(batches.len(), 2);
    assert!(batches[0].messages.is_empty());
    assert!(batches[1].messages.is_empty());
}

#[test]
fn outbound_pass_takes_at_most_the_cap_per_client() {
    let mut context = ServerContext::with_capacities(10, 300);
    let a = add_client(&mut context, addr(1));
    let b = add_client(&mut context, addr(2));
    for id in 0..199u32 {
        let message = ServerToClientMessage::PlayerJoined { id };
        assert_eq!(send_to_one_client(&mut context.registry, a, message), Delivery::Enqueued);
    }
    let batches = collect_outbound_messages(&mut context.registry);
    assert_eq!(batches[0].messages.len(), 128);
    assert_eq!(batches[0].messages[0], assignment(a));
    assert_eq!(batches[0].messages[127], ServerToClientMessage::PlayerJoined { id: 126 });
    assert_eq!(batches[1].messages, vec![assignment(b)]);
    assert_eq!(context.registry.mailbox_of(a).map(|m| m.len()), Some(72));
    let batches = collect_outbound_messages(&mut context.registry);
    assert_eq!(batches[0].messages.len(), 72);
    assert_eq!(batches[0].messages[0], ServerToClientMessage::PlayerJoined { id: 127 });
    assert_eq!(batches[0].messages[71], ServerToClientMessage::PlayerJoined { id: 198 });
}

#[test]
fn a_new_client_is_not_marked_as_disconnected() {
    let mut context = ServerContext::new();
    let id = add_client(&mut context, addr(1));
    assert_eq!(context.registry.is_disconnected(id), Some(false));
    assert_eq!(context.registry.is_disconnected(id + 1), None);
    assert!(remove_client(&mut context.registry, id));
    assert_eq!(context.registry.is_disconnected(id), None);
}
