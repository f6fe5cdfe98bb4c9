//! Bounded queues that never block: a push on a full queue fails at once and
//! counts as one dropped message.
//!
//! Both queues keep their messages in a fixed-capacity `ArrayQueue`. What such
//! a queue holds, and the capacity it was made with, are named here and given
//! meaning by the contracts of the few calls made into it. Those contracts
//! are trusted, not proved. They say what the queue does while one owner
//! pushes and pops, which the exclusive borrows here make sure of.

use crate::common::client_to_server::{BundleView, ClientToServerMessageBundle};
use crate::common::server_to_client::{ServerMessageView, ServerToClientMessage};
use crossbeam::queue::ArrayQueue;
use vstd::prelude::*;

verus! {

/// The largest capacity a queue can be created with. A slot of a queue takes
/// at most 64 bytes, and a buffer of more slots than this could not be laid
/// out in memory.
pub const MAX_QUEUE_CAPACITY: usize = usize::MAX / 128;

/// Makes `ArrayQueue` known to the verifier as a type whose inside it does
/// not see.
#[verifier::external_type_specification]
#[verifier::external_body]
#[verifier::reject_recursive_types(T)]
pub struct ExArrayQueue<T>(ArrayQueue<T>);

/// The messages waiting in a queue of server messages, oldest first.
pub uninterp spec fn outbound_items(queue: ArrayQueue<ServerToClientMessage>) -> Seq<
    ServerMessageView,
>;

/// The capacity that a queue of server messages was created with.
pub uninterp spec fn outbound_limit(queue: ArrayQueue<ServerToClientMessage>) -> nat;

/// The bundles waiting in a queue of client messages, oldest first.
pub uninterp spec fn inbound_items(queue: ArrayQueue<ClientToServerMessageBundle>) -> Seq<
    BundleView,
>;

/// The capacity that a queue of client messages was created with.
pub uninterp spec fn inbound_limit(queue: ArrayQueue<ClientToServerMessageBundle>) -> nat;

/// Trusted contract of `ArrayQueue::new`: an empty queue of the given
/// capacity. The call panics on a capacity of zero and on one whose buffer
/// cannot be laid out, both of which the precondition leaves out.
#[verifier::external_body]
fn outbound_queue_new(capacity: usize) -> (queue: ArrayQueue<ServerToClientMessage>)
    requires
        0 < capacity <= MAX_QUEUE_CAPACITY,
    ensures
        outbound_items(queue) == Seq::<ServerMessageView>::empty(),
        outbound_limit(queue) == capacity,
{
    ArrayQueue::new(capacity)
}

/// Trusted contract of `ArrayQueue::push`: appends the message unless the
/// queue already holds as many as its capacity; then the queue stays as it is
/// and the message comes back as the error.
#[verifier::external_body]
fn outbound_queue_push(
    queue: &mut ArrayQueue<ServerToClientMessage>,
    message: ServerToClientMessage,
) -> (result: Result<(), ServerToClientMessage>)
    ensures
        outbound_limit(*final(queue)) == outbound_limit(*old(queue)),
        outbound_items(*old(queue)).len() < outbound_limit(*old(queue)) ==> result is Ok
            && outbound_items(*final(queue)) == outbound_items(*old(queue)).push(message@),
        outbound_items(*old(queue)).len() >= outbound_limit(*old(queue)) ==> result is Err
            && result->Err_0@ == message@ && outbound_items(*final(queue)) == outbound_items(
            *old(queue),
        ),
{
    queue.push(message)
}

/// Trusted contract of `ArrayQueue::pop`: takes the oldest message out, or
/// returns `None` when the queue is empty.
#[verifier::external_body]
fn outbound_queue_pop(queue: &mut ArrayQueue<ServerToClientMessage>) -> (result: Option<
    ServerToClientMessage,
>)
    ensures
        outbound_limit(*final(queue)) == outbound_limit(*old(queue)),
        outbound_items(*old(queue)).len() == 0 ==> result is None && outbound_items(*final(queue))
            == outbound_items(*old(queue)),
        outbound_items(*old(queue)).len() > 0 ==> result is Some && result->Some_0@
            == outbound_items(*old(queue))[0] && outbound_items(*final(queue)) == outbound_items(
            *old(queue),
        ).drop_first(),
{
    queue.pop()
}

/// Trusted contract of `ArrayQueue::len`: the number of messages waiting.
#[verifier::external_body]
fn outbound_queue_len(queue: &ArrayQueue<ServerToClientMessage>) -> (len: usize)
    ensures
        len == outbound_items(*queue).len(),
{
    queue.len()
}

/// Trusted contract of `ArrayQueue::new`: an empty queue of the given
/// capacity. The call panics on a capacity of zero and on one whose buffer
/// cannot be laid out, both of which the precondition leaves out.
#[verifier::external_body]
fn inbound_queue_new(capacity: usize) -> (queue: ArrayQueue<ClientToServerMessageBundle>)
    requires
        0 < capacity <= MAX_QUEUE_CAPACITY,
    ensures
        inbound_items(queue) == Seq::<BundleView>::empty(),
        inbound_limit(queue) == capacity,
{
    ArrayQueue::new(capacity)
}

/// Trusted contract of `ArrayQueue::push`: appends the bundle unless the queue
/// already holds as many as its capacity; then the queue stays as it is and
/// the bundle comes back as the error.
#[verifier::external_body]
fn inbound_queue_push(
    queue: &mut ArrayQueue<ClientToServerMessageBundle>,
    bundle: ClientToServerMessageBundle,
) -> (result: Result<(), ClientToServerMessageBundle>)
    ensures
        inbound_limit(*final(queue)) == inbound_limit(*old(queue)),
        inbound_items(*old(queue)).len() < inbound_limit(*old(queue)) ==> result is Ok
            && inbound_items(*final(queue)) == inbound_items(*old(queue)).push(bundle@),
        inbound_items(*old(queue)).len() >= inbound_limit(*old(queue)) ==> result is Err
            && result->Err_0@ == bundle@ && inbound_items(*final(queue)) == inbound_items(
            *old(queue),
        ),
{
    queue.push(bundle)
}

/// Trusted contract of `ArrayQueue::pop`: takes the oldest bundle out, or
/// returns `None` when the queue is empty.
#[verifier::external_body]
fn inbound_queue_pop(queue: &mut ArrayQueue<ClientToServerMessageBundle>) -> (result: Option<
    ClientToServerMessageBundle,
>)
    ensures
        inbound_limit(*final(queue)) == inbound_limit(*old(queue)),
        inbound_items(*old(queue)).len() == 0 ==> result is None && inbound_items(*final(queue))
            == inbound_items(*old(queue)),
        inbound_items(*old(queue)).len() > 0 ==> result is Some && result->Some_0@
            == inbound_items(*old(queue))[0] && inbound_items(*final(queue)) == inbound_items(
            *old(queue),
        ).drop_first(),
{
    queue.pop()
}

/// Trusted contract of `ArrayQueue::len`: the number of bundles waiting.
#[verifier::external_body]
fn inbound_queue_len(queue: &ArrayQueue<ClientToServerMessageBundle>) -> (len: usize)
    ensures
        len == inbound_items(*queue).len(),
{
    queue.len()
}

/// A bounded queue as a mathematical value.
pub ghost struct QueueView<M> {
    /// The messages waiting, oldest first.
    pub items: Seq<M>,
    /// The most messages the queue can hold.
    pub capacity: nat,
    /// How many pushes have failed because the queue was full.
    pub dropped: u64,
}

impl<M> QueueView<M> {
    /// No more messages than the capacity, which is not zero.
    pub open spec fn wf(self) -> bool {
        0 < self.capacity && self.items.len() <= self.capacity
    }

    /// An empty queue on which no push has failed yet.
    pub open spec fn empty(capacity: nat) -> QueueView<M> {
        QueueView { items: Seq::empty(), capacity, dropped: 0 }
    }

    pub open spec fn is_full(self) -> bool {
        self.items.len() >= self.capacity
    }

    /// The queue after a push: the message at the back, or, on a full queue,
    /// one more dropped message.
    pub open spec fn offered(self, message: M) -> QueueView<M> {
        if self.is_full() {
            QueueView { dropped: count_drop(self.dropped), ..self }
        } else {
            QueueView { items: self.items.push(message), ..self }
        }
    }

    /// The queue after a pop.
    pub open spec fn taken(self) -> QueueView<M> {
        if self.items.len() == 0 {
            self
        } else {
            QueueView { items: self.items.drop_first(), ..self }
        }
    }

    /// The queue after `n` messages were popped.
    pub open spec fn without_first(self, n: nat) -> QueueView<M> {
        QueueView { items: self.items.skip(n as int), ..self }
    }
}

impl<M> QueueView<M> {
    /// The queue after the messages were pushed, first to last.
    pub open spec fn offered_all(self, messages: Seq<M>) -> QueueView<M>
        decreases messages.len(),
    {
        if messages.len() == 0 {
            self
        } else {
            self.offered_all(messages.drop_last()).offered(messages.last())
        }
    }

    /// A queue never holds more than its capacity: a push on a full queue
    /// leaves the waiting messages as they are, and any other push adds one.
    pub proof fn lemma_offered_bounded(self, message: M)
        requires
            self.wf(),
        ensures
            self.offered(message).wf(),
            self.offered(message).capacity == self.capacity,
            self.is_full() ==> self.offered(message).items == self.items,
            !self.is_full() ==> self.offered(message).items == self.items.push(message),
    {
    }

    /// However many messages are pushed, the queue takes them in order while
    /// there is room, drops the rest, and never holds more than its capacity.
    pub proof fn lemma_offered_all_bounded(self, messages: Seq<M>)
        requires
            self.wf(),
        ensures
            self.offered_all(messages).wf(),
            self.offered_all(messages).capacity == self.capacity,
            self.items.len() + messages.len() <= self.capacity ==> self.offered_all(
                messages,
            ).items == self.items + messages,
            self.items.len() + messages.len() > self.capacity ==> self.offered_all(messages).items
                == self.items + messages.take(self.capacity - self.items.len()),
        decreases messages.len(),
    {
        if messages.len() > 0 {
            self.lemma_offered_all_bounded(messages.drop_last());
        }
    }
}

/// The drop counter after one more drop. It stops at the top of its range.
pub open spec fn count_drop(dropped: u64) -> u64 {
    if dropped < u64::MAX {
        (dropped + 1) as u64
    } else {
        dropped
    }
}

/// The bounded outbound queue of one client.
pub struct Mailbox {
    queue: ArrayQueue<ServerToClientMessage>,
    capacity: usize,
    dropped: u64,
}

impl View for Mailbox {
    type V = QueueView<ServerMessageView>;

    closed spec fn view(&self) -> QueueView<ServerMessageView> {
        QueueView {
            items: outbound_items(self.queue),
            capacity: outbound_limit(self.queue),
            dropped: self.dropped,
        }
    }
}

impl Mailbox {
    /// The mailbox holds no more than its capacity and knows that capacity.
    pub closed spec fn wf(&self) -> bool {
        self@.wf() && self.capacity == outbound_limit(self.queue)
    }

    /// Well-formedness bounds the number of waiting messages.
    pub proof fn lemma_wf_bounded(&self)
        requires
            self.wf(),
        ensures
            self@.wf(),
            self@.capacity <= usize::MAX,
    {
    }

    /// Creates an empty mailbox.
    pub fn new(capacity: usize) -> (mailbox: Mailbox)
        requires
            0 < capacity <= MAX_QUEUE_CAPACITY,
        ensures
            mailbox.wf(),
            mailbox@ == QueueView::<ServerMessageView>::empty(capacity as nat),
    {
        Mailbox { queue: outbound_queue_new(capacity), capacity, dropped: 0 }
    }

    /// Appends a message, or drops it when the mailbox is full. A dropped
    /// message comes back as the error and is counted.
    pub fn push(&mut self, message: ServerToClientMessage) -> (result: Result<
        (),
        ServerToClientMessage,
    >)
        ensures
            final(self)@ == old(self)@.offered(message@),
            result is Err <==> old(self)@.is_full(),
            result is Err ==> result->Err_0@ == message@,
            old(self).wf() ==> final(self).wf(),
    {
        let result = outbound_queue_push(&mut self.queue, message);
        if result.is_err() {
            self.dropped = self.dropped.saturating_add(1);
        }
        result
    }

    /// Takes the oldest message out, if there is one.
    pub fn pop(&mut self) -> (result: Option<ServerToClientMessage>)
        ensures
            final(self)@ == old(self)@.taken(),
            result is None <==> old(self)@.items.len() == 0,
            result is Some ==> result->Some_0@ == old(self)@.items[0],
            old(self).wf() ==> final(self).wf(),
    {
        outbound_queue_pop(&mut self.queue)
    }

    /// The number of messages waiting.
    pub fn len(&self) -> (len: usize)
        ensures
            len == self@.items.len(),
    {
        outbound_queue_len(&self.queue)
    }

    /// The most messages the mailbox can hold.
    pub fn capacity(&self) -> (capacity: usize)
        requires
            self.wf(),
        ensures
            capacity == self@.capacity,
    {
        self.capacity
    }

    /// How many pushes have failed because the mailbox was full.
    pub fn dropped(&self) -> (dropped: u64)
        ensures
            dropped == self@.dropped,
    {
        self.dropped
    }

    /// Takes out the oldest messages, at most `limit` of them, oldest first.
    pub fn drain(&mut self, limit: usize) -> (messages: Vec<ServerToClientMessage>)
        ensures
            messages.len() == drained_count(old(self)@.items.len(), limit as nat),
            forall|i: int|
                0 <= i < messages.len() ==> (#[trigger] messages[i])@ == old(self)@.items[i],
            final(self)@ == old(self)@.without_first(messages.len() as nat),
            old(self).wf() ==> final(self).wf(),
    {
        let mut messages: Vec<ServerToClientMessage> = Vec::new();
        let ghost before = self@;
        assert(before.items.skip(0) == before.items);
        while messages.len() < limit
            invariant
                messages.len() <= limit,
                messages.len() <= before.items.len(),
                forall|i: int|
                    0 <= i < messages.len() ==> (#[trigger] messages[i])@ == before.items[i],
                self@ == before.without_first(messages.len() as nat),
                old(self).wf() ==> self.wf(),
                before == old(self)@,
            ensures
                messages.len() == drained_count(before.items.len(), limit as nat),
            decreases limit - messages.len(),
        {
            let ghost n = messages.len() as int;
            match self.pop() {
                Some(message) => {
                    assert(before.items.skip(n).drop_first() == before.items.skip(n + 1));
                    messages.push(message);
                },
                None => {
                    break ;
                },
            }
        }
        messages
    }
}

/// How many messages a drain with the given limit takes out of a queue that
/// holds `waiting` of them.
pub open spec fn drained_count(waiting: nat, limit: nat) -> nat {
    if waiting <= limit {
        waiting
    } else {
        limit
    }
}

/// The bounded queue of client messages that wait for the simulation.
pub struct InboundQueue {
    queue: ArrayQueue<ClientToServerMessageBundle>,
    capacity: usize,
    dropped: u64,
}

impl View for InboundQueue {
    type V = QueueView<BundleView>;

    closed spec fn view(&self) -> QueueView<BundleView> {
        QueueView {
            items: inbound_items(self.queue),
            capacity: inbound_limit(self.queue),
            dropped: self.dropped,
        }
    }
}

impl InboundQueue {
    /// The queue holds no more than its capacity and knows that capacity.
    pub closed spec fn wf(&self) -> bool {
        self@.wf() && self.capacity == inbound_limit(self.queue)
    }

    /// Well-formedness bounds the number of waiting bundles.
    pub proof fn lemma_wf_bounded(&self)
        requires
            self.wf(),
        ensures
            self@.wf(),
            self@.capacity <= usize::MAX,
    {
    }

    /// Creates an empty queue.
    pub fn new(capacity: usize) -> (queue: InboundQueue)
        requires
            0 < capacity <= MAX_QUEUE_CAPACITY,
        ensures
            queue.wf(),
            queue@ == QueueView::<BundleView>::empty(capacity as nat),
    {
        InboundQueue { queue: inbound_queue_new(capacity), capacity, dropped: 0 }
    }

    /// Appends a bundle, or drops it when the queue is full. A dropped bundle
    /// comes back as the error and is counted.
    pub fn push(&mut self, bundle: ClientToServerMessageBundle) -> (result: Result<
        (),
        ClientToServerMessageBundle,
    >)
        ensures
            final(self)@ == old(self)@.offered(bundle@),
            result is Err <==> old(self)@.is_full(),
            result is Err ==> result->Err_0@ == bundle@,
            old(self).wf() ==> final(self).wf(),
    {
        let result = inbound_queue_push(&mut self.queue, bundle);
        if result.is_err() {
            self.dropped = self.dropped.saturating_add(1);
        }
        result
    }

    /// Takes the oldest bundle out, if there is one.
    pub fn pop(&mut self) -> (result: Option<ClientToServerMessageBundle>)
        ensures
            final(self)@ == old(self)@.taken(),
            result is None <==> old(self)@.items.len() == 0,
            result is Some ==> result->Some_0@ == old(self)@.items[0],
            old(self).wf() ==> final(self).wf(),
    {
        inbound_queue_pop(&mut self.queue)
    }

    /// The number of bundles waiting.
    pub fn len(&self) -> (len: usize)
        ensures
            len == self@.items.len(),
    {
        inbound_queue_len(&self.queue)
    }

    /// The most bundles the queue can hold.
    pub fn capacity(&self) -> (capacity: usize)
        requires
            self.wf(),
        ensures
            capacity == self@.capacity,
    {
        self.capacity
    }

    /// How many pushes have failed because the queue was full.
    pub fn dropped(&self) -> (dropped: u64)
        ensures
            dropped == self@.dropped,
    {
        self.dropped
    }
}

} // verus!
