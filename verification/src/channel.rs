//! The rtipc channels, and what is known of them.
//!
//! A channel is a queue of messages in shared memory, with one process that
//! produces and one that consumes. The peer is taken to keep to the queue's
//! protocol, by which a producer alone writes the slot that it fills, and a
//! message that a consumer holds stays as it is. Against a peer that writes
//! elsewhere, or that hands over an event descriptor of another kind, a call may
//! panic or wait.

use crate::message::MsgCommand;
use crate::message::MsgEvent;
use crate::message::MsgResponse;
use crate::server::Server;
use vstd::prelude::*;

verus! {

#[verifier::external_type_specification]
#[verifier::external_body]
#[verifier::reject_recursive_types(T)]
pub struct ExProducer<T: Copy>(rtipc::Producer<T>);

#[verifier::external_type_specification]
#[verifier::external_body]
#[verifier::reject_recursive_types(T)]
pub struct ExConsumer<T: Copy>(rtipc::Consumer<T>);

#[verifier::external_type_specification]
#[verifier::external_body]
pub struct ExChannelVector(rtipc::ChannelVector);

/// What came of an attempt to fetch a message.
#[derive(Copy, Clone, Debug, PartialEq, Eq, Structural)]
pub enum PopOutcome {
    /// The shared memory holds an index that cannot be.
    QueueError,
    /// There is no message.
    NoMessage,
    /// There is no message that was not fetched before.
    NoNewMessage,
    /// There is a new message.
    Success,
    /// There is a new message, and older ones were lost.
    SuccessMessagesDiscarded,
}

/// What to do after an attempt to fetch a message.
#[derive(Copy, Clone, Debug, PartialEq, Eq, Structural)]
pub enum PopDecision {
    Fail,
    Skip,
    Read,
}

impl PopOutcome {
    /// Whether the attempt brought a message.
    pub open spec fn brings_message(self) -> bool {
        self is Success || self is SuccessMessagesDiscarded
    }

    pub open spec fn decision(self) -> PopDecision {
        if self is QueueError {
            PopDecision::Fail
        } else if self.brings_message() {
            PopDecision::Read
        } else {
            PopDecision::Skip
        }
    }

    /// A broken queue is a failure, a new message is read, and where there is
    /// none the attempt is passed over.
    pub fn decide(self) -> (r: PopDecision)
        ensures
            r == self.decision(),
    {
        match self {
            PopOutcome::QueueError => PopDecision::Fail,
            PopOutcome::NoMessage => PopDecision::Skip,
            PopOutcome::NoNewMessage => PopDecision::Skip,
            PopOutcome::Success => PopDecision::Read,
            PopOutcome::SuccessMessagesDiscarded => PopDecision::Read,
        }
    }
}

/// A queue in shared memory is in a state that it cannot recover from.
#[derive(Copy, Clone, Debug, PartialEq, Eq, Structural)]
pub struct QueueFault;

/// What an attempt to receive a message gives, where `outcome` came of the pop
/// and `held` is the message that is held then.
pub open spec fn reception<T>(outcome: PopOutcome, held: T) -> Result<Option<T>, QueueFault> {
    match outcome.decision() {
        PopDecision::Fail => Err(QueueFault),
        PopDecision::Skip => Ok(None),
        PopDecision::Read => Ok(Some(held)),
    }
}

/// What came of an attempt to send that does not displace older messages.
#[derive(Copy, Clone, Debug, PartialEq, Eq, Structural)]
pub enum TryPushOutcome {
    /// The shared memory holds an index that cannot be.
    QueueError,
    /// There was no room; the message was not added.
    QueueFull,
    /// The message was added.
    Success,
}

/// A channel as it was configured.
pub struct ChannelSetup {
    /// How many bytes a message may have.
    pub message_size: nat,
    pub info: Seq<u8>,
}

/// What has gone through a producer.
pub struct ProducerState<T> {
    /// The message that the next push sends.
    pub slot: T,
    /// The messages that were added to the queue, in order.
    pub sent: Seq<T>,
    /// What came of each attempt that gives way when there is no room, in order.
    pub tried: Seq<TryPushOutcome>,
    /// Whether messages are composed in a copy outside of the shared memory.
    pub cached: bool,
    pub channel: ChannelSetup,
}

/// What has gone through a consumer.
pub struct ConsumerState<T> {
    /// The message that the last pop with a message brought.
    pub held: T,
    /// What came of each pop, in order.
    pub popped: Seq<PopOutcome>,
    pub channel: ChannelSetup,
}

impl<T> ConsumerState<T> {
    /// Whether the last pop brought a message.
    pub open spec fn has_message(self) -> bool {
        self.popped.len() > 0 && self.popped.last().brings_message()
    }
}

/// A pop or a push on one of the three ends that a server holds.
pub enum Call {
    CommandPopped(PopOutcome),
    ResponseForced(MsgResponse),
    EventForced(MsgEvent),
    EventTried(MsgEvent, TryPushOutcome),
}

impl Call {
    /// The event that a push was to send.
    pub open spec fn event(self) -> MsgEvent {
        match self {
            Call::EventTried(event, _) => event,
            _ => self->EventForced_0,
        }
    }
}

/// The channels that a process shares with its peer. One that was taken out
/// leaves `None` behind.
pub struct VectorState {
    pub consumers: Seq<Option<ChannelSetup>>,
    pub producers: Seq<Option<ChannelSetup>>,
    pub info: Seq<u8>,
}

/// Whether there is a channel at `index`.
pub open spec fn present(channels: Seq<Option<ChannelSetup>>, index: int) -> bool {
    0 <= index < channels.len() && channels[index] is Some
}

/// Whether there is a channel at `index` for messages of `size` bytes.
pub open spec fn fits(channels: Seq<Option<ChannelSetup>>, index: int, size: nat) -> bool {
    present(channels, index) && size <= channels[index]->0.message_size
}

/// The channels after the one at `index` was taken out.
pub open spec fn without(channels: Seq<Option<ChannelSetup>>, index: int) -> Seq<
    Option<ChannelSetup>,
> {
    if 0 <= index < channels.len() {
        channels.update(index, None)
    } else {
        channels
    }
}

/// What the channels of a `rtipc::ChannelVector` are.
pub uninterp spec fn vector_state(v: rtipc::ChannelVector) -> VectorState;

/// What has gone through the consumer of the commands.
pub uninterp spec fn command_state(c: rtipc::Consumer<MsgCommand>) -> ConsumerState<MsgCommand>;

/// What has gone through the producer of the responses.
pub uninterp spec fn response_state(p: rtipc::Producer<MsgResponse>) -> ProducerState<MsgResponse>;

/// What has gone through the producer of the events.
pub uninterp spec fn event_state(p: rtipc::Producer<MsgEvent>) -> ProducerState<MsgEvent>;

/// What has gone through the producer of the commands, on the client's side.
pub uninterp spec fn request_state(p: rtipc::Producer<MsgCommand>) -> ProducerState<MsgCommand>;

/// What has gone through the consumer of the responses, on the client's side.
pub uninterp spec fn answer_state(c: rtipc::Consumer<MsgResponse>) -> ConsumerState<MsgResponse>;

/// What has gone through the consumer of the events, on the client's side.
pub uninterp spec fn notice_state(c: rtipc::Consumer<MsgEvent>) -> ConsumerState<MsgEvent>;

/// The pops and pushes on the three ends that a server holds, in the order in
/// which they were made.
pub uninterp spec fn trace(
    c: rtipc::Consumer<MsgCommand>,
    r: rtipc::Producer<MsgResponse>,
    e: rtipc::Producer<MsgEvent>,
) -> Seq<Call>;

/// `rtipc::ChannelVector::info` gives the bytes that describe the channels as a
/// whole.
pub assume_specification[ rtipc::ChannelVector::info ](v: &rtipc::ChannelVector) -> (r: &Vec<u8>)
    ensures
        r@ == vector_state(*v).info,
;

/// `rtipc::ChannelVector::consumer_info` gives the bytes that describe one
/// consumer, unless there is none at that index or it was taken out.
pub assume_specification[ rtipc::ChannelVector::consumer_info ](
    v: &rtipc::ChannelVector,
    index: usize,
) -> (r: Option<&Vec<u8>>)
    ensures
        r is Some <==> present(vector_state(*v).consumers, index as int),
        r matches Some(info) ==> info@ == vector_state(*v).consumers[index as int]->0.info,
;

/// `rtipc::ChannelVector::producer_info` gives the bytes that describe one
/// producer, unless there is none at that index or it was taken out.
pub assume_specification[ rtipc::ChannelVector::producer_info ](
    v: &rtipc::ChannelVector,
    index: usize,
) -> (r: Option<&Vec<u8>>)
    ensures
        r is Some <==> present(vector_state(*v).producers, index as int),
        r matches Some(info) ==> info@ == vector_state(*v).producers[index as int]->0.info,
;

/// `rtipc::ChannelVector::take_consumer` moves the consumer at `index` out. The
/// channel is gone afterwards, but it is handed over only where its messages
/// have room for a command. Nothing was popped from it yet.
#[verifier::external_body]
pub(crate) fn take_command(v: &mut rtipc::ChannelVector, index: usize) -> (r: Option<
    rtipc::Consumer<MsgCommand>,
>)
    ensures
        vector_state(*final(v)) == (VectorState {
            consumers: without(vector_state(*old(v)).consumers, index as int),
            ..vector_state(*old(v))
        }),
        r is Some <==> fits(
            vector_state(*old(v)).consumers,
            index as int,
            vstd::layout::size_of::<MsgCommand>(),
        ),
        r matches Some(c) ==> {
            &&& command_state(c).popped == Seq::<PopOutcome>::empty()
            &&& Some(command_state(c).channel) == vector_state(*old(v)).consumers[index as int]
        },
{
    v.take_consumer::<MsgCommand>(index)
}

/// `rtipc::ChannelVector::take_producer` moves the producer at `index` out, as a
/// producer of responses. The channel is gone afterwards, but it is handed over
/// only where its messages have room for a response. Nothing was sent through
/// it yet, and its messages are composed in the shared memory.
#[verifier::external_body]
pub(crate) fn take_response(v: &mut rtipc::ChannelVector, index: usize) -> (r: Option<
    rtipc::Producer<MsgResponse>,
>)
    ensures
        vector_state(*final(v)) == (VectorState {
            producers: without(vector_state(*old(v)).producers, index as int),
            ..vector_state(*old(v))
        }),
        r is Some <==> fits(
            vector_state(*old(v)).producers,
            index as int,
            vstd::layout::size_of::<MsgResponse>(),
        ),
        r matches Some(p) ==> {
            &&& response_state(p).sent == Seq::<MsgResponse>::empty()
            &&& response_state(p).tried == Seq::<TryPushOutcome>::empty()
            &&& !response_state(p).cached
            &&& Some(response_state(p).channel) == vector_state(*old(v)).producers[index as int]
        },
{
    v.take_producer::<MsgResponse>(index)
}

/// `rtipc::ChannelVector::take_producer` moves the producer at `index` out, as a
/// producer of events, in the way of [`take_response`].
#[verifier::external_body]
pub(crate) fn take_event(v: &mut rtipc::ChannelVector, index: usize) -> (r: Option<
    rtipc::Producer<MsgEvent>,
>)
    ensures
        vector_state(*final(v)) == (VectorState {
            producers: without(vector_state(*old(v)).producers, index as int),
            ..vector_state(*old(v))
        }),
        r is Some <==> fits(
            vector_state(*old(v)).producers,
            index as int,
            vstd::layout::size_of::<MsgEvent>(),
        ),
        r matches Some(p) ==> {
            &&& event_state(p).sent == Seq::<MsgEvent>::empty()
            &&& event_state(p).tried == Seq::<TryPushOutcome>::empty()
            &&& !event_state(p).cached
            &&& Some(event_state(p).channel) == vector_state(*old(v)).producers[index as int]
        },
{
    v.take_producer::<MsgEvent>(index)
}

/// `rtipc::ChannelVector::take_producer` moves the producer at `index` out, as a
/// producer of commands, in the way of [`take_response`].
#[verifier::external_body]
pub(crate) fn take_request(v: &mut rtipc::ChannelVector, index: usize) -> (r: Option<
    rtipc::Producer<MsgCommand>,
>)
    ensures
        vector_state(*final(v)) == (VectorState {
            producers: without(vector_state(*old(v)).producers, index as int),
            ..vector_state(*old(v))
        }),
        r is Some <==> fits(
            vector_state(*old(v)).producers,
            index as int,
            vstd::layout::size_of::<MsgCommand>(),
        ),
        r matches Some(p) ==> {
            &&& request_state(p).sent == Seq::<MsgCommand>::empty()
            &&& request_state(p).tried == Seq::<TryPushOutcome>::empty()
            &&& !request_state(p).cached
            &&& Some(request_state(p).channel) == vector_state(*old(v)).producers[index as int]
        },
{
    v.take_producer::<MsgCommand>(index)
}

/// `rtipc::Consumer::pop` tries to fetch the next command. Which outcome it has
/// rests on the peer. Unless it brings a message, the one held before is held
/// still. The call follows those that were made on the server's ends before.
/// Nothing is said of the event descriptor, which is read first.
#[verifier::external_body]
pub(crate) fn command_pop(s: &mut Server) -> (r: PopOutcome)
    ensures
        final(s).response == old(s).response,
        final(s).event == old(s).event,
        command_state(final(s).command).popped == command_state(old(s).command).popped.push(r),
        command_state(final(s).command).channel == command_state(old(s).command).channel,
        !r.brings_message() ==> command_state(final(s).command).held == command_state(
            old(s).command,
        ).held,
        trace(final(s).command, final(s).response, final(s).event) == trace(
            old(s).command,
            old(s).response,
            old(s).event,
        ).push(Call::CommandPopped(r)),
{
    match s.command.pop() {
        rtipc::ConsumeResult::QueueError => PopOutcome::QueueError,
        rtipc::ConsumeResult::NoMessage => PopOutcome::NoMessage,
        rtipc::ConsumeResult::NoNewMessage => PopOutcome::NoNewMessage,
        rtipc::ConsumeResult::Success => PopOutcome::Success,
        rtipc::ConsumeResult::SuccessMessagesDiscarded => PopOutcome::SuccessMessagesDiscarded,
    }
}

/// `rtipc::Consumer::current_message` gives the message that is held. There is
/// one once a pop has brought a message.
#[verifier::external_body]
pub(crate) fn command_message(c: &rtipc::Consumer<MsgCommand>) -> (r: Option<MsgCommand>)
    requires
        command_state(*c).has_message(),
    ensures
        r == Some(command_state(*c).held),
{
    c.current_message().copied()
}

/// `rtipc::Producer::current_message` lends the slot of the next response. It is
/// no push.
#[verifier::external_body]
pub(crate) fn response_message(s: &mut Server) -> (r: &mut MsgResponse)
    ensures
        final(s).command == old(s).command,
        final(s).event == old(s).event,
        *r == response_state(old(s).response).slot,
        response_state(final(s).response) == (ProducerState {
            slot: *final(r),
            ..response_state(old(s).response)
        }),
        trace(final(s).command, final(s).response, final(s).event) == trace(
            old(s).command,
            old(s).response,
            old(s).event,
        ),
{
    s.response.current_message()
}

/// `rtipc::Producer::force_push` adds the response in the slot to the queue,
/// whether or not there is room: the oldest message gives way. It is added also
/// where the queue is then found broken. What the slot holds next is left open.
/// The outcome, which tells whether a message gave way, is dropped. The call
/// follows those that were made on the server's ends before. Nothing is said of
/// the event descriptor that notifies the peer.
#[verifier::external_body]
pub(crate) fn response_force_push(s: &mut Server)
    requires
        !response_state(old(s).response).cached,
    ensures
        final(s).command == old(s).command,
        final(s).event == old(s).event,
        response_state(final(s).response).sent == response_state(old(s).response).sent.push(
            response_state(old(s).response).slot,
        ),
        response_state(final(s).response).tried == response_state(old(s).response).tried,
        !response_state(final(s).response).cached,
        response_state(final(s).response).channel == response_state(old(s).response).channel,
        trace(final(s).command, final(s).response, final(s).event) == trace(
            old(s).command,
            old(s).response,
            old(s).event,
        ).push(Call::ResponseForced(response_state(old(s).response).slot)),
{
    s.response.force_push();
}

/// `rtipc::Producer::current_message` lends the slot of the next event. It is no
/// push.
#[verifier::external_body]
pub(crate) fn event_message(s: &mut Server) -> (r: &mut MsgEvent)
    ensures
        final(s).command == old(s).command,
        final(s).response == old(s).response,
        *r == event_state(old(s).event).slot,
        event_state(final(s).event) == (ProducerState {
            slot: *final(r),
            ..event_state(old(s).event)
        }),
        trace(final(s).command, final(s).response, final(s).event) == trace(
            old(s).command,
            old(s).response,
            old(s).event,
        ),
{
    s.event.current_message()
}

/// `rtipc::Producer::force_push` adds the event in the slot to the queue, in the
/// way of [`response_force_push`].
#[verifier::external_body]
pub(crate) fn event_force_push(s: &mut Server)
    requires
        !event_state(old(s).event).cached,
    ensures
        final(s).command == old(s).command,
        final(s).response == old(s).response,
        event_state(final(s).event).sent == event_state(old(s).event).sent.push(
            event_state(old(s).event).slot,
        ),
        event_state(final(s).event).tried == event_state(old(s).event).tried,
        !event_state(final(s).event).cached,
        event_state(final(s).event).channel == event_state(old(s).event).channel,
        trace(final(s).command, final(s).response, final(s).event) == trace(
            old(s).command,
            old(s).response,
            old(s).event,
        ).push(Call::EventForced(event_state(old(s).event).slot)),
{
    s.event.force_push();
}

/// `rtipc::Producer::try_push` adds the event in the slot to the queue if there
/// is room. Which outcome it has rests on the peer. The event is added if the
/// outcome is a success, and stays in the slot otherwise. The call follows those
/// that were made on the server's ends before. Nothing is said of the event
/// descriptor that notifies the peer.
#[verifier::external_body]
pub(crate) fn event_try_push(s: &mut Server) -> (r: TryPushOutcome)
    requires
        !event_state(old(s).event).cached,
    ensures
        final(s).command == old(s).command,
        final(s).response == old(s).response,
        event_state(final(s).event).tried == event_state(old(s).event).tried.push(r),
        event_state(final(s).event).sent == if r is Success {
            event_state(old(s).event).sent.push(event_state(old(s).event).slot)
        } else {
            event_state(old(s).event).sent
        },
        !(r is Success) ==> event_state(final(s).event).slot == event_state(old(s).event).slot,
        !event_state(final(s).event).cached,
        event_state(final(s).event).channel == event_state(old(s).event).channel,
        trace(final(s).command, final(s).response, final(s).event) == trace(
            old(s).command,
            old(s).response,
            old(s).event,
        ).push(Call::EventTried(event_state(old(s).event).slot, r)),
{
    match s.event.try_push() {
        rtipc::ProduceTryResult::QueueError => TryPushOutcome::QueueError,
        rtipc::ProduceTryResult::QueueFull => TryPushOutcome::QueueFull,
        rtipc::ProduceTryResult::Success => TryPushOutcome::Success,
    }
}

/// `rtipc::Producer::current_message` lends the slot of the next command.
#[verifier::external_body]
pub(crate) fn request_message(p: &mut rtipc::Producer<MsgCommand>) -> (r: &mut MsgCommand)
    ensures
        *r == request_state(*old(p)).slot,
        request_state(*final(p)) == (ProducerState { slot: *final(r), ..request_state(*old(p)) }),
{
    p.current_message()
}

/// `rtipc::Producer::force_push` adds the command in the slot to the queue, in
/// the way of [`response_force_push`].
#[verifier::external_body]
pub(crate) fn request_force_push(p: &mut rtipc::Producer<MsgCommand>)
    requires
        !request_state(*old(p)).cached,
    ensures
        request_state(*final(p)).sent == request_state(*old(p)).sent.push(
            request_state(*old(p)).slot,
        ),
        request_state(*final(p)).tried == request_state(*old(p)).tried,
        !request_state(*final(p)).cached,
        request_state(*final(p)).channel == request_state(*old(p)).channel,
{
    p.force_push();
}

/// `rtipc::ChannelVector::take_consumer` moves the consumer at `index` out, as a
/// consumer of responses, in the way of [`take_command`].
#[verifier::external_body]
pub(crate) fn take_answer(v: &mut rtipc::ChannelVector, index: usize) -> (r: Option<
    rtipc::Consumer<MsgResponse>,
>)
    ensures
        vector_state(*final(v)) == (VectorState {
            consumers: without(vector_state(*old(v)).consumers, index as int),
            ..vector_state(*old(v))
        }),
        r is Some <==> fits(
            vector_state(*old(v)).consumers,
            index as int,
            vstd::layout::size_of::<MsgResponse>(),
        ),
        r matches Some(c) ==> {
            &&& answer_state(c).popped == Seq::<PopOutcome>::empty()
            &&& Some(answer_state(c).channel) == vector_state(*old(v)).consumers[index as int]
        },
{
    v.take_consumer::<MsgResponse>(index)
}

/// `rtipc::ChannelVector::take_consumer` moves the consumer at `index` out, as a
/// consumer of events, in the way of [`take_command`].
#[verifier::external_body]
pub(crate) fn take_notice(v: &mut rtipc::ChannelVector, index: usize) -> (r: Option<
    rtipc::Consumer<MsgEvent>,
>)
    ensures
        vector_state(*final(v)) == (VectorState {
            consumers: without(vector_state(*old(v)).consumers, index as int),
            ..vector_state(*old(v))
        }),
        r is Some <==> fits(
            vector_state(*old(v)).consumers,
            index as int,
            vstd::layout::size_of::<MsgEvent>(),
        ),
        r matches Some(c) ==> {
            &&& notice_state(c).popped == Seq::<PopOutcome>::empty()
            &&& Some(notice_state(c).channel) == vector_state(*old(v)).consumers[index as int]
        },
{
    v.take_consumer::<MsgEvent>(index)
}

/// `rtipc::Consumer::pop` tries to fetch the next response, in the way of
/// [`command_pop`].
#[verifier::external_body]
pub(crate) fn answer_pop(c: &mut rtipc::Consumer<MsgResponse>) -> (r: PopOutcome)
    ensures
        answer_state(*final(c)).popped == answer_state(*old(c)).popped.push(r),
        answer_state(*final(c)).channel == answer_state(*old(c)).channel,
        !r.brings_message() ==> answer_state(*final(c)).held == answer_state(*old(c)).held,
{
    match c.pop() {
        rtipc::ConsumeResult::QueueError => PopOutcome::QueueError,
        rtipc::ConsumeResult::NoMessage => PopOutcome::NoMessage,
        rtipc::ConsumeResult::NoNewMessage => PopOutcome::NoNewMessage,
        rtipc::ConsumeResult::Success => PopOutcome::Success,
        rtipc::ConsumeResult::SuccessMessagesDiscarded => PopOutcome::SuccessMessagesDiscarded,
    }
}

/// `rtipc::Consumer::current_message` gives the response that is held, once a pop
/// has brought one.
#[verifier::external_body]
pub(crate) fn answer_message(c: &rtipc::Consumer<MsgResponse>) -> (r: Option<MsgResponse>)
    requires
        answer_state(*c).has_message(),
    ensures
        r == Some(answer_state(*c).held),
{
    c.current_message().copied()
}

/// `rtipc::Consumer::pop` tries to fetch the next event, in the way of
/// [`command_pop`].
#[verifier::external_body]
pub(crate) fn notice_pop(c: &mut rtipc::Consumer<MsgEvent>) -> (r: PopOutcome)
    ensures
        notice_state(*final(c)).popped == notice_state(*old(c)).popped.push(r),
        notice_state(*final(c)).channel == notice_state(*old(c)).channel,
        !r.brings_message() ==> notice_state(*final(c)).held == notice_state(*old(c)).held,
{
    match c.pop() {
        rtipc::ConsumeResult::QueueError => PopOutcome::QueueError,
        rtipc::ConsumeResult::NoMessage => PopOutcome::NoMessage,
        rtipc::ConsumeResult::NoNewMessage => PopOutcome::NoNewMessage,
        rtipc::ConsumeResult::Success => PopOutcome::Success,
        rtipc::ConsumeResult::SuccessMessagesDiscarded => PopOutcome::SuccessMessagesDiscarded,
    }
}

/// `rtipc::Consumer::current_message` gives the event that is held, once a pop
/// has brought one.
#[verifier::external_body]
pub(crate) fn notice_message(c: &rtipc::Consumer<MsgEvent>) -> (r: Option<MsgEvent>)
    requires
        notice_state(*c).has_message(),
    ensures
        r == Some(notice_state(*c).held),
{
    c.current_message().copied()
}

} // verus!
