//! The side that carries out commands.

use crate::channel::command_message;
use crate::channel::command_pop;
use crate::channel::command_state;
use crate::channel::event_force_push;
use crate::channel::event_message;
use crate::channel::event_state;
use crate::channel::event_try_push;
use crate::channel::fits;
use crate::channel::present;
use crate::channel::reception;
use crate::channel::response_force_push;
use crate::channel::response_message;
use crate::channel::response_state;
use crate::channel::take_command;
use crate::channel::take_event;
use crate::channel::take_response;
use crate::channel::trace;
use crate::channel::vector_state;
use crate::channel::Call;
use crate::channel::ChannelSetup;
use crate::channel::PopDecision;
use crate::channel::PopOutcome;
use crate::channel::ProducerState;
use crate::channel::QueueFault;
use crate::channel::TryPushOutcome;
use crate::channel::VectorState;
use crate::config::rpc_model;
use crate::config::ChannelModel;
use crate::config::VectorModel;
use crate::message::CommandId;
use crate::message::MsgCommand;
use crate::message::MsgEvent;
use crate::message::MsgResponse;
use crate::message::quotient_overflows;
use crate::text::text_of;
use crate::wrap::signed;
use crate::wrap::to_signed;
use crate::wrap::to_unsigned;
use crate::wrap::unsigned;
use vstd::prelude::*;

verus! {

/// The side of a connection that carries out commands.
pub struct Server {
    pub command: rtipc::Consumer<MsgCommand>,
    pub response: rtipc::Producer<MsgResponse>,
    pub event: rtipc::Producer<MsgEvent>,
}

/// The event number `nr` of a run.
pub open spec fn numbered_event(id: u32, nr: int) -> MsgEvent {
    MsgEvent { id, nr: nr as u32 }
}

/// A whole run of `num` events.
pub open spec fn event_run(id: u32, num: nat) -> Seq<MsgEvent> {
    Seq::new(num, |nr: int| numbered_event(id, nr))
}

/// The events of a run that were added, where `outcomes` tells how each of the
/// attempts went.
pub open spec fn added(id: u32, outcomes: Seq<TryPushOutcome>) -> Seq<MsgEvent>
    decreases outcomes.len(),
{
    if outcomes.len() == 0 {
        seq![]
    } else {
        let before = added(id, outcomes.drop_last());
        if outcomes.last() is Success {
            before.push(numbered_event(id, outcomes.len() - 1))
        } else {
            before
        }
    }
}

/// Whether none of the attempts found the queue full.
pub open spec fn none_full(outcomes: Seq<TryPushOutcome>) -> bool {
    forall|k: int| 0 <= k < outcomes.len() ==> !(#[trigger] outcomes[k] is QueueFull)
}

/// Whether `outcomes` are the attempts of a run of `num` events: one for each
/// event, but none after the queue was found full.
pub open spec fn attempts(num: u32, outcomes: Seq<TryPushOutcome>) -> bool {
    ||| outcomes.len() == num && none_full(outcomes)
    ||| 0 < outcomes.len() <= num && none_full(outcomes.drop_last()) && outcomes.last() is QueueFull
}

/// How many events a run came to before the queue was found full.
pub open spec fn progress(num: u32, outcomes: Seq<TryPushOutcome>) -> int {
    if outcomes.len() > 0 && outcomes.last() is QueueFull {
        outcomes.len() - 1
    } else {
        num as int
    }
}

/// What came of the attempts that were made between two states of a producer.
pub open spec fn new_outcomes(
    before: ProducerState<MsgEvent>,
    after: ProducerState<MsgEvent>,
) -> Seq<TryPushOutcome> {
    after.tried.skip(before.tried.len() as int)
}

/// How a run of events changes the producer, and what is reported of it. A run
/// that forces its way sends every event. One that does not stops at the first
/// event for which there is no room, and reports its number. An event that could
/// not be added last stays in the slot.
pub open spec fn run_sent(
    before: ProducerState<MsgEvent>,
    after: ProducerState<MsgEvent>,
    id: u32,
    num: u32,
    force: bool,
    reported: i32,
) -> bool {
    &&& !after.cached
    &&& after.channel == before.channel
    &&& num == 0 ==> after.slot == before.slot
    &&& if force {
        &&& after.tried == before.tried
        &&& after.sent == before.sent + event_run(id, num as nat)
        &&& reported == signed(num)
    } else {
        let outcomes = new_outcomes(before, after);
        &&& before.tried.is_prefix_of(after.tried)
        &&& attempts(num, outcomes)
        &&& after.sent == before.sent + added(id, outcomes)
        &&& outcomes.len() > 0 && !(outcomes.last() is Success) ==> after.slot == numbered_event(
            id,
            outcomes.len() - 1,
        )
        &&& reported == signed(progress(num, outcomes) as u32)
    }
}

/// The pushes of a run of events: each event that was come to, in order.
pub open spec fn run_calls(
    id: u32,
    num: u32,
    force: bool,
    outcomes: Seq<TryPushOutcome>,
) -> Seq<Call> {
    if force {
        Seq::new(num as nat, |nr: int| Call::EventForced(numbered_event(id, nr)))
    } else {
        Seq::new(
            outcomes.len(),
            |nr: int| Call::EventTried(numbered_event(id, nr), outcomes[nr]),
        )
    }
}

/// The events that pushes were to send.
pub open spec fn offered(calls: Seq<Call>) -> Seq<MsgEvent> {
    Seq::new(calls.len(), |k: int| calls[k].event())
}

/// Attempts that meet no broken queue send the events up to the one for which
/// there was no room, each once and in order.
pub proof fn lemma_added_in_order(id: u32, num: u32, outcomes: Seq<TryPushOutcome>)
    requires
        attempts(num, outcomes),
        forall|k: int| 0 <= k < outcomes.len() ==> !(#[trigger] outcomes[k] is QueueError),
    ensures
        added(id, outcomes) == event_run(id, progress(num, outcomes) as nat),
{
    if outcomes.len() > 0 && outcomes.last() is QueueFull {
        lemma_added_all(id, outcomes.drop_last());
    } else {
        lemma_added_all(id, outcomes);
    }
}

proof fn lemma_added_all(id: u32, outcomes: Seq<TryPushOutcome>)
    requires
        forall|k: int| 0 <= k < outcomes.len() ==> #[trigger] outcomes[k] is Success,
    ensures
        added(id, outcomes) == event_run(id, outcomes.len()),
    decreases outcomes.len(),
{
    if outcomes.len() > 0 {
        let fewer = outcomes.drop_last();
        assert forall|k: int| 0 <= k < fewer.len() implies #[trigger] fewer[k] is Success by {
            assert(fewer[k] == outcomes[k]);
        }
        lemma_added_all(id, fewer);
    }
    assert(added(id, outcomes) =~= event_run(id, outcomes.len()));
}

/// A run reports how many events it sent, unless it met a broken queue. It sent
/// those with the lowest numbers, each once and in order.
pub proof fn lemma_run_reports_what_was_sent(
    before: ProducerState<MsgEvent>,
    after: ProducerState<MsgEvent>,
    id: u32,
    num: u32,
    force: bool,
    reported: i32,
)
    requires
        run_sent(before, after, id, num, force, reported),
        forall|k: int|
            before.tried.len() <= k < after.tried.len() ==> !(#[trigger] after.tried[k] is QueueError),
    ensures
        0 <= unsigned(reported) <= num,
        force ==> unsigned(reported) == num,
        after.sent == before.sent + event_run(id, unsigned(reported) as nat),
{
    if !force {
        let outcomes = new_outcomes(before, after);
        assert forall|k: int| 0 <= k < outcomes.len() implies !(
        #[trigger] outcomes[k] is QueueError) by {
            assert(outcomes[k] == after.tried[before.tried.len() + k]);
        }
        lemma_added_in_order(id, num, outcomes);
    }
}

/// Force makes a difference only where the queue is full: a run that gives way,
/// but never has to, offers the same events as one that forces its way, and
/// reports the same.
pub proof fn lemma_force_matters_only_when_full(
    before: ProducerState<MsgEvent>,
    after: ProducerState<MsgEvent>,
    reported: i32,
    forced_before: ProducerState<MsgEvent>,
    forced_after: ProducerState<MsgEvent>,
    forced_reported: i32,
    id: u32,
    num: u32,
)
    requires
        run_sent(before, after, id, num, false, reported),
        none_full(new_outcomes(before, after)),
        run_sent(forced_before, forced_after, id, num, true, forced_reported),
    ensures
        reported == signed(num),
        forced_reported == signed(num),
        offered(run_calls(id, num, false, new_outcomes(before, after))) == event_run(
            id,
            num as nat,
        ),
        offered(run_calls(id, num, true, new_outcomes(forced_before, forced_after))) == event_run(
            id,
            num as nat,
        ),
{
    let outcomes = new_outcomes(before, after);
    assert(outcomes.len() > 0 ==> !(outcomes[outcomes.len() - 1] is QueueFull));
    assert(offered(run_calls(id, num, false, outcomes)) =~= event_run(id, num as nat));
    assert(offered(run_calls(id, num, true, new_outcomes(forced_before, forced_after)))
        =~= event_run(id, num as nat));
}

/// What is reported if the attempt to send event `nr` ended the run.
pub fn after_try_push(nr: u32, outcome: TryPushOutcome) -> (r: Option<i32>)
    ensures
        r is Some <==> outcome is QueueFull,
        r matches Some(reported) ==> reported == signed(nr),
{
    if let TryPushOutcome::QueueFull = outcome {
        Some(to_signed(nr))
    } else {
        None
    }
}

/// The quotient, rounded towards zero.
pub open spec fn quotient(a: int, b: int) -> int {
    let magnitude = vstd::math::abs(a) / vstd::math::abs(b);
    if (a < 0) == (b < 0) {
        magnitude as int
    } else {
        -magnitude
    }
}

/// Of a division that rounds towards zero, the remainder is smaller than the
/// divisor and has the sign of the dividend.
pub proof fn lemma_quotient(a: int, b: int)
    requires
        b != 0,
    ensures
        ({
            let remainder = a - b * quotient(a, b);
            &&& vstd::math::abs(remainder) < vstd::math::abs(b)
            &&& a >= 0 ==> remainder >= 0
            &&& a <= 0 ==> remainder <= 0
        }),
{
    let x: int = vstd::math::abs(a) as int;
    let d: int = vstd::math::abs(b) as int;
    vstd::arithmetic::div_mod::lemma_fundamental_div_mod(x, d);
    vstd::arithmetic::div_mod::lemma_mod_bound(x, d);
    let q: int = x / d;
    let product: int = d * q;
    assert(b < 0 ==> b * q == -product) by (nonlinear_arith)
        requires
            b < 0 ==> b == -d,
            product == d * q,
    ;
    assert(b * (-q) == -(b * q)) by (nonlinear_arith);
}

/// The quotient of two `i32`s is an `i32`, save the one that overflows.
pub proof fn lemma_quotient_fits(a: i32, b: i32)
    requires
        b != 0,
    ensures
        i32::MIN <= quotient(a as int, b as int) <= i32::MAX <==> !quotient_overflows(a, b),
{
    let x: int = vstd::math::abs(a as int) as int;
    let d: int = vstd::math::abs(b as int) as int;
    assert(x / d <= x) by (nonlinear_arith)
        requires
            x >= 0,
            d >= 1,
    ;
    assert(d >= 2 ==> 2 * (x / d) <= x) by (nonlinear_arith)
        requires
            x >= 0,
            d >= 1,
    ;
    assert(x / 1 == x);
    assert(x / d >= 0) by (nonlinear_arith)
        requires
            x >= 0,
            d >= 1,
    ;
}

/// What a division reports: an error code, and the quotient.
pub open spec fn division(a: i32, b: i32) -> (int, int) {
    if b == 0 {
        (-1, 0)
    } else {
        (0, quotient(a as int, b as int))
    }
}

/// How `cmd` is answered. The data is set by a division alone; otherwise what
/// was `left` in the slot is sent along. A run of events supplies its own
/// `reported` result.
pub open spec fn answer(cmd: MsgCommand, left: MsgResponse, reported: i32) -> MsgResponse {
    if cmd.asks(CommandId::SendEvent) {
        MsgResponse { id: cmd.id, result: reported, data: left.data }
    } else if cmd.asks(CommandId::Div) {
        let (result, data) = division(cmd.args@[0], cmd.args@[1]);
        MsgResponse { id: cmd.id, result: result as i32, data: data as i32 }
    } else {
        MsgResponse { id: cmd.id, result: 0, data: left.data }
    }
}

/// An answer repeats the id of its command. A division by zero is answered with
/// an error code, every other division with the quotient, a greeting and a stop
/// with a result of zero.
pub proof fn lemma_answer(cmd: MsgCommand, left: MsgResponse, reported: i32)
    requires
        cmd.executable(),
    ensures
        answer(cmd, left, reported).id == cmd.id,
        cmd.asks(CommandId::Div) && cmd.args@[1] == 0 ==> answer(cmd, left, reported) == (
        MsgResponse { id: cmd.id, result: -1i32, data: 0 }),
        cmd.asks(CommandId::Div) && cmd.args@[1] != 0 ==> {
            &&& answer(cmd, left, reported).result == 0
            &&& answer(cmd, left, reported).data == quotient(
                cmd.args@[0] as int,
                cmd.args@[1] as int,
            )
        },
        cmd.asks(CommandId::Hello) || cmd.asks(CommandId::Stop) ==> answer(
            cmd,
            left,
            reported,
        ).result == 0,
{
    if cmd.asks(CommandId::Div) && cmd.args@[1] != 0 {
        lemma_quotient_fits(cmd.args@[0], cmd.args@[1]);
    }
}

/// How carrying `cmd` out changes a server, and whether it goes on: a run of
/// events is sent if one was asked for, and then the answer.
pub open spec fn carried_out(before: Server, after: Server, cmd: MsgCommand, run: bool) -> bool {
    let quiet = response_state(before.response);
    let answered = response_state(after.response);
    let reported = answered.sent.last().result;
    &&& run == !cmd.asks(CommandId::Stop)
    &&& answered.sent == quiet.sent.push(answer(cmd, quiet.slot, reported))
    &&& answered.tried == quiet.tried
    &&& answered.channel == quiet.channel
    &&& if cmd.asks(CommandId::SendEvent) {
        let id = unsigned(cmd.args@[0]) as u32;
        let num = unsigned(cmd.args@[1]) as u32;
        let force = cmd.args@[2] != 0;
        let idle = event_state(before.event);
        let done = event_state(after.event);
        &&& run_sent(idle, done, id, num, force, reported)
        &&& after.calls() == before.calls() + run_calls(
            id,
            num,
            force,
            new_outcomes(idle, done),
        ).push(Call::ResponseForced(answered.sent.last()))
    } else {
        &&& after.event == before.event
        &&& after.calls() == before.calls().push(Call::ResponseForced(answered.sent.last()))
    }
}

/// Whether the channels are those of a server: the commands come in at the first
/// consumer, and responses and events go out at the first two producers.
pub open spec fn serves(v: VectorState) -> bool {
    &&& fits(v.consumers, 0, vstd::layout::size_of::<MsgCommand>())
    &&& fits(v.producers, 0, vstd::layout::size_of::<MsgResponse>())
    &&& fits(v.producers, 1, vstd::layout::size_of::<MsgEvent>())
}

/// Whether the channels that a server uses are there, with descriptions that are
/// text.
pub open spec fn describable(v: VectorState) -> bool {
    &&& vstd::utf8::valid_utf8(v.info)
    &&& present(v.consumers, 0) && vstd::utf8::valid_utf8(v.consumers[0]->0.info)
    &&& present(v.producers, 0) && vstd::utf8::valid_utf8(v.producers[0]->0.info)
    &&& present(v.producers, 1) && vstd::utf8::valid_utf8(v.producers[1]->0.info)
}

/// How a request is shown.
pub open spec fn description(v: VectorState) -> Seq<char> {
    "server received request vec="@ + vstd::utf8::decode_utf8(v.info) + " cmd="@
        + vstd::utf8::decode_utf8(v.consumers[0]->0.info) + " rsp="@ + vstd::utf8::decode_utf8(
        v.producers[0]->0.info,
    ) + " evt="@ + vstd::utf8::decode_utf8(v.producers[1]->0.info)
}

/// Whether the channels are those that `m` configures, each with room for the
/// messages that were asked for.
pub open spec fn provides(v: VectorState, m: VectorModel) -> bool {
    &&& all_provided(v.consumers, m.consumers)
    &&& all_provided(v.producers, m.producers)
    &&& v.info == m.info
}

pub open spec fn all_provided(
    channels: Seq<Option<ChannelSetup>>,
    configs: Seq<ChannelModel>,
) -> bool {
    &&& channels.len() == configs.len()
    &&& forall|i: int|
        0 <= i < channels.len() ==> {
            &&& #[trigger] channels[i] is Some
            &&& configs[i].message_size <= channels[i]->0.message_size
            &&& channels[i]->0.info == configs[i].info
        }
}

/// The channels that the client of the example asks for are those of a server,
/// once seen from the other side, and this is how the request is shown.
pub proof fn lemma_example_is_served(v: VectorState)
    requires
        provides(v, rpc_model().mirrored()),
    ensures
        serves(v),
        describable(v),
        description(v) == "server received request vec="@ + "rpc example"@ + " cmd="@
            + "rpc command"@ + " rsp="@ + "rpc response"@ + " evt="@ + "rpc event"@,
{
    let m = rpc_model().mirrored();
    assert(m.consumers[0].info == v.consumers[0]->0.info);
    assert(m.producers[0].info == v.producers[0]->0.info);
    assert(m.producers[1].info == v.producers[1]->0.info);
    broadcast use vstd::utf8::encode_utf8_valid_utf8, vstd::utf8::encode_utf8_decode_utf8;

}

/// The line that tells of a request to serve `vec`, if its channels are there and
/// described by text.
pub fn describe_vector(vec: &rtipc::ChannelVector) -> (r: Option<String>)
    ensures
        r is Some <==> describable(vector_state(*vec)),
        r matches Some(line) ==> line@ == description(vector_state(*vec)),
{
    let vec_info = text_of(vec.info().as_slice())?;
    let cmd_info = text_of(vec.consumer_info(0)?.as_slice())?;
    let rsp_info = text_of(vec.producer_info(0)?.as_slice())?;
    let evt_info = text_of(vec.producer_info(1)?.as_slice())?;
    let mut line = String::new();
    line.append("server received request vec=");
    line.append(vec_info);
    line.append(" cmd=");
    line.append(cmd_info);
    line.append(" rsp=");
    line.append(rsp_info);
    line.append(" evt=");
    line.append(evt_info);
    assert(line@ =~= description(vector_state(*vec)));
    Some(line)
}

/// What follows an attempt to receive a command.
#[derive(Copy, Clone, Debug)]
pub enum ReceiveDecision {
    /// Give up.
    Fail,
    /// Serve no more.
    Stop,
    /// Carry the command out.
    Run(MsgCommand),
}

pub open spec fn receive_decision(
    received: Result<Option<MsgCommand>, QueueFault>,
) -> ReceiveDecision {
    match received {
        Err(_) => ReceiveDecision::Fail,
        Ok(None) => ReceiveDecision::Stop,
        Ok(Some(cmd)) => if cmd.executable() {
            ReceiveDecision::Run(cmd)
        } else {
            ReceiveDecision::Fail
        },
    }
}

/// A broken queue is a failure, and so is a command that cannot be carried out.
/// Where there is no command, the server is done.
pub fn after_receive(received: Result<Option<MsgCommand>, QueueFault>) -> (r: ReceiveDecision)
    ensures
        r == receive_decision(received),
{
    match received {
        Err(_) => ReceiveDecision::Fail,
        Ok(None) => ReceiveDecision::Stop,
        Ok(Some(cmd)) => if cmd.is_executable() {
            ReceiveDecision::Run(cmd)
        } else {
            ReceiveDecision::Fail
        },
    }
}

/// What happens to a server that waits for commands.
#[derive(Copy, Clone, Debug)]
pub enum ServeEvent {
    Started,
    /// The wait is over; there may be something to read.
    Woken { readable: bool },
    /// A command was asked for, and this is to follow.
    Received(ReceiveDecision),
    /// A command was carried out, and `run` tells whether to go on.
    Processed { run: bool },
}

/// What a server that waits for commands does next.
#[derive(Copy, Clone, Debug)]
pub enum ServeAction {
    /// Wait until there may be something to read.
    Wait,
    /// Ask for the next command.
    Receive,
    /// Carry the command out.
    Process(MsgCommand),
    /// Serve no more.
    Stop,
    /// Give up.
    Fail,
}

pub open spec fn serve_step(event: ServeEvent) -> ServeAction {
    match event {
        ServeEvent::Started => ServeAction::Wait,
        ServeEvent::Woken { readable } => if readable {
            ServeAction::Receive
        } else {
            ServeAction::Wait
        },
        ServeEvent::Received(ReceiveDecision::Fail) => ServeAction::Fail,
        ServeEvent::Received(ReceiveDecision::Stop) => ServeAction::Stop,
        ServeEvent::Received(ReceiveDecision::Run(cmd)) => ServeAction::Process(cmd),
        ServeEvent::Processed { run } => if run {
            ServeAction::Wait
        } else {
            ServeAction::Stop
        },
    }
}

/// A server waits, asks for a command whenever there is something to read, and
/// goes on until there is none or one tells it to stop.
pub fn serve_next(event: ServeEvent) -> (r: ServeAction)
    ensures
        r == serve_step(event),
{
    match event {
        ServeEvent::Started => ServeAction::Wait,
        ServeEvent::Woken { readable } => if readable {
            ServeAction::Receive
        } else {
            ServeAction::Wait
        },
        ServeEvent::Received(ReceiveDecision::Fail) => ServeAction::Fail,
        ServeEvent::Received(ReceiveDecision::Stop) => ServeAction::Stop,
        ServeEvent::Received(ReceiveDecision::Run(cmd)) => ServeAction::Process(cmd),
        ServeEvent::Processed { run } => if run {
            ServeAction::Wait
        } else {
            ServeAction::Stop
        },
    }
}

/// A server that finds no command to receive stops, one whose queue is broken
/// gives up, and one that receives a command that it can carry out does so.
pub proof fn lemma_what_follows_a_pop(outcome: PopOutcome, held: MsgCommand)
    ensures
        ({
            let then = serve_step(
                ServeEvent::Received(receive_decision(reception(outcome, held))),
            );
            &&& outcome is NoMessage || outcome is NoNewMessage ==> then is Stop
            &&& outcome is QueueError ==> then is Fail
            &&& outcome.brings_message() && held.executable() ==> then == ServeAction::Process(held)
            &&& outcome.brings_message() && !held.executable() ==> then is Fail
        }),
{
}

/// Whether an action ends the serving.
pub open spec fn ends(action: ServeAction) -> bool {
    action is Stop || action is Fail
}

/// What a server does from `action` on, where `events` is what happens in turn.
pub open spec fn serve_from(action: ServeAction, events: Seq<ServeEvent>) -> Seq<ServeAction>
    decreases events.len(),
{
    if ends(action) || events.len() == 0 {
        seq![action]
    } else {
        seq![action] + serve_from(serve_step(events[0]), events.drop_first())
    }
}

/// What a server does in all, where `events` is what happens once it was started.
pub open spec fn serve_whole(events: Seq<ServeEvent>) -> Seq<ServeAction> {
    serve_from(serve_step(ServeEvent::Started), events)
}

/// Whether `event` is what can come of `action`.
pub open spec fn comes_of(event: ServeEvent, action: ServeAction) -> bool {
    match action {
        ServeAction::Wait => event is Woken,
        ServeAction::Receive => event is Received,
        ServeAction::Process(_) => event is Processed,
        _ => false,
    }
}

proof fn lemma_serve_from(action: ServeAction, events: Seq<ServeEvent>)
    ensures
        ({
            let actions = serve_from(action, events);
            &&& 0 < actions.len() <= events.len() + 1
            &&& actions[0] == action
            &&& forall|k: int|
                0 < k < actions.len() ==> #[trigger] actions[k] == serve_step(events[k - 1])
            &&& forall|k: int|
                0 <= k < actions.len() - 1 ==> !ends(#[trigger] actions[k])
            &&& ends(actions.last()) || actions.len() == events.len() + 1
        }),
    decreases events.len(),
{
    let actions = serve_from(action, events);
    if !ends(action) && events.len() > 0 {
        let rest = serve_from(serve_step(events[0]), events.drop_first());
        lemma_serve_from(serve_step(events[0]), events.drop_first());
        assert forall|k: int| 0 < k < actions.len() implies #[trigger] actions[k] == serve_step(
            events[k - 1],
        ) by {
            assert(actions[k] == rest[k - 1]);
            if k > 1 {
                assert(events.drop_first()[k - 2] == events[k - 1]);
            }
        }
        assert forall|k: int| 0 <= k < actions.len() - 1 implies !ends(#[trigger] actions[k]) by {
            if k > 0 {
                assert(actions[k] == rest[k - 1]);
            }
        }
        assert(actions.last() == rest.last());
    }
}

/// Whatever happens, a server asks for a command only directly after a wait that
/// found something to read, and carries out only what it has just received. Once
/// there is no command, the queue is broken, a command cannot be carried out, or
/// one told it to stop, nothing follows.
pub proof fn lemma_serving(events: Seq<ServeEvent>)
    ensures
        ({
            let actions = serve_whole(events);
            &&& 0 < actions.len() <= events.len() + 1
            &&& actions[0] is Wait
            &&& forall|k: int|
                0 <= k < actions.len() && (#[trigger] actions[k] is Receive) ==> k > 0
                    && events[k - 1] == (ServeEvent::Woken { readable: true })
            &&& forall|k: int|
                0 <= k < actions.len() && (#[trigger] actions[k] is Process) ==> k > 0
                    && events[k - 1] == ServeEvent::Received(
                    ReceiveDecision::Run(actions[k]->Process_0),
                )
            &&& forall|k: int|
                0 <= k < events.len() && k + 1 < actions.len() && ((#[trigger] events[k])
                    == ServeEvent::Received(ReceiveDecision::Stop) || events[k]
                    == ServeEvent::Received(ReceiveDecision::Fail) || events[k] == (
                ServeEvent::Processed { run: false })) ==> actions.len() == k + 2 && ends(
                    actions[k + 1],
                )
        }),
{
    lemma_serve_from(serve_step(ServeEvent::Started), events);
    let actions = serve_whole(events);
    assert forall|k: int|
        0 <= k < events.len() && k + 1 < actions.len() && ((#[trigger] events[k])
            == ServeEvent::Received(ReceiveDecision::Stop) || events[k] == ServeEvent::Received(
            ReceiveDecision::Fail,
        ) || events[k] == (ServeEvent::Processed {
            run: false,
        })) implies actions.len() == k + 2 && ends(actions[k + 1]) by {
        assert(actions[k + 1] == serve_step(events[k]));
    }
}

/// Where each event comes of the action before it, a command is carried out only
/// after a wait that found something to read, and its reception in between.
pub proof fn lemma_processes_after_readable_wait(events: Seq<ServeEvent>, k: int)
    requires
        forall|j: int|
            0 <= j < events.len() && j < serve_whole(events).len() ==> comes_of(
                #[trigger] events[j],
                serve_whole(events)[j],
            ),
        0 <= k < serve_whole(events).len(),
        serve_whole(events)[k] is Process,
    ensures
        k >= 2,
        serve_whole(events)[k - 1] is Receive,
        events[k - 2] == (ServeEvent::Woken { readable: true }),
{
    lemma_serve_from(serve_step(ServeEvent::Started), events);
    lemma_serving(events);
    let actions = serve_whole(events);
    assert(comes_of(events[k - 1], actions[k - 1]));
}

impl Server {
    /// Messages are composed in the shared memory.
    pub open spec fn wf(self) -> bool {
        &&& !response_state(self.response).cached
        &&& !event_state(self.event).cached
    }

    /// The pops and pushes on the server's channels, in the order in which they
    /// were made.
    pub open spec fn calls(self) -> Seq<Call> {
        trace(self.command, self.response, self.event)
    }

    /// Whether this is a server on the channels of `v`, through which nothing has
    /// gone yet.
    pub open spec fn fresh(self, v: VectorState) -> bool {
        &&& self.wf()
        &&& Some(command_state(self.command).channel) == v.consumers[0]
        &&& Some(response_state(self.response).channel) == v.producers[0]
        &&& Some(event_state(self.event).channel) == v.producers[1]
        &&& command_state(self.command).popped.len() == 0
        &&& response_state(self.response).sent.len() == 0
        &&& response_state(self.response).tried.len() == 0
        &&& event_state(self.event).sent.len() == 0
        &&& event_state(self.event).tried.len() == 0
    }

    /// Answers a request to serve `vec`: the line that tells of it, if there is
    /// one, and a server, if there is a line and the channels are those of a
    /// server.
    pub fn new(vec: rtipc::ChannelVector) -> (r: (Option<String>, Option<Server>))
        ensures
            r.0 is Some <==> describable(vector_state(vec)),
            r.0 matches Some(line) ==> line@ == description(vector_state(vec)),
            r.1 is Some <==> describable(vector_state(vec)) && serves(vector_state(vec)),
            r.1 matches Some(server) ==> server.fresh(vector_state(vec)),
    {
        match describe_vector(&vec) {
            Some(line) => (Some(line), Server::take_ends(vec)),
            None => (None, None),
        }
    }

    /// A server on the channels of `vec`, if they are those of a server.
    fn take_ends(vec: rtipc::ChannelVector) -> (r: Option<Server>)
        ensures
            r is Some <==> serves(vector_state(vec)),
            r matches Some(server) ==> server.fresh(vector_state(vec)),
    {
        let mut vec = vec;
        let command = match take_command(&mut vec, 0) {
            Some(command) => command,
            None => return None,
        };
        let response = match take_response(&mut vec, 0) {
            Some(response) => response,
            None => return None,
        };
        let event = match take_event(&mut vec, 1) {
            Some(event) => event,
            None => return None,
        };
        Some(Server { command, response, event })
    }

    /// Fetches the next command, if there is one.
    pub fn receive_cmd(&mut self) -> (r: Result<Option<MsgCommand>, QueueFault>)
        ensures
            final(self).response == old(self).response,
            final(self).event == old(self).event,
            command_state(final(self).command).channel == command_state(old(self).command).channel,
            ({
                let popped = command_state(final(self).command).popped;
                &&& popped.len() == command_state(old(self).command).popped.len() + 1
                &&& popped.drop_last() == command_state(old(self).command).popped
                &&& final(self).calls() == old(self).calls().push(
                    Call::CommandPopped(popped.last()),
                )
                &&& !popped.last().brings_message() ==> command_state(final(self).command).held
                    == command_state(old(self).command).held
                &&& r == reception(popped.last(), command_state(final(self).command).held)
            }),
    {
        let outcome = command_pop(self);
        assert(command_state(self.command).popped.drop_last() =~= command_state(
            old(self).command,
        ).popped);
        match outcome.decide() {
            PopDecision::Fail => Err(QueueFault),
            PopDecision::Skip => Ok(None),
            PopDecision::Read => Ok(command_message(&self.command)),
        }
    }

    /// Carries `cmd` out and answers it. Tells whether to go on, which only a
    /// stop command denies.
    pub fn process_cmd(&mut self, cmd: MsgCommand) -> (run: bool)
        requires
            old(self).wf(),
            cmd.executable(),
        ensures
            final(self).wf(),
            final(self).command == old(self).command,
            carried_out(*old(self), *final(self), cmd, run),
    {
        let mut run: bool = true;
        response_message(self).id = cmd.id;
        let args = cmd.args;
        let result: i32 = match CommandId::from_code(cmd.id) {
            Some(CommandId::Hello) => 0,
            Some(CommandId::Stop) => {
                run = false;
                0
            },
            Some(CommandId::SendEvent) => self.send_events(
                to_unsigned(args[0]),
                to_unsigned(args[1]),
                args[2] != 0,
            ),
            Some(CommandId::Div) => {
                let (err, res) = self.div(args[0], args[1]);
                response_message(self).data = res;
                err
            },
            None => {
                proof {
                    let c = choose|c: CommandId| #[trigger] cmd.asks(c);
                    assert(c.number() == cmd.id);
                }
                0
            },
        };
        response_message(self).result = result;
        response_force_push(self);
        run
    }

    /// Sends a run of `num` events. Tells how far it came.
    pub fn send_events(&mut self, id: u32, num: u32, force: bool) -> (r: i32)
        requires
            old(self).wf(),
        ensures
            final(self).wf(),
            final(self).command == old(self).command,
            final(self).response == old(self).response,
            run_sent(
                event_state(old(self).event),
                event_state(final(self).event),
                id,
                num,
                force,
                r,
            ),
            final(self).calls() == old(self).calls() + run_calls(
                id,
                num,
                force,
                new_outcomes(event_state(old(self).event), event_state(final(self).event)),
            ),
    {
        let ghost before = event_state(self.event);
        let ghost mut outcomes: Seq<TryPushOutcome> = seq![];
        assert(before.tried.skip(before.tried.len() as int) =~= outcomes);
        let mut i: u32 = 0;
        while i < num
            invariant
                i <= num,
                self.wf(),
                self.command == old(self).command,
                self.response == old(self).response,
                before == event_state(old(self).event),
                event_state(self.event).channel == before.channel,
                event_state(self.event).tried == before.tried + outcomes,
                self.calls() == old(self).calls() + run_calls(id, i, force, outcomes),
                i == 0 ==> event_state(self.event).slot == before.slot,
                !force && i > 0 && !(outcomes.last() is Success) ==> event_state(self.event).slot
                    == numbered_event(id, i - 1),
                force ==> outcomes.len() == 0 && event_state(self.event).sent == before.sent
                    + event_run(id, i as nat),
                !force ==> outcomes.len() == i && none_full(outcomes) && event_state(
                    self.event,
                ).sent == before.sent + added(id, outcomes),
            decreases num - i,
        {
            let event = event_message(self);
            event.id = id;
            event.nr = i;
            if force {
                event_force_push(self);
                assert(event_run(id, (i + 1) as nat) =~= event_run(id, i as nat).push(
                    numbered_event(id, i as int),
                ));
                assert(event_state(self.event).sent =~= before.sent + event_run(
                    id,
                    (i + 1) as nat,
                ));
                assert(self.calls() =~= old(self).calls() + run_calls(
                    id,
                    (i + 1) as u32,
                    force,
                    outcomes,
                ));
            } else {
                let outcome = event_try_push(self);
                proof {
                    let earlier = outcomes;
                    outcomes = outcomes.push(outcome);
                    assert(outcomes.drop_last() =~= earlier);
                    assert(event_state(self.event).tried =~= before.tried + outcomes);
                    assert(event_state(self.event).tried.skip(before.tried.len() as int)
                        =~= outcomes);
                    assert(event_state(self.event).sent =~= before.sent + added(id, outcomes));
                    assert(self.calls() =~= old(self).calls() + run_calls(
                        id,
                        (i + 1) as u32,
                        force,
                        outcomes,
                    ));
                }
                if let Some(reported) = after_try_push(i, outcome) {
                    return reported;
                }
            }
            i = i + 1;
        }
        assert(event_state(self.event).tried =~= before.tried + outcomes);
        assert(event_state(self.event).tried.skip(before.tried.len() as int) =~= outcomes);
        to_signed(num)
    }

    /// Divides, with an error code for a divisor of zero.
    pub fn div(&mut self, a: i32, b: i32) -> (r: (i32, i32))
        requires
            !quotient_overflows(a, b),
        ensures
            *final(self) == *old(self),
            (r.0 as int, r.1 as int) == division(a, b),
    {
        proof {
            if b != 0 {
                lemma_quotient_fits(a, b);
            }
        }
        match a.checked_div(b) {
            None => (-1, 0),
            Some(q) => (0, q),
        }
    }
}

} // verus!
