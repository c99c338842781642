//! What a server does.

use crate::channel::fits;
use crate::channel::present;
use crate::channel::trace;
use crate::channel::without;
use crate::channel::command_state;
use crate::channel::event_state;
use crate::channel::response_state;
use crate::channel::Call;
use crate::channel::ChannelSetup;
use crate::channel::ProducerState;
use crate::channel::QueueFault;
use crate::channel::TryPushOutcome;
use crate::channel::VectorState;
use crate::laws::message::law_asks;
use crate::laws::message::law_executable;
use crate::laws::message::law_unsigned;
use crate::message::MsgCommand;
use crate::message::MsgEvent;
use crate::message::MsgResponse;
use crate::server::added;
use crate::server::answer;
use crate::server::carried_out;
use crate::server::describable;
use crate::server::description;
use crate::server::lemma_quotient;
use crate::server::lemma_quotient_fits;
use crate::server::division;
use crate::server::new_outcomes;
use crate::server::receive_decision;
use crate::server::run_calls;
use crate::server::run_sent;
use crate::server::serve_step;
use crate::server::serves;
use crate::server::ReceiveDecision;
use crate::server::ServeAction;
use crate::server::ServeEvent;
use crate::server::Server;
use crate::wrap::unsigned;
use vstd::prelude::*;

verus! {

/// A run that forces its way sends `num` events after what was sent before. Each
/// has the id that was asked for, and they are numbered from zero on, so no two
/// of them are the same. It reports `num`, reduced to the range of an `i32`.
pub proof fn law_forced_run(
    before: ProducerState<MsgEvent>,
    after: ProducerState<MsgEvent>,
    id: u32,
    num: u32,
    reported: i32,
)
    requires
        run_sent(before, after, id, num, true, reported),
    ensures
        after.sent.len() == before.sent.len() + num,
        after.sent.take(before.sent.len() as int) == before.sent,
        forall|k: int|
            0 <= k < num ==> (#[trigger] after.sent[before.sent.len() + k]).id == id
                && after.sent[before.sent.len() + k].nr == k,
        after.tried == before.tried,
        reported == num || reported == num - 0x1_0000_0000,
        num == 0 ==> after.slot == before.slot,
        !after.cached,
        after.channel == before.channel,
{
    assert(after.sent.take(before.sent.len() as int) =~= before.sent);
}

/// A run that gives way makes an attempt for each event in turn, and none after
/// one for which there was no room; it reports how many it came to before that
/// one. Exactly the events whose attempt succeeded are added, in order, with the
/// id that was asked for and the number of the attempt. An event that could not
/// be added last stays in the slot.
pub proof fn law_yielding_run(
    before: ProducerState<MsgEvent>,
    after: ProducerState<MsgEvent>,
    id: u32,
    num: u32,
    reported: i32,
)
    requires
        run_sent(before, after, id, num, false, reported),
    ensures
        before.tried.len() <= after.tried.len() <= before.tried.len() + num,
        after.tried.take(before.tried.len() as int) == before.tried,
        forall|k: int|
            before.tried.len() <= k < after.tried.len() - 1 ==> !(
            #[trigger] after.tried[k] is QueueFull),
        ({
            let made = after.tried.len() - before.tried.len();
            if made > 0 && after.tried.last() is QueueFull {
                reported == made - 1 || reported == made - 1 - 0x1_0000_0000
            } else {
                made == num && (reported == num || reported == num - 0x1_0000_0000)
            }
        }),
        after.sent.len() >= before.sent.len(),
        after.sent.take(before.sent.len() as int) == before.sent,
        forall|j: int|
            before.sent.len() <= j < after.sent.len() ==> (#[trigger] after.sent[j]).id == id
                && after.sent[j].nr < after.tried.len() - before.tried.len()
                && after.tried[before.tried.len() + after.sent[j].nr] is Success,
        forall|i: int, j: int|
            before.sent.len() <= i < j < after.sent.len() ==> (#[trigger] after.sent[i]).nr < (
            #[trigger] after.sent[j]).nr,
        forall|k: int|
            before.tried.len() <= k < after.tried.len() && (#[trigger] after.tried[k] is Success)
                ==> exists|j: int|
                before.sent.len() <= j < after.sent.len() && (#[trigger] after.sent[j]).nr == k
                    - before.tried.len(),
        after.tried.len() > before.tried.len() && !(after.tried.last() is Success)
            ==> after.slot.id == id && after.slot.nr == after.tried.len() - before.tried.len() - 1,
        num == 0 ==> after.slot == before.slot,
        !after.cached,
        after.channel == before.channel,
{
    let outcomes = new_outcomes(before, after);
    let n = before.tried.len();
    let m = before.sent.len();
    let new = added(id, outcomes);
    lemma_added(id, outcomes);
    assert(after.tried.take(n as int) =~= before.tried);
    assert(after.sent.take(m as int) =~= before.sent);
    assert(after.sent =~= before.sent + new);
    assert forall|k: int| n <= k < after.tried.len() - 1 implies !(
    #[trigger] after.tried[k] is QueueFull) by {
        assert(after.tried[k] == outcomes[k - n]);
        assert(outcomes.drop_last()[k - n] == outcomes[k - n]);
    }
    if outcomes.len() > 0 {
        assert(after.tried.last() == outcomes.last());
        assert(outcomes[outcomes.len() - 1] == outcomes.last());
    }
    assert forall|j: int| m <= j < after.sent.len() implies (#[trigger] after.sent[j]).id == id
        && after.sent[j].nr < after.tried.len() - n && after.tried[n + after.sent[j].nr] is Success by {
        assert(after.sent[j] == new[j - m]);
        assert(outcomes[new[j - m].nr as int] == after.tried[n + new[j - m].nr]);
    }
    assert forall|i: int, j: int| m <= i < j < after.sent.len() implies (
    #[trigger] after.sent[i]).nr < (#[trigger] after.sent[j]).nr by {
        assert(after.sent[i] == new[i - m]);
        assert(after.sent[j] == new[j - m]);
    }
    assert forall|k: int|
        n <= k < after.tried.len() && (#[trigger] after.tried[k] is Success) implies exists|j: int|
        m <= j < after.sent.len() && (#[trigger] after.sent[j]).nr == k - n by {
        assert(outcomes[k - n] == after.tried[k]);
        let j = choose|j: int| 0 <= j < new.len() && (#[trigger] new[j]).nr == k - n;
        assert(after.sent[m + j] == new[j]);
    }
}

proof fn lemma_added(id: u32, outcomes: Seq<TryPushOutcome>)
    requires
        outcomes.len() <= u32::MAX,
    ensures
        ({
            let new = added(id, outcomes);
            &&& forall|j: int|
                0 <= j < new.len() ==> (#[trigger] new[j]).id == id && new[j].nr < outcomes.len()
                    && outcomes[new[j].nr as int] is Success
            &&& forall|i: int, j: int|
                0 <= i < j < new.len() ==> (#[trigger] new[i]).nr < (#[trigger] new[j]).nr
            &&& forall|k: int|
                0 <= k < outcomes.len() && (#[trigger] outcomes[k] is Success) ==> exists|j: int|
                    0 <= j < new.len() && (#[trigger] new[j]).nr == k
        }),
    decreases outcomes.len(),
{
    if outcomes.len() > 0 {
        let fewer = outcomes.drop_last();
        let old_new = added(id, fewer);
        let new = added(id, outcomes);
        lemma_added(id, fewer);
        assert forall|k: int|
            0 <= k < outcomes.len() && (#[trigger] outcomes[k] is Success) implies exists|j: int|
            0 <= j < new.len() && (#[trigger] new[j]).nr == k by {
            if k < fewer.len() {
                assert(fewer[k] == outcomes[k]);
                let j = choose|j: int| 0 <= j < old_new.len() && (#[trigger] old_new[j]).nr == k;
                assert(new[j] == old_new[j]);
            } else {
                assert(new[new.len() - 1].nr == k);
            }
        }
    }
}

/// The pushes of a run, one by one: each offers the event with the id that was
/// asked for and the number of the push.
pub proof fn law_run_calls(id: u32, num: u32, force: bool, outcomes: Seq<TryPushOutcome>)
    requires
        outcomes.len() <= num,
    ensures
        ({
            let calls = run_calls(id, num, force, outcomes);
            if force {
                &&& calls.len() == num
                &&& forall|k: int|
                    0 <= k < num ==> (#[trigger] calls[k] matches Call::EventForced(e) && e.id == id
                        && e.nr == k)
            } else {
                &&& calls.len() == outcomes.len()
                &&& forall|k: int|
                    0 <= k < outcomes.len() ==> (#[trigger] calls[k] matches Call::EventTried(e, o)
                        && e.id == id && e.nr == k && o == outcomes[k])
            }
        }),
{
}

/// What came of the attempts between two states of a producer.
pub proof fn law_new_outcomes(before: ProducerState<MsgEvent>, after: ProducerState<MsgEvent>)
    requires
        before.tried.is_prefix_of(after.tried),
    ensures
        before.tried + new_outcomes(before, after) == after.tried,
{
    assert(before.tried + new_outcomes(before, after) =~= after.tried);
}

/// An answer has the id of its command. A greeting and a stop have the result
/// zero, a run of events what it reported, and both the data that was left. A
/// division by zero has the result -1 and the data zero. Any other division has
/// the result zero, and its data leaves of the dividend a remainder that is
/// smaller than the divisor and has the dividend's sign.
pub proof fn law_answer(cmd: MsgCommand, left: MsgResponse, reported: i32)
    requires
        1 <= cmd.id <= 4,
        !(cmd.id == 4 && cmd.args@[0] == -0x8000_0000 && cmd.args@[1] == -1),
    ensures
        ({
            let r = answer(cmd, left, reported);
            let a = cmd.args@[0] as int;
            let b = cmd.args@[1] as int;
            &&& r.id == cmd.id
            &&& cmd.id == 1 || cmd.id == 2 ==> r.result == 0
            &&& cmd.id == 3 ==> r.result == reported
            &&& cmd.id != 4 ==> r.data == left.data
            &&& cmd.id == 4 && b == 0 ==> r.result == -1 && r.data == 0
            &&& cmd.id == 4 && b != 0 ==> {
                let remainder = a - b * r.data;
                &&& r.result == 0
                &&& -b < remainder < b || b < remainder < -b
                &&& a >= 0 ==> remainder >= 0
                &&& a <= 0 ==> remainder <= 0
            }
        }),
{
    law_asks(cmd);
    if cmd.id == 4 && cmd.args@[1] != 0 {
        lemma_quotient(cmd.args@[0] as int, cmd.args@[1] as int);
        lemma_quotient_fits(cmd.args@[0], cmd.args@[1]);
    }
}

/// A command is carried out as its id and its arguments say. Only a stop ends the
/// serving. Exactly one response follows, behind everything else that is done, with
/// the id of the command. Only a run of events touches the channel of the events:
/// the first argument is the id of its events, the second their number, both taken
/// as unsigned, and any third argument but zero makes it force its way. A run that
/// is not cut short answers with its second argument.
pub proof fn law_carried_out(before: Server, after: Server, cmd: MsgCommand, run: bool)
    requires
        carried_out(before, after, cmd, run),
        1 <= cmd.id <= 4,
        !(cmd.id == 4 && cmd.args@[0] == -0x8000_0000 && cmd.args@[1] == -1),
    ensures
        run <==> cmd.id != 2,
        response_state(after.response).sent.len() == response_state(before.response).sent.len() + 1,
        response_state(after.response).sent.drop_last() == response_state(before.response).sent,
        response_state(after.response).sent.last().id == cmd.id,
        after.calls().len() > before.calls().len(),
        after.calls().take(before.calls().len() as int) == before.calls(),
        after.calls().last() == Call::ResponseForced(response_state(after.response).sent.last()),
        cmd.id != 3 ==> {
            &&& after.event == before.event
            &&& after.calls().len() == before.calls().len() + 1
        },
        cmd.id == 1 || cmd.id == 2 ==> response_state(after.response).sent.last().result == 0,
        cmd.id != 4 ==> response_state(after.response).sent.last().data == response_state(
            before.response,
        ).slot.data,
        cmd.id == 4 && cmd.args@[1] == 0 ==> {
            &&& response_state(after.response).sent.last().result == -1
            &&& response_state(after.response).sent.last().data == 0
        },
        cmd.id == 4 && cmd.args@[1] != 0 ==> {
            let a = cmd.args@[0] as int;
            let b = cmd.args@[1] as int;
            let remainder = a - b * response_state(after.response).sent.last().data;
            &&& response_state(after.response).sent.last().result == 0
            &&& -b < remainder < b || b < remainder < -b
            &&& a >= 0 ==> remainder >= 0
            &&& a <= 0 ==> remainder <= 0
        },
        cmd.id == 3 && cmd.args@[2] != 0 ==> {
            let sent = event_state(before.event).sent;
            let now = event_state(after.event).sent;
            &&& now.len() - sent.len() == cmd.args@[1] || now.len() - sent.len() == cmd.args@[1]
                + 0x1_0000_0000
            &&& now.take(sent.len() as int) == sent
            &&& forall|k: int|
                sent.len() <= k < now.len() ==> (#[trigger] now[k]).nr == k - sent.len() && (
                now[k].id == cmd.args@[0] || now[k].id == cmd.args@[0] + 0x1_0000_0000)
            &&& event_state(after.event).tried == event_state(before.event).tried
            &&& after.calls().len() - before.calls().len() - 1 == now.len() - sent.len()
            &&& response_state(after.response).sent.last().result == cmd.args@[1]
        },
        cmd.id == 3 && cmd.args@[2] == 0 ==> {
            let tried = event_state(before.event).tried;
            let now = event_state(after.event).tried;
            let made = now.len() - tried.len();
            let result = response_state(after.response).sent.last().result;
            &&& made >= 0 && now.take(tried.len() as int) == tried
            &&& after.calls().len() - before.calls().len() - 1 == made
            &&& if made > 0 && now.last() is QueueFull {
                result == made - 1 || result == made - 1 - 0x1_0000_0000
            } else {
                &&& made == cmd.args@[1] || made == cmd.args@[1] + 0x1_0000_0000
                &&& result == cmd.args@[1]
            }
            &&& forall|k: int|
                event_state(before.event).sent.len() <= k < event_state(after.event).sent.len()
                    ==> ((#[trigger] event_state(after.event).sent[k]).id == cmd.args@[0]
                    || event_state(after.event).sent[k].id == cmd.args@[0] + 0x1_0000_0000)
        },
{
    let quiet = response_state(before.response);
    let answered = response_state(after.response);
    let reported = answered.sent.last().result;
    law_asks(cmd);
    law_answer(cmd, quiet.slot, reported);
    assert(answered.sent.last() == answer(cmd, quiet.slot, reported));
    assert(answered.sent.drop_last() =~= quiet.sent);
    assert(after.calls().take(before.calls().len() as int) =~= before.calls());
    if cmd.id == 3 {
        let id = unsigned(cmd.args@[0]) as u32;
        let num = unsigned(cmd.args@[1]) as u32;
        let idle = event_state(before.event);
        let done = event_state(after.event);
        law_unsigned(cmd.args@[0]);
        law_unsigned(cmd.args@[1]);
        if cmd.args@[2] != 0 {
            law_forced_run(idle, done, id, num, reported);
            assert forall|k: int| idle.sent.len() <= k < done.sent.len() implies (
            #[trigger] done.sent[k]).nr == k - idle.sent.len() && done.sent[k].id == id by {
                assert(done.sent[idle.sent.len() + (k - idle.sent.len())].id == id);
            }
        } else {
            law_yielding_run(idle, done, id, num, reported);
        }
    }
}

/// A divisor of zero gives the code -1 and the quotient zero, any other the code
/// zero and the quotient that is rounded towards zero.
pub proof fn law_division(a: i32, b: i32)
    ensures
        b == 0 ==> division(a, b) == (-1int, 0int),
        b != 0 ==> division(a, b).0 == 0 && ({
            let remainder = a - b * division(a, b).1;
            &&& -b < remainder < b || b < remainder < -b
            &&& a >= 0 ==> remainder >= 0
            &&& a <= 0 ==> remainder <= 0
        }),
{
    if b != 0 {
        lemma_quotient(a as int, b as int);
    }
}

/// What follows a reception goes by the id and the arguments of the command.
pub proof fn law_receive_decision(received: Result<Option<MsgCommand>, QueueFault>)
    ensures
        received is Err ==> receive_decision(received) is Fail,
        received == Ok::<Option<MsgCommand>, QueueFault>(None) ==> receive_decision(received)
            is Stop,
        received matches Ok(Some(cmd)) ==> if 1 <= cmd.id <= 4 && !(cmd.id == 4 && cmd.args@[0]
            == -0x8000_0000 && cmd.args@[1] == -1) {
            receive_decision(received) == ReceiveDecision::Run(cmd)
        } else {
            receive_decision(received) is Fail
        },
{
    if let Ok(Some(cmd)) = received {
        law_executable(cmd);
    }
}

/// What a server does after each thing that can happen to it.
pub proof fn law_serve_step(cmd: MsgCommand)
    ensures
        serve_step(ServeEvent::Started) is Wait,
        serve_step(ServeEvent::Woken { readable: false }) is Wait,
        serve_step(ServeEvent::Woken { readable: true }) is Receive,
        serve_step(ServeEvent::Received(ReceiveDecision::Fail)) is Fail,
        serve_step(ServeEvent::Received(ReceiveDecision::Stop)) is Stop,
        serve_step(ServeEvent::Received(ReceiveDecision::Run(cmd))) == ServeAction::Process(cmd),
        serve_step(ServeEvent::Processed { run: true }) is Wait,
        serve_step(ServeEvent::Processed { run: false }) is Stop,
{
}

/// There is a channel at an index exactly if the list reaches that far and the
/// channel was not taken out; it fits if its messages are large enough.
pub proof fn law_channels(channels: Seq<Option<ChannelSetup>>, index: int, size: nat)
    ensures
        present(channels, index) <==> 0 <= index < channels.len() && channels[index] is Some,
        fits(channels, index, size) <==> 0 <= index < channels.len() && channels[index] is Some
            && size <= channels[index]->0.message_size,
        without(channels, index).len() == channels.len(),
        forall|i: int|
            0 <= i < channels.len() ==> #[trigger] without(channels, index)[i] == if i == index {
                None
            } else {
                channels[i]
            },
{
}

/// There is a line for every request whose channels are there, with descriptions
/// that are UTF-8, of whatever length, and for no other. There is a server if the
/// channels have room for the messages, too.
pub proof fn law_requests(v: VectorState)
    ensures
        describable(v) <==> {
            &&& vstd::utf8::valid_utf8(v.info)
            &&& v.consumers.len() >= 1 && v.consumers[0] is Some && vstd::utf8::valid_utf8(
                v.consumers[0]->0.info,
            )
            &&& v.producers.len() >= 2
            &&& v.producers[0] is Some && vstd::utf8::valid_utf8(v.producers[0]->0.info)
            &&& v.producers[1] is Some && vstd::utf8::valid_utf8(v.producers[1]->0.info)
        },
        serves(v) <==> {
            &&& v.consumers.len() >= 1 && v.producers.len() >= 2
            &&& v.consumers[0] is Some && vstd::layout::size_of::<MsgCommand>()
                <= v.consumers[0]->0.message_size
            &&& v.producers[0] is Some && vstd::layout::size_of::<MsgResponse>()
                <= v.producers[0]->0.message_size
            &&& v.producers[1] is Some && vstd::layout::size_of::<MsgEvent>()
                <= v.producers[1]->0.message_size
        },
{
}

/// Texts that were encoded as UTF-8 always make a line, which shows them as they
/// are.
pub proof fn law_request_line(
    v: VectorState,
    vec: Seq<char>,
    cmd: Seq<char>,
    rsp: Seq<char>,
    evt: Seq<char>,
)
    requires
        v.consumers.len() >= 1 && v.producers.len() >= 2,
        v.consumers[0] is Some && v.producers[0] is Some && v.producers[1] is Some,
        v.info == vstd::utf8::encode_utf8(vec),
        v.consumers[0]->0.info == vstd::utf8::encode_utf8(cmd),
        v.producers[0]->0.info == vstd::utf8::encode_utf8(rsp),
        v.producers[1]->0.info == vstd::utf8::encode_utf8(evt),
    ensures
        describable(v),
        description(v) == "server received request vec="@ + vec + " cmd="@ + cmd + " rsp="@ + rsp
            + " evt="@ + evt,
{
    broadcast use vstd::utf8::encode_utf8_valid_utf8, vstd::utf8::encode_utf8_decode_utf8;

}

/// A line shows what the descriptions decode to.
pub proof fn law_description(v: VectorState)
    ensures
        description(v) == "server received request vec="@ + vstd::utf8::decode_utf8(v.info)
            + " cmd="@ + vstd::utf8::decode_utf8(v.consumers[0]->0.info) + " rsp="@
            + vstd::utf8::decode_utf8(v.producers[0]->0.info) + " evt="@ + vstd::utf8::decode_utf8(
            v.producers[1]->0.info,
        ),
{
}

/// What is known of a new server: which channel each of its ends is, and that
/// nothing has gone through them.
pub proof fn law_new_server(s: Server, v: VectorState)
    ensures
        s.fresh(v) <==> {
            &&& s.wf()
            &&& Some(command_state(s.command).channel) == v.consumers[0]
            &&& Some(response_state(s.response).channel) == v.producers[0]
            &&& Some(event_state(s.event).channel) == v.producers[1]
            &&& command_state(s.command).popped.len() == 0
            &&& response_state(s.response).sent.len() == 0
            &&& response_state(s.response).tried.len() == 0
            &&& event_state(s.event).sent.len() == 0
            &&& event_state(s.event).tried.len() == 0
        },
        s.wf() <==> !response_state(s.response).cached && !event_state(s.event).cached,
        s.calls() == trace(s.command, s.response, s.event),
{
}

} // verus!
