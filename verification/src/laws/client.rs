//! What a client does after each event, what it receives, and how a wait ends.

use crate::channel::reception;
use crate::channel::Call;
use crate::channel::ConsumerState;
use crate::channel::PopOutcome;
use crate::channel::QueueFault;
use crate::channel::TryPushOutcome;
use crate::client::is_request;
use crate::client::lemma_commands_in_turn;
use crate::client::lemma_listens_all_rounds;
use crate::client::listen_step;
use crate::client::listen_whole;
use crate::client::run_step;
use crate::client::run_whole;
use crate::client::ListenAction;
use crate::client::ListenEvent;
use crate::client::RunAction;
use crate::client::RunEvent;
use crate::client::LISTEN_PAUSE_MS;
use crate::client::LISTEN_ROUNDS;
use crate::message::CommandId;
use crate::message::MsgCommand;
use crate::message::MsgEvent;
use crate::message::MsgResponse;
use crate::wait::wait_step;
use crate::wait::ReadAttempt;
use crate::wait::WaitAction;
use vstd::prelude::*;

verus! {

/// At the start, after a wait without a response and after a response was shown,
/// a client sends the next command and keeps those behind it in their order, or
/// finishes if there is none.
pub proof fn law_next_command(rest: Seq<MsgCommand>, event: RunEvent)
    requires
        event is Started || event is Shown || event == RunEvent::Received(Ok(None)),
    ensures
        rest.len() == 0 ==> {
            &&& run_step(rest, event).0.len() == 0
            &&& run_step(rest, event).1 is Finish
        },
        rest.len() > 0 ==> {
            &&& run_step(rest, event).0.len() == rest.len() - 1
            &&& forall|i: int|
                0 <= i < rest.len() - 1 ==> #[trigger] run_step(rest, event).0[i] == rest[i + 1]
            &&& run_step(rest, event).1 matches RunAction::Send(cmd) && cmd == rest[0]
        },
{
}

/// A response that was received is shown as it is, whatever is in it, and no
/// command is passed over.
pub proof fn law_response_shown(rest: Seq<MsgCommand>, response: MsgResponse)
    ensures
        run_step(rest, RunEvent::Received(Ok(Some(response)))).0 == rest,
        run_step(rest, RunEvent::Received(Ok(Some(response)))).1 matches RunAction::Show(shown)
            && shown.id == response.id && shown.result == response.result && shown.data
            == response.data,
{
}

/// A wait that fails and a broken queue make a client give up, whatever commands
/// are left.
pub proof fn law_run_fails(rest: Seq<MsgCommand>, fault: QueueFault)
    ensures
        run_step(rest, RunEvent::WaitFailed).0 == rest,
        run_step(rest, RunEvent::WaitFailed).1 is Fail,
        run_step(rest, RunEvent::Received(Err(fault))).0 == rest,
        run_step(rest, RunEvent::Received(Err(fault))).1 is Fail,
{
}

/// Where every command is answered, a client sends the commands in order, shows
/// the response to each behind it, and finishes.
pub proof fn law_all_answered(
    cmds: Seq<MsgCommand>,
    responses: Seq<MsgResponse>,
    received: Seq<Result<Option<MsgResponse>, QueueFault>>,
)
    requires
        responses.len() == cmds.len(),
        received.len() == cmds.len(),
        forall|i: int| 0 <= i < cmds.len() ==> #[trigger] received[i] == Ok::<_, QueueFault>(
            Some(responses[i]),
        ),
    ensures
        run_whole(cmds, received).len() == 2 * cmds.len() + 1,
        forall|i: int|
            #![trigger cmds[i]]
            #![trigger responses[i]]
            0 <= i < cmds.len() ==> {
                &&& run_whole(cmds, received)[2 * i] == RunAction::Send(cmds[i])
                &&& run_whole(cmds, received)[2 * i + 1] == RunAction::Show(responses[i])
            },
        run_whole(cmds, received)[2 * cmds.len() as int] is Finish,
    decreases cmds.len(),
{
    assert forall|i: int| 0 <= i < received.len() implies #[trigger] received[i] is Ok by {}
    lemma_commands_in_turn(cmds, received);
    if cmds.len() > 0 {
        let fewer = cmds.drop_first();
        let answers = responses.drop_first();
        let later = received.drop_first();
        assert forall|i: int| 0 <= i < fewer.len() implies #[trigger] later[i] == Ok::<
            _,
            QueueFault,
        >(Some(answers[i])) by {
            assert(received[i + 1] == Ok::<_, QueueFault>(Some(responses[i + 1])));
        }
        law_all_answered(fewer, answers, later);
        assert forall|i: int| 0 <= i < later.len() implies #[trigger] later[i] is Ok by {}
        lemma_commands_in_turn(fewer, later);
        assert(received[0] == Ok::<_, QueueFault>(Some(responses[0])));
        let done = run_whole(cmds, received);
        let behind = run_whole(fewer, later);
        assert(done =~= seq![RunAction::Send(cmds[0]), RunAction::Show(responses[0])] + behind);
        assert(done[2 * cmds.len() as int] == behind[2 * fewer.len() as int]);
        assert forall|i: int| 0 <= i < cmds.len() implies done[2 * i] == RunAction::Send(
            #[trigger] cmds[i],
        ) && done[2 * i + 1] == RunAction::Show(responses[i]) by {
            if i > 0 {
                assert(fewer[i - 1] == cmds[i] && answers[i - 1] == responses[i]);
                assert(done[2 * i] == behind[2 * (i - 1)]);
                assert(done[2 * i + 1] == behind[2 * (i - 1) + 1]);
            }
        }
        assert forall|i: int| 0 <= i < cmds.len() implies done[2 * i] == RunAction::Send(cmds[i])
            && done[2 * i + 1] == RunAction::Show(#[trigger] responses[i]) by {
            assert(cmds[i] == cmds[i]);
        }
    }
}

/// Where no command is answered, a client still sends every command, in order.
pub proof fn law_none_answered(
    cmds: Seq<MsgCommand>,
    received: Seq<Result<Option<MsgResponse>, QueueFault>>,
)
    requires
        received.len() == cmds.len(),
        forall|i: int| 0 <= i < cmds.len() ==> #[trigger] received[i] == Ok::<
            Option<MsgResponse>,
            QueueFault,
        >(None),
    ensures
        run_whole(cmds, received).len() == cmds.len() + 1,
        forall|i: int|
            0 <= i < cmds.len() ==> #[trigger] run_whole(cmds, received)[i] == RunAction::Send(
                cmds[i],
            ),
        run_whole(cmds, received).last() is Finish,
    decreases cmds.len(),
{
    assert forall|i: int| 0 <= i < received.len() implies #[trigger] received[i] is Ok by {}
    lemma_commands_in_turn(cmds, received);
    if cmds.len() > 0 {
        let fewer = cmds.drop_first();
        let later = received.drop_first();
        assert forall|i: int| 0 <= i < fewer.len() implies #[trigger] later[i] == Ok::<
            Option<MsgResponse>,
            QueueFault,
        >(None) by {
            assert(later[i] == received[i + 1]);
        }
        law_none_answered(fewer, later);
        assert forall|i: int| 0 <= i < later.len() implies #[trigger] later[i] is Ok by {}
        lemma_commands_in_turn(fewer, later);
        assert(received[0] is Ok);
        let behind = run_whole(fewer, later);
        assert(run_whole(cmds, received) =~= seq![RunAction::Send(cmds[0])] + behind);
    }
}

/// A listener looks a hundred times, ten milliseconds apart.
pub proof fn law_listening()
    ensures
        LISTEN_ROUNDS == 100,
        LISTEN_PAUSE_MS == 10,
{
}

/// At the start, after an attempt without an event and after an event was shown,
/// a listener uses up one round, or finishes if there is none left.
pub proof fn law_next_round(rounds: nat, event: ListenEvent)
    requires
        event is Started || event is Shown || event == ListenEvent::Received(Ok(None)),
    ensures
        rounds == 0 ==> {
            &&& listen_step(rounds, event).0 == 0
            &&& listen_step(rounds, event).1 is Finish
        },
        rounds > 0 ==> {
            &&& listen_step(rounds, event).0 == rounds - 1
            &&& listen_step(rounds, event).1 is Poll
        },
{
}

/// An event that was received is shown as it is, whatever is in it, and uses up
/// no round.
pub proof fn law_event_shown(rounds: nat, event: MsgEvent)
    ensures
        listen_step(rounds, ListenEvent::Received(Ok(Some(event)))).0 == rounds,
        listen_step(rounds, ListenEvent::Received(Ok(Some(event)))).1 matches ListenAction::Show(
            shown,
        ) && shown.id == event.id && shown.nr == event.nr,
{
}

/// A broken queue makes a listener give up, whatever rounds are left.
pub proof fn law_listening_fails(rounds: nat, fault: QueueFault)
    ensures
        listen_step(rounds, ListenEvent::Received(Err(fault))).0 == rounds,
        listen_step(rounds, ListenEvent::Received(Err(fault))).1 is Fail,
{
}

/// Where every attempt brings an event, a listener looks and shows the event in
/// each of its rounds, and finishes.
pub proof fn law_all_noticed(
    events: Seq<MsgEvent>,
    received: Seq<Result<Option<MsgEvent>, QueueFault>>,
)
    requires
        received.len() == events.len(),
        forall|i: int| 0 <= i < events.len() ==> #[trigger] received[i] == Ok::<_, QueueFault>(
            Some(events[i]),
        ),
    ensures
        listen_whole(events.len(), received).len() == 2 * events.len() + 1,
        forall|i: int|
            #![trigger events[i]]
            0 <= i < events.len() ==> seq![
                listen_whole(events.len(), received)[2 * i],
                listen_whole(events.len(), received)[2 * i + 1],
            ] == seq![ListenAction::Poll, ListenAction::Show(events[i])],
        listen_whole(events.len(), received)[2 * events.len() as int] is Finish,
    decreases events.len(),
{
    assert forall|i: int| 0 <= i < received.len() implies #[trigger] received[i] is Ok by {}
    lemma_listens_all_rounds(events.len(), received);
    if events.len() > 0 {
        let fewer = events.drop_first();
        let later = received.drop_first();
        assert forall|i: int| 0 <= i < fewer.len() implies #[trigger] later[i] == Ok::<
            _,
            QueueFault,
        >(Some(fewer[i])) by {
            assert(received[i + 1] == Ok::<_, QueueFault>(Some(events[i + 1])));
        }
        law_all_noticed(fewer, later);
        assert forall|i: int| 0 <= i < later.len() implies #[trigger] later[i] is Ok by {}
        lemma_listens_all_rounds(fewer.len(), later);
        assert(received[0] == Ok::<_, QueueFault>(Some(events[0])));
        let done = listen_whole(events.len(), received);
        let behind = listen_whole(fewer.len(), later);
        assert(done =~= seq![ListenAction::Poll, ListenAction::Show(events[0])] + behind);
        assert(done[2 * events.len() as int] == behind[2 * fewer.len() as int]);
        assert forall|i: int| #![trigger events[i]] 0 <= i < events.len() implies seq![
            done[2 * i],
            done[2 * i + 1],
        ] == seq![ListenAction::Poll, ListenAction::Show(events[i])] by {
            if i > 0 {
                assert(fewer[i - 1] == events[i]);
                let pair = seq![behind[2 * (i - 1)], behind[2 * (i - 1) + 1]];
                assert(pair == seq![ListenAction::Poll, ListenAction::Show(fewer[i - 1])]);
                assert(pair[0] is Poll && pair[1] == ListenAction::Show(events[i]));
                assert(done[2 * i] == pair[0]);
                assert(done[2 * i + 1] == pair[1]);
            }
        }
    }
}

/// A pop brings a message in two of its outcomes and only then is one read; only
/// a broken queue is a failure.
pub proof fn law_pop(outcome: PopOutcome)
    ensures
        outcome.brings_message() <==> outcome == PopOutcome::Success || outcome
            == PopOutcome::SuccessMessagesDiscarded,
        outcome.decision() is Fail <==> outcome == PopOutcome::QueueError,
        outcome.decision() is Read <==> outcome == PopOutcome::Success || outcome
            == PopOutcome::SuccessMessagesDiscarded,
        outcome.decision() is Skip <==> outcome == PopOutcome::NoMessage || outcome
            == PopOutcome::NoNewMessage,
{
}

/// What is received is the message that is held exactly if the pop brought one,
/// and a fault exactly if the queue is broken.
pub proof fn law_reception<T>(outcome: PopOutcome, held: T)
    ensures
        reception(outcome, held) is Err <==> outcome == PopOutcome::QueueError,
        reception(outcome, held) == Ok::<Option<T>, QueueFault>(None) <==> outcome
            == PopOutcome::NoMessage || outcome == PopOutcome::NoNewMessage,
        outcome == PopOutcome::Success || outcome == PopOutcome::SuccessMessagesDiscarded
            ==> reception(outcome, held) == Ok::<Option<T>, QueueFault>(Some(held)),
{
}

/// A consumer has a message exactly if its last pop brought one.
pub proof fn law_has_message<T>(state: ConsumerState<T>)
    ensures
        state.has_message() <==> {
            &&& state.popped.len() > 0
            &&& {
                ||| state.popped[state.popped.len() - 1] == PopOutcome::Success
                ||| state.popped[state.popped.len() - 1] == PopOutcome::SuccessMessagesDiscarded
            }
        },
{
}

/// The event of a push is the one that it was made with.
pub proof fn law_pushed_event(event: MsgEvent, outcome: TryPushOutcome)
    ensures
        Call::EventTried(event, outcome).event() == event,
        Call::EventForced(event).event() == event,
{
}

/// A wait returns the counter that was read or the error number, and reads again
/// exactly if there was nothing to read.
pub proof fn law_wait(attempt: ReadAttempt)
    ensures
        wait_step(attempt) is Retry <==> attempt == ReadAttempt::WouldBlock,
        attempt matches ReadAttempt::Value(n) ==> wait_step(attempt) == WaitAction::Return(Ok(n)),
        attempt matches ReadAttempt::Errno(e) ==> wait_step(attempt) == WaitAction::Return(Err(e)),
{
}

/// What a request is, in the numbers of its fields.
pub proof fn law_request(cmd: MsgCommand, c: CommandId, args: Seq<i32>)
    requires
        args.len() == 3,
    ensures
        is_request(cmd, c, args) <==> {
            &&& cmd.id == match c {
                CommandId::Hello => 1u32,
                CommandId::Stop => 2u32,
                CommandId::SendEvent => 3u32,
                CommandId::Div => 4u32,
            }
            &&& cmd.args@[0] == args[0]
            &&& cmd.args@[1] == args[1]
            &&& cmd.args@[2] == args[2]
        },
{
    if cmd.args@[0] == args[0] && cmd.args@[1] == args[1] && cmd.args@[2] == args[2] {
        assert(cmd.args@ =~= args);
    }
}

} // verus!
