//! The side that sends commands and listens for events.

use crate::channel::answer_message;
use crate::channel::answer_pop;
use crate::channel::answer_state;
use crate::channel::fits;
use crate::channel::notice_message;
use crate::channel::notice_pop;
use crate::channel::notice_state;
use crate::channel::reception;
use crate::channel::request_force_push;
use crate::channel::request_message;
use crate::channel::request_state;
use crate::channel::take_answer;
use crate::channel::take_notice;
use crate::channel::take_request;
use crate::channel::vector_state;
use crate::channel::without;
use crate::channel::PopDecision;
use crate::channel::PopOutcome;
use crate::channel::QueueFault;
use crate::channel::VectorState;
use crate::message::CommandId;
use crate::message::MsgCommand;
use crate::message::MsgEvent;
use crate::message::MsgResponse;
use vstd::prelude::*;

verus! {

/// How often a listener looks for an event before it gives up.
pub const LISTEN_ROUNDS: u32 = 100;

/// How long a listener sleeps before it looks, in milliseconds.
pub const LISTEN_PAUSE_MS: u64 = 10;

/// What happens to a client that sends its commands.
#[derive(Copy, Clone, Debug)]
pub enum RunEvent {
    Started,
    /// The wait for a response failed.
    WaitFailed,
    /// The wait is over, and this was received, if anything.
    Received(Result<Option<MsgResponse>, QueueFault>),
    /// The response was shown.
    Shown,
}

/// What a client that sends its commands does next.
#[derive(Copy, Clone, Debug)]
pub enum RunAction {
    /// Send the command, wait for a response and try to receive it.
    Send(MsgCommand),
    /// Show the response that was received.
    Show(MsgResponse),
    /// All commands were sent.
    Finish,
    /// Give up.
    Fail,
}

/// The first of the commands that are left, and what is left after it.
pub open spec fn send_first(rest: Seq<MsgCommand>) -> (Seq<MsgCommand>, RunAction) {
    if rest.len() == 0 {
        (rest, RunAction::Finish)
    } else {
        (rest.drop_first(), RunAction::Send(rest[0]))
    }
}

/// The commands that are left after an event, and what is done.
pub open spec fn run_step(rest: Seq<MsgCommand>, event: RunEvent) -> (Seq<MsgCommand>, RunAction) {
    match event {
        RunEvent::Started => send_first(rest),
        RunEvent::WaitFailed => (rest, RunAction::Fail),
        RunEvent::Received(Err(_)) => (rest, RunAction::Fail),
        RunEvent::Received(Ok(None)) => send_first(rest),
        RunEvent::Received(Ok(Some(response))) => (rest, RunAction::Show(response)),
        RunEvent::Shown => send_first(rest),
    }
}

/// A client on its way through a list of commands.
pub struct CommandRun<'a> {
    cmds: &'a [MsgCommand],
    next: usize,
}

impl<'a> View for CommandRun<'a> {
    type V = Seq<MsgCommand>;

    /// The commands that were not sent yet.
    closed spec fn view(&self) -> Seq<MsgCommand> {
        self.cmds@.skip(self.next as int)
    }
}

impl<'a> CommandRun<'a> {
    #[verifier::type_invariant]
    closed spec fn inv(self) -> bool {
        self.next <= self.cmds@.len()
    }

    pub fn new(cmds: &'a [MsgCommand]) -> (r: CommandRun<'a>)
        ensures
            r@ == cmds@,
    {
        let r = CommandRun { cmds, next: 0 };
        assert(r@ =~= cmds@);
        r
    }

    pub fn step(&mut self, event: RunEvent) -> (r: RunAction)
        ensures
            (final(self)@, r) == run_step(old(self)@, event),
    {
        match event {
            RunEvent::Started => self.send_next(),
            RunEvent::WaitFailed => RunAction::Fail,
            RunEvent::Received(Err(_)) => RunAction::Fail,
            RunEvent::Received(Ok(None)) => self.send_next(),
            RunEvent::Received(Ok(Some(response))) => RunAction::Show(response),
            RunEvent::Shown => self.send_next(),
        }
    }

    fn send_next(&mut self) -> (r: RunAction)
        ensures
            (final(self)@, r) == send_first(old(self)@),
    {
        proof {
            use_type_invariant(&*self);
        }
        if self.next < self.cmds.len() {
            let cmd = self.cmds[self.next];
            self.next = self.next + 1;
            assert(self@ =~= old(self)@.drop_first());
            RunAction::Send(cmd)
        } else {
            RunAction::Finish
        }
    }
}

/// What a client does from `action` on, where `received` is what it receives in
/// turn.
pub open spec fn run_from(
    rest: Seq<MsgCommand>,
    action: RunAction,
    received: Seq<Result<Option<MsgResponse>, QueueFault>>,
) -> Seq<RunAction>
    decreases received.len(), (if action is Show { 1int } else { 0int }),
{
    match action {
        RunAction::Send(_) => if received.len() == 0 {
            seq![action]
        } else {
            let (left, then) = run_step(rest, RunEvent::Received(received[0]));
            seq![action] + run_from(left, then, received.drop_first())
        },
        RunAction::Show(_) => {
            let (left, then) = run_step(rest, RunEvent::Shown);
            seq![action] + run_from(left, then, received)
        },
        _ => seq![action],
    }
}

/// What a client does in all.
pub open spec fn run_whole(cmds: Seq<MsgCommand>, received: Seq<Result<Option<MsgResponse>, QueueFault>>) -> Seq<RunAction> {
    let (left, then) = run_step(cmds, RunEvent::Started);
    run_from(left, then, received)
}

/// Each command in turn, followed by its response if one was received.
pub open spec fn exchanges(cmds: Seq<MsgCommand>, received: Seq<Result<Option<MsgResponse>, QueueFault>>) -> Seq<RunAction>
    decreases cmds.len(),
{
    if cmds.len() == 0 {
        seq![RunAction::Finish]
    } else {
        let shown = match received[0] {
            Ok(Some(response)) => seq![RunAction::Show(response)],
            _ => seq![],
        };
        seq![RunAction::Send(cmds[0])] + shown + exchanges(
            cmds.drop_first(),
            received.drop_first(),
        )
    }
}

/// Whether the queue was never found broken.
pub open spec fn none_broken<T>(received: Seq<Result<Option<T>, QueueFault>>) -> bool {
    forall|i: int| 0 <= i < received.len() ==> #[trigger] received[i] is Ok
}

/// As long as no queue is broken, a client sends every command once, in order,
/// and shows each response that it receives before it sends the next command.
pub proof fn lemma_commands_in_turn(cmds: Seq<MsgCommand>, received: Seq<Result<Option<MsgResponse>, QueueFault>>)
    requires
        received.len() == cmds.len(),
        none_broken(received),
    ensures
        run_whole(cmds, received) == exchanges(cmds, received),
    decreases cmds.len(),
{
    if cmds.len() > 0 {
        let left = cmds.drop_first();
        let later = received.drop_first();
        assert forall|i: int| 0 <= i < later.len() implies #[trigger] later[i] is Ok by {
            assert(later[i] == received[i + 1]);
        }
        lemma_commands_in_turn(left, later);
        reveal_with_fuel(run_from, 3);
        assert(run_whole(cmds, received) =~= exchanges(cmds, received));
    }
}

/// A broken queue ends a client's run at once.
pub proof fn lemma_broken_queue_ends_run(
    rest: Seq<MsgCommand>,
    cmd: MsgCommand,
    received: Seq<Result<Option<MsgResponse>, QueueFault>>,
)
    requires
        received.len() > 0,
        received[0] is Err,
    ensures
        run_from(rest, RunAction::Send(cmd), received) == seq![
            RunAction::Send(cmd),
            RunAction::Fail,
        ],
{
    reveal_with_fuel(run_from, 2);
    assert(run_from(rest, RunAction::Send(cmd), received) =~= seq![
        RunAction::Send(cmd),
        RunAction::Fail,
    ]);
}

/// A client shows the very response that its attempt to receive one has fetched,
/// passes over an attempt that fetched none, and gives up on a broken queue.
pub proof fn lemma_shows_response_that_is_held(
    rest: Seq<MsgCommand>,
    outcome: PopOutcome,
    held: MsgResponse,
)
    ensures
        run_step(rest, RunEvent::Received(reception(outcome, held)))
            == match outcome.decision() {
            PopDecision::Fail => (rest, RunAction::Fail),
            PopDecision::Skip => send_first(rest),
            PopDecision::Read => (rest, RunAction::Show(held)),
        },
{
}

/// What happens to a client that listens for events.
#[derive(Copy, Clone, Debug)]
pub enum ListenEvent {
    Started,
    /// This was received, if anything.
    Received(Result<Option<MsgEvent>, QueueFault>),
    /// The event was shown.
    Shown,
}

/// What a client that listens for events does next.
#[derive(Copy, Clone, Debug)]
pub enum ListenAction {
    /// Sleep, then try to receive an event.
    Poll,
    /// Show the event that was received.
    Show(MsgEvent),
    /// All rounds are over.
    Finish,
    /// Give up.
    Fail,
}

/// The next round, if there is one left.
pub open spec fn poll_again(rounds: nat) -> (nat, ListenAction) {
    if rounds == 0 {
        (rounds, ListenAction::Finish)
    } else {
        ((rounds - 1) as nat, ListenAction::Poll)
    }
}

/// The rounds that are left after an event, and what is done.
pub open spec fn listen_step(rounds: nat, event: ListenEvent) -> (nat, ListenAction) {
    match event {
        ListenEvent::Started => poll_again(rounds),
        ListenEvent::Received(Err(_)) => (rounds, ListenAction::Fail),
        ListenEvent::Received(Ok(None)) => poll_again(rounds),
        ListenEvent::Received(Ok(Some(event))) => (rounds, ListenAction::Show(event)),
        ListenEvent::Shown => poll_again(rounds),
    }
}

/// A client that listens for events.
pub struct EventListener {
    rounds: u32,
}

impl View for EventListener {
    type V = nat;

    /// How many rounds are left.
    closed spec fn view(&self) -> nat {
        self.rounds as nat
    }
}

impl EventListener {
    pub fn new() -> (r: EventListener)
        ensures
            r@ == LISTEN_ROUNDS,
    {
        EventListener { rounds: LISTEN_ROUNDS }
    }

    pub fn step(&mut self, event: ListenEvent) -> (r: ListenAction)
        ensures
            (final(self)@, r) == listen_step(old(self)@, event),
    {
        match event {
            ListenEvent::Started => self.poll_next(),
            ListenEvent::Received(Err(_)) => ListenAction::Fail,
            ListenEvent::Received(Ok(None)) => self.poll_next(),
            ListenEvent::Received(Ok(Some(event))) => ListenAction::Show(event),
            ListenEvent::Shown => self.poll_next(),
        }
    }

    fn poll_next(&mut self) -> (r: ListenAction)
        ensures
            (final(self)@, r) == poll_again(old(self)@),
    {
        if self.rounds == 0 {
            ListenAction::Finish
        } else {
            self.rounds = self.rounds - 1;
            ListenAction::Poll
        }
    }
}

/// What a listener does from `action` on, where `received` is what it receives
/// in turn.
pub open spec fn listen_from(
    rounds: nat,
    action: ListenAction,
    received: Seq<Result<Option<MsgEvent>, QueueFault>>,
) -> Seq<ListenAction>
    decreases received.len(), (if action is Show { 1int } else { 0int }),
{
    match action {
        ListenAction::Poll => if received.len() == 0 {
            seq![action]
        } else {
            let (left, then) = listen_step(rounds, ListenEvent::Received(received[0]));
            seq![action] + listen_from(left, then, received.drop_first())
        },
        ListenAction::Show(_) => {
            let (left, then) = listen_step(rounds, ListenEvent::Shown);
            seq![action] + listen_from(left, then, received)
        },
        _ => seq![action],
    }
}

/// What a listener does in all.
pub open spec fn listen_whole(rounds: nat, received: Seq<Result<Option<MsgEvent>, QueueFault>>) -> Seq<ListenAction> {
    let (left, then) = listen_step(rounds, ListenEvent::Started);
    listen_from(left, then, received)
}

/// One round for each attempt, with the event shown if one was received.
pub open spec fn rounds_of(received: Seq<Result<Option<MsgEvent>, QueueFault>>) -> Seq<ListenAction>
    decreases received.len(),
{
    if received.len() == 0 {
        seq![ListenAction::Finish]
    } else {
        let shown = match received[0] {
            Ok(Some(event)) => seq![ListenAction::Show(event)],
            _ => seq![],
        };
        seq![ListenAction::Poll] + shown + rounds_of(received.drop_first())
    }
}

/// As long as the queue is not broken, a listener goes through all of its rounds,
/// and shows an event in each that brings one.
pub proof fn lemma_listens_all_rounds(rounds: nat, received: Seq<Result<Option<MsgEvent>, QueueFault>>)
    requires
        received.len() == rounds,
        none_broken(received),
    ensures
        listen_whole(rounds, received) == rounds_of(received),
    decreases rounds,
{
    if rounds > 0 {
        let later = received.drop_first();
        assert forall|i: int| 0 <= i < later.len() implies #[trigger] later[i] is Ok by {
            assert(later[i] == received[i + 1]);
        }
        lemma_listens_all_rounds((rounds - 1) as nat, later);
        reveal_with_fuel(listen_from, 3);
        assert(listen_whole(rounds, received) =~= rounds_of(received));
    }
}

/// A broken queue ends a listener's rounds at once.
pub proof fn lemma_broken_queue_ends_listening(rounds: nat, received: Seq<Result<Option<MsgEvent>, QueueFault>>)
    requires
        received.len() > 0,
        received[0] is Err,
    ensures
        listen_from(rounds, ListenAction::Poll, received) == seq![
            ListenAction::Poll,
            ListenAction::Fail,
        ],
{
    reveal_with_fuel(listen_from, 2);
    assert(listen_from(rounds, ListenAction::Poll, received) =~= seq![
        ListenAction::Poll,
        ListenAction::Fail,
    ]);
}

/// A listener shows the very event that its attempt to receive one has fetched,
/// passes over an attempt that fetched none, and gives up on a broken queue.
pub proof fn lemma_shows_event_that_is_held(rounds: nat, outcome: PopOutcome, held: MsgEvent)
    ensures
        listen_step(rounds, ListenEvent::Received(reception(outcome, held)))
            == match outcome.decision() {
            PopDecision::Fail => (rounds, ListenAction::Fail),
            PopDecision::Skip => poll_again(rounds),
            PopDecision::Read => (rounds, ListenAction::Show(held)),
        },
{
}

/// The end of a channel at which a client receives responses.
pub struct ResponseReceiver {
    pub response: rtipc::Consumer<MsgResponse>,
}

impl ResponseReceiver {
    /// Takes the first consumer out of `vec`, if it is there and has room for
    /// responses.
    pub fn take(vec: &mut rtipc::ChannelVector) -> (r: Option<ResponseReceiver>)
        ensures
            vector_state(*final(vec)) == (VectorState {
                consumers: without(vector_state(*old(vec)).consumers, 0),
                ..vector_state(*old(vec))
            }),
            r is Some <==> fits(
                vector_state(*old(vec)).consumers,
                0,
                vstd::layout::size_of::<MsgResponse>(),
            ),
            r matches Some(receiver) ==> {
                &&& answer_state(receiver.response).popped.len() == 0
                &&& Some(answer_state(receiver.response).channel) == vector_state(
                    *old(vec),
                ).consumers[0]
            },
    {
        match take_answer(vec, 0) {
            Some(response) => Some(ResponseReceiver { response }),
            None => None,
        }
    }

    /// Fetches the next response, if there is one.
    pub fn receive(&mut self) -> (r: Result<Option<MsgResponse>, QueueFault>)
        ensures
            answer_state(final(self).response).channel == answer_state(old(self).response).channel,
            ({
                let popped = answer_state(final(self).response).popped;
                &&& popped.len() == answer_state(old(self).response).popped.len() + 1
                &&& popped.drop_last() == answer_state(old(self).response).popped
                &&& !popped.last().brings_message() ==> answer_state(final(self).response).held
                    == answer_state(old(self).response).held
                &&& r == reception(popped.last(), answer_state(final(self).response).held)
            }),
    {
        let outcome = answer_pop(&mut self.response);
        assert(answer_state(self.response).popped.drop_last() =~= answer_state(old(self).response).popped);
        match outcome.decide() {
            PopDecision::Fail => Err(QueueFault),
            PopDecision::Skip => Ok(None),
            PopDecision::Read => Ok(answer_message(&self.response)),
        }
    }
}

/// The end of a channel at which a client receives events.
pub struct EventReceiver {
    pub event: rtipc::Consumer<MsgEvent>,
}

impl EventReceiver {
    /// Takes the second consumer out of `vec`, if it is there and has room for
    /// events.
    pub fn take(vec: &mut rtipc::ChannelVector) -> (r: Option<EventReceiver>)
        ensures
            vector_state(*final(vec)) == (VectorState {
                consumers: without(vector_state(*old(vec)).consumers, 1),
                ..vector_state(*old(vec))
            }),
            r is Some <==> fits(
                vector_state(*old(vec)).consumers,
                1,
                vstd::layout::size_of::<MsgEvent>(),
            ),
            r matches Some(receiver) ==> {
                &&& notice_state(receiver.event).popped.len() == 0
                &&& Some(notice_state(receiver.event).channel) == vector_state(
                    *old(vec),
                ).consumers[1]
            },
    {
        match take_notice(vec, 1) {
            Some(event) => Some(EventReceiver { event }),
            None => None,
        }
    }

    /// Fetches the next event, if there is one.
    pub fn receive(&mut self) -> (r: Result<Option<MsgEvent>, QueueFault>)
        ensures
            notice_state(final(self).event).channel == notice_state(old(self).event).channel,
            ({
                let popped = notice_state(final(self).event).popped;
                &&& popped.len() == notice_state(old(self).event).popped.len() + 1
                &&& popped.drop_last() == notice_state(old(self).event).popped
                &&& !popped.last().brings_message() ==> notice_state(final(self).event).held
                    == notice_state(old(self).event).held
                &&& r == reception(popped.last(), notice_state(final(self).event).held)
            }),
    {
        let outcome = notice_pop(&mut self.event);
        assert(notice_state(self.event).popped.drop_last() =~= notice_state(old(self).event).popped);
        match outcome.decide() {
            PopDecision::Fail => Err(QueueFault),
            PopDecision::Skip => Ok(None),
            PopDecision::Read => Ok(notice_message(&self.event)),
        }
    }
}

/// The end of a channel at which a client sends its commands.
pub struct CommandSender {
    pub command: rtipc::Producer<MsgCommand>,
}

impl CommandSender {
    /// Messages are composed in the shared memory.
    pub open spec fn wf(self) -> bool {
        !request_state(self.command).cached
    }

    /// Takes the first producer out of `vec`, if it is there and has room for
    /// commands.
    pub fn take(vec: &mut rtipc::ChannelVector) -> (r: Option<CommandSender>)
        ensures
            vector_state(*final(vec)) == (VectorState {
                producers: without(vector_state(*old(vec)).producers, 0),
                ..vector_state(*old(vec))
            }),
            r is Some <==> fits(
                vector_state(*old(vec)).producers,
                0,
                vstd::layout::size_of::<MsgCommand>(),
            ),
            r matches Some(sender) ==> {
                &&& sender.wf()
                &&& request_state(sender.command).sent.len() == 0
                &&& request_state(sender.command).tried.len() == 0
                &&& Some(request_state(sender.command).channel) == vector_state(
                    *old(vec),
                ).producers[0]
            },
    {
        match take_request(vec, 0) {
            Some(command) => Some(CommandSender { command }),
            None => None,
        }
    }

    /// Sends `cmd`, whether or not there is room for it.
    pub fn send(&mut self, cmd: &MsgCommand)
        requires
            old(self).wf(),
        ensures
            final(self).wf(),
            request_state(final(self).command).sent == request_state(old(self).command).sent.push(
                *cmd,
            ),
            request_state(final(self).command).tried == request_state(old(self).command).tried,
            request_state(final(self).command).channel == request_state(old(self).command).channel,
    {
        *request_message(&mut self.command) = *cmd;
        request_force_push(&mut self.command);
    }
}

/// Whether `cmd` asks for `c` with the arguments `args`.
pub open spec fn is_request(cmd: MsgCommand, c: CommandId, args: Seq<i32>) -> bool {
    cmd.asks(c) && cmd.args@ == args
}

/// The commands of the example: a greeting, a run of events that gives way and
/// one that does not, two divisions, one of them by zero, and a stop.
pub fn rpc_commands() -> (r: [MsgCommand; 6])
    ensures
        is_request(r@[0], CommandId::Hello, seq![1, 2, 0]),
        is_request(r@[1], CommandId::SendEvent, seq![11, 20, 0]),
        is_request(r@[2], CommandId::SendEvent, seq![12, 20, 1]),
        is_request(r@[3], CommandId::Div, seq![100, 7, 0]),
        is_request(r@[4], CommandId::Div, seq![100, 0, 0]),
        is_request(r@[5], CommandId::Stop, seq![0, 0, 0]),
{
    let r = [
        MsgCommand { id: CommandId::Hello.code(), args: [1, 2, 0] },
        MsgCommand { id: CommandId::SendEvent.code(), args: [11, 20, 0] },
        MsgCommand { id: CommandId::SendEvent.code(), args: [12, 20, 1] },
        MsgCommand { id: CommandId::Div.code(), args: [100, 7, 0] },
        MsgCommand { id: CommandId::Div.code(), args: [100, 0, 0] },
        MsgCommand { id: CommandId::Stop.code(), args: [0, 0, 0] },
    ];
    assert(r@[0].args@ =~= seq![1i32, 2, 0]);
    assert(r@[1].args@ =~= seq![11i32, 20, 0]);
    assert(r@[2].args@ =~= seq![12i32, 20, 1]);
    assert(r@[3].args@ =~= seq![100i32, 7, 0]);
    assert(r@[4].args@ =~= seq![100i32, 0, 0]);
    assert(r@[5].args@ =~= seq![0i32, 0, 0]);
    r
}

} // verus!
