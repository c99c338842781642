use rtipc_zbus::channel::{PopDecision, PopOutcome, QueueFault};
use rtipc_zbus::client::{
    rpc_commands, CommandRun, EventListener, ListenAction, ListenEvent, RunAction, RunEvent,
    LISTEN_PAUSE_MS,
};
use rtipc_zbus::wait::{wait_next, ReadAttempt, WaitAction};
use rtipc_zbus::{CommandId, MsgEvent, MsgResponse};

#[test]
fn decisions() {
    assert_eq!(PopOutcome::QueueError.decide(), PopDecision::Fail);
    assert_eq!(PopOutcome::NoMessage.decide(), PopDecision::Skip);
    assert_eq!(PopOutcome::NoNewMessage.decide(), PopDecision::Skip);
    assert_eq!(PopOutcome::Success.decide(), PopDecision::Read);
    assert_eq!(
        PopOutcome::SuccessMessagesDiscarded.decide(),
        PopDecision::Read
    );
}

#[test]
fn example_commands_are_those_of_the_client() {
    let cmds: Vec<(u32, [i32; 3])> = rpc_commands().iter().map(|c| (c.id, c.args)).collect();
    assert_eq!(
        cmds,
        vec![
            (CommandId::Hello.code(), [1, 2, 0]),
            (CommandId::SendEvent.code(), [11, 20, 0]),
            (CommandId::SendEvent.code(), [12, 20, 1]),
            (CommandId::Div.code(), [100, 7, 0]),
            (CommandId::Div.code(), [100, 0, 0]),
            (CommandId::Stop.code(), [0, 0, 0]),
        ]
    );
}

#[test]
fn commands_in_turn() {
    let cmds = rpc_commands();
    let answered = [true, false, true, false, true, true];
    let mut run = CommandRun::new(&cmds);
    let mut action = run.step(RunEvent::Started);
    let mut sent = Vec::new();
    let mut shown = Vec::new();
    loop {
        let event = match action {
            RunAction::Send(cmd) => {
                sent.push(cmd.args);
                let n = sent.len() - 1;
                RunEvent::Received(Ok(if answered[n] {
                    Some(MsgResponse {
                        id: cmd.id,
                        result: n as i32,
                        data: 0,
                    })
                } else {
                    None
                }))
            }
            RunAction::Show(response) => {
                shown.push((response.id, response.result));
                RunEvent::Shown
            }
            RunAction::Finish => break,
            RunAction::Fail => panic!("unexpected"),
        };
        action = run.step(event);
    }
    let all: Vec<[i32; 3]> = cmds.iter().map(|c| c.args).collect();
    assert_eq!(sent, all);
    assert_eq!(shown, vec![(1, 0), (3, 2), (4, 4), (2, 5)]);
}

#[test]
fn a_run_can_fail() {
    let cmds = rpc_commands();
    let mut run = CommandRun::new(&cmds);
    assert!(matches!(run.step(RunEvent::Started), RunAction::Send(_)));
    assert!(matches!(
        run.step(RunEvent::Received(Err(QueueFault))),
        RunAction::Fail
    ));
    assert!(matches!(run.step(RunEvent::WaitFailed), RunAction::Fail));
    let mut run = CommandRun::new(&[]);
    assert!(matches!(run.step(RunEvent::Started), RunAction::Finish));
}

#[test]
fn listens_a_hundred_rounds() {
    let mut listener = EventListener::new();
    let mut action = listener.step(ListenEvent::Started);
    let mut polls = 0;
    let mut shown = Vec::new();
    loop {
        let event = match action {
            ListenAction::Poll => {
                polls += 1;
                ListenEvent::Received(Ok(if polls % 3 == 0 {
                    Some(MsgEvent { id: 1, nr: polls })
                } else {
                    None
                }))
            }
            ListenAction::Show(event) => {
                shown.push(event.nr);
                ListenEvent::Shown
            }
            ListenAction::Finish => break,
            ListenAction::Fail => panic!("unexpected"),
        };
        action = listener.step(event);
    }
    assert_eq!(polls, 100);
    let expected: Vec<u32> = (1..34).map(|n| 3 * n).collect();
    assert_eq!(shown, expected);
    assert_eq!(LISTEN_PAUSE_MS, 10);
}

#[test]
fn listening_can_fail() {
    let mut listener = EventListener::new();
    assert!(matches!(
        listener.step(ListenEvent::Started),
        ListenAction::Poll
    ));
    assert!(matches!(
        listener.step(ListenEvent::Received(Err(QueueFault))),
        ListenAction::Fail
    ));
}

#[test]
fn waits_until_there_is_something() {
    assert_eq!(wait_next(ReadAttempt::WouldBlock), WaitAction::Retry);
    assert_eq!(
        wait_next(ReadAttempt::Value(3)),
        WaitAction::Return(Ok(3))
    );
    assert_eq!(
        wait_next(ReadAttempt::Errno(5)),
        WaitAction::Return(Err(5))
    );
}

#[test]
fn a_wait_ends_with_the_first_value() {
    let attempts = [
        ReadAttempt::WouldBlock,
        ReadAttempt::WouldBlock,
        ReadAttempt::Value(9),
        ReadAttempt::Errno(5),
    ];
    let mut made = 0;
    let result = loop {
        made += 1;
        if let WaitAction::Return(result) = wait_next(attempts[made - 1]) {
            break result;
        }
    };
    assert_eq!((made, result), (3, Ok(9)));
}
