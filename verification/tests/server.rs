use std::num::NonZeroUsize;

use rtipc::{ChannelVector, VectorResource};

use rtipc_zbus::channel::{QueueFault, TryPushOutcome};
use rtipc_zbus::client::{rpc_commands, CommandSender, EventReceiver, ResponseReceiver};
use rtipc_zbus::config::{rpc_vector_config, ChannelConfig, VectorConfig};
use rtipc_zbus::server::{
    after_receive, after_try_push, describe_vector, serve_next, ReceiveDecision, ServeAction,
    ServeEvent, Server,
};
use rtipc_zbus::{
    rtipc_into_zbus_config, zbus_into_rtipc_vector_config, CommandId, MsgCommand, MsgEvent,
    MsgResponse,
};

fn channels(configs: &[ChannelConfig]) -> Vec<rtipc::ChannelConfig> {
    configs
        .iter()
        .map(|c| rtipc::ChannelConfig {
            queue: rtipc::QueueConfig {
                additional_messages: c.queue.additional_messages,
                message_size: NonZeroUsize::new(c.queue.message_size).unwrap(),
                info: c.queue.info.clone(),
            },
            eventfd: c.eventfd,
        })
        .collect()
}

fn vector(config: &VectorConfig) -> rtipc::VectorConfig {
    rtipc::VectorConfig {
        producers: channels(&config.producers),
        consumers: channels(&config.consumers),
        info: config.info.clone(),
    }
}

/// Both ends of the channels that a client asks for: the server's, then the client's.
fn connect(config: &VectorConfig) -> (ChannelVector, ChannelVector) {
    connect_as(config, config)
}

/// The same, where the server is told of other channels than those that were made.
fn connect_as(made: &VectorConfig, config: &VectorConfig) -> (ChannelVector, ChannelVector) {
    let resource = VectorResource::allocate(&vector(made)).unwrap();
    let seen = zbus_into_rtipc_vector_config(
        rtipc_into_zbus_config(&config.producers),
        rtipc_into_zbus_config(&config.consumers),
        config.info.clone(),
    )
    .unwrap();
    let other = VectorResource::new(
        &vector(&seen),
        resource.shmfd().try_clone_to_owned().unwrap(),
        resource
            .collect_producer_eventfds()
            .into_iter()
            .map(|fd| fd.try_clone_to_owned().unwrap())
            .collect(),
        resource
            .collect_consumer_eventfds()
            .into_iter()
            .map(|fd| fd.try_clone_to_owned().unwrap())
            .collect(),
    )
    .unwrap();
    let server = ChannelVector::new(other).unwrap();
    let client = ChannelVector::new(resource).unwrap();
    (server, client)
}

struct Client {
    command: CommandSender,
    response: ResponseReceiver,
    event: EventReceiver,
}

impl Client {
    fn send(&mut self, id: u32, args: [i32; 3]) {
        self.command.send(&MsgCommand { id, args });
    }

    fn answer(&mut self) -> Option<(u32, i32, i32)> {
        let m = self.response.receive().unwrap()?;
        Some((m.id, m.result, m.data))
    }

    fn events(&mut self) -> Vec<(u32, u32)> {
        let mut seen = Vec::new();
        while let Some(m) = self.event.receive().unwrap() {
            seen.push((m.id, m.nr));
        }
        seen
    }
}

fn connected() -> (Server, Client) {
    let (ours, mut theirs) = connect(&rpc_vector_config());
    let server = Server::new(ours).1.unwrap();
    let client = Client {
        command: CommandSender::take(&mut theirs).unwrap(),
        response: ResponseReceiver::take(&mut theirs).unwrap(),
        event: EventReceiver::take(&mut theirs).unwrap(),
    };
    (server, client)
}

/// Sends one command through the channels, and has it carried out.
fn exchange(server: &mut Server, client: &mut Client, id: u32, args: [i32; 3]) -> bool {
    client.send(id, args);
    let cmd = server.receive_cmd().unwrap().unwrap();
    assert_eq!((cmd.id, cmd.args), (id, args));
    assert!(cmd.is_executable());
    server.process_cmd(cmd)
}

#[test]
fn request_line() {
    let (ours, theirs) = connect(&rpc_vector_config());
    assert_eq!(
        describe_vector(&ours).unwrap(),
        "server received request vec=rpc example cmd=rpc command rsp=rpc response evt=rpc event"
    );
    // seen from the client, there is only one producer
    assert!(describe_vector(&theirs).is_none());
}

#[test]
fn request_line_needs_text() {
    let mut config = rpc_vector_config();
    config.consumers[1].queue.info = vec![0xff, 0xfe];
    let (ours, _theirs) = connect(&config);
    assert!(describe_vector(&ours).is_none());
    assert!(Server::new(ours).1.is_none());
}

#[test]
fn request_line_in_utf8() {
    let mut config = rpc_vector_config();
    config.info = "gr\u{fc}\u{df}e".as_bytes().to_vec();
    let (ours, _theirs) = connect(&config);
    assert_eq!(
        describe_vector(&ours).unwrap(),
        "server received request vec=gr\u{fc}\u{df}e cmd=rpc command rsp=rpc response evt=rpc event"
    );
}

#[test]
fn server_needs_its_channels() {
    let (ours, theirs) = connect(&rpc_vector_config());
    assert!(Server::new(theirs).1.is_none());
    assert!(Server::new(ours).1.is_some());

    let mut config = rpc_vector_config();
    config.consumers.pop();
    let (ours, _theirs) = connect(&config);
    assert!(Server::new(ours).1.is_none());

    let mut config = rpc_vector_config();
    config.producers.clear();
    let (ours, _theirs) = connect(&config);
    assert!(Server::new(ours).1.is_none());
}

#[test]
fn channels_taken_once() {
    let (mut ours, _theirs) = connect(&rpc_vector_config());
    assert!(ours.take_producer::<MsgEvent>(1).is_some());
    assert!(describe_vector(&ours).is_none());
    assert!(Server::new(ours).1.is_none());
}

#[test]
fn messages_must_fit() {
    // a queue of small messages has no room for what is larger than a cache line
    let (mut ours, _theirs) = connect(&rpc_vector_config());
    assert!(ours.take_consumer::<[u8; 4096]>(0).is_none());
    assert!(Server::new(ours).1.is_none());
}

#[test]
fn nothing_to_receive() {
    let (mut server, mut client) = connected();
    assert!(matches!(server.receive_cmd(), Ok(None)));
    assert!(exchange(&mut server, &mut client, 1, [1, 2, 0]));
    assert!(matches!(server.receive_cmd(), Ok(None)));
}

#[test]
fn broken_queue() {
    // the client's queue has more slots than the server was told of
    let mut made = rpc_vector_config();
    made.producers[0].queue.additional_messages = 5;
    let (ours, mut theirs) = connect_as(&made, &rpc_vector_config());
    let mut server = Server::new(ours).1.unwrap();
    let mut command = theirs.take_producer::<MsgCommand>(0).unwrap();
    for n in 0..5 {
        *command.current_message() = MsgCommand {
            id: 1,
            args: [n, 0, 0],
        };
        command.force_push();
    }
    for n in 0..3 {
        assert_eq!(server.receive_cmd().unwrap().unwrap().args[0], n);
    }
    assert_eq!(server.receive_cmd().err(), Some(QueueFault));
}

#[test]
fn hello() {
    let (mut server, mut client) = connected();
    assert!(exchange(&mut server, &mut client, 1, [1, 2, 0]));
    assert_eq!(client.answer(), Some((1, 0, 0)));
    assert_eq!(client.answer(), None);
    assert_eq!(client.events(), vec![]);
}

#[test]
fn stop() {
    let (mut server, mut client) = connected();
    assert!(!exchange(&mut server, &mut client, 2, [0, 0, 0]));
    assert_eq!(client.answer(), Some((2, 0, 0)));
}

#[test]
fn division() {
    let (mut server, mut client) = connected();
    for (a, b, result, data) in [
        (100, 7, 0, 14),
        (100, 0, -1, 0),
        (-7, 2, 0, -3),
        (7, -2, 0, -3),
        (-7, -2, 0, 3),
        (0, -5, 0, 0),
        (i32::MIN, 1, 0, i32::MIN),
        (i32::MIN, i32::MIN, 0, 1),
        (i32::MAX, -1, 0, -i32::MAX),
        (i32::MIN, 0, -1, 0),
    ] {
        assert_eq!(server.div(a, b), (result, data));
        assert!(exchange(&mut server, &mut client, 4, [a, b, 0]));
        assert_eq!(client.answer(), Some((4, result, data)));
    }
}

#[test]
fn data_is_left_as_it_was() {
    let (mut server, mut client) = connected();
    // the slots of the queue are used in turn
    for quotient in [11, 12, 13] {
        assert!(exchange(&mut server, &mut client, 4, [quotient, 1, 0]));
        assert_eq!(client.answer(), Some((4, 0, quotient)));
    }
    let left = server.response.current_message().data;
    assert_ne!(left, 0);
    assert!(exchange(&mut server, &mut client, 1, [0, 0, 0]));
    assert_eq!(client.answer(), Some((1, 0, left)));
}

#[test]
fn events_until_full() {
    let (mut server, mut client) = connected();
    assert!(exchange(&mut server, &mut client, 3, [11, 20, 0]));
    assert_eq!(client.answer(), Some((3, 12, 0)));
    let expected: Vec<(u32, u32)> = (0..12).map(|nr| (11, nr)).collect();
    assert_eq!(client.events(), expected);
}

#[test]
fn few_events_all_fit() {
    let (mut server, mut client) = connected();
    assert_eq!(server.send_events(5, 3, false), 3);
    assert_eq!(client.events(), vec![(5, 0), (5, 1), (5, 2)]);
    assert_eq!(server.send_events(6, 0, false), 0);
    assert_eq!(client.events(), vec![]);
}

#[test]
fn forced_events_displace_older_ones() {
    let (mut server, mut client) = connected();
    assert!(exchange(&mut server, &mut client, 3, [12, 20, 1]));
    assert_eq!(client.answer(), Some((3, 20, 0)));
    let seen = client.events();
    let expected: Vec<(u32, u32)> = (8..20).map(|nr| (12, nr)).collect();
    assert_eq!(seen, expected);
}

#[test]
fn negative_event_id() {
    let (mut server, mut client) = connected();
    assert!(exchange(&mut server, &mut client, 3, [-1, 1, 0]));
    assert_eq!(client.answer(), Some((3, 1, 0)));
    assert_eq!(client.events(), vec![(u32::MAX, 0)]);
}

#[test]
fn negative_event_count_is_a_large_one() {
    let (mut server, mut client) = connected();
    assert!(exchange(&mut server, &mut client, 3, [1, -1, 0]));
    assert_eq!(client.answer(), Some((3, 12, 0)));
}

#[test]
fn example_commands() {
    let (mut server, mut client) = connected();
    let mut answers = Vec::new();
    for cmd in rpc_commands() {
        let run = exchange(&mut server, &mut client, cmd.id, cmd.args);
        assert_eq!(run, cmd.id != CommandId::Stop.code());
        let (id, result, _) = client.answer().unwrap();
        client.events();
        answers.push((id, result));
    }
    assert_eq!(
        answers,
        vec![(1, 0), (3, 12), (3, 20), (4, 0), (4, -1), (2, 0)]
    );
}

#[test]
fn latest_command_wins() {
    let (mut server, mut client) = connected();
    for n in 0..10 {
        client.send(1, [n, 0, 0]);
    }
    let mut last = None;
    while let Ok(Some(cmd)) = server.receive_cmd() {
        last = Some(cmd.args[0]);
    }
    assert_eq!(last, Some(9));
}

#[test]
fn only_a_full_queue_ends_a_run() {
    assert_eq!(after_try_push(7, TryPushOutcome::QueueFull), Some(7));
    assert_eq!(after_try_push(u32::MAX, TryPushOutcome::QueueFull), Some(-1));
    assert_eq!(
        after_try_push(0x8000_0000, TryPushOutcome::QueueFull),
        Some(i32::MIN)
    );
    assert_eq!(after_try_push(7, TryPushOutcome::Success), None);
    assert_eq!(after_try_push(7, TryPushOutcome::QueueError), None);
}

#[test]
fn serving() {
    assert!(matches!(serve_next(ServeEvent::Started), ServeAction::Wait));
    assert!(matches!(
        serve_next(ServeEvent::Woken { readable: true }),
        ServeAction::Receive
    ));
    assert!(matches!(
        serve_next(ServeEvent::Woken { readable: false }),
        ServeAction::Wait
    ));
    assert!(matches!(
        serve_next(ServeEvent::Processed { run: true }),
        ServeAction::Wait
    ));
    assert!(matches!(
        serve_next(ServeEvent::Processed { run: false }),
        ServeAction::Stop
    ));
    assert!(matches!(
        serve_next(ServeEvent::Received(ReceiveDecision::Stop)),
        ServeAction::Stop
    ));
    assert!(matches!(
        serve_next(ServeEvent::Received(ReceiveDecision::Fail)),
        ServeAction::Fail
    ));
    let cmd = MsgCommand {
        id: 1,
        args: [7, 0, 0],
    };
    assert!(matches!(
        serve_next(ServeEvent::Received(ReceiveDecision::Run(cmd))),
        ServeAction::Process(MsgCommand {
            id: 1,
            args: [7, 0, 0]
        })
    ));
}

#[test]
fn after_receiving() {
    assert!(matches!(
        after_receive(Err(QueueFault)),
        ReceiveDecision::Fail
    ));
    assert!(matches!(after_receive(Ok(None)), ReceiveDecision::Stop));
    let decide = |id, a, b| {
        after_receive(Ok(Some(MsgCommand {
            id,
            args: [a, b, 0],
        })))
    };
    assert!(matches!(
        decide(4, 6, 3),
        ReceiveDecision::Run(MsgCommand {
            id: 4,
            args: [6, 3, 0]
        })
    ));
    assert!(matches!(decide(5, 6, 3), ReceiveDecision::Fail));
    assert!(matches!(
        decide(4, i32::MIN, -1),
        ReceiveDecision::Fail
    ));
}

#[test]
fn an_idle_server_stops() {
    let (mut server, _client) = connected();
    let decision = after_receive(server.receive_cmd());
    assert!(matches!(
        serve_next(ServeEvent::Received(decision)),
        ServeAction::Stop
    ));
}

#[test]
fn accepting() {
    let (ours, theirs) = connect(&rpc_vector_config());
    let (line, server) = Server::new(ours);
    assert_eq!(
        line.unwrap(),
        "server received request vec=rpc example cmd=rpc command rsp=rpc response evt=rpc event"
    );
    assert!(server.is_some());
    let (line, server) = Server::new(theirs);
    assert!(line.is_none());
    assert!(server.is_none());

    // without text there is no server, though the channels would do
    let mut config = rpc_vector_config();
    config.producers[0].queue.info = vec![0xc0, 0x80];
    let (ours, _theirs) = connect(&config);
    let (line, server) = Server::new(ours);
    assert!(line.is_none());
    assert!(server.is_none());
}

#[test]
fn refused_event_stays_in_the_slot() {
    let (mut server, mut client) = connected();
    assert_eq!(server.send_events(9, 20, false), 12);
    let slot = server.event.current_message();
    assert_eq!((slot.id, slot.nr), (9, 12));
    // a run of no events leaves it there
    assert_eq!(server.send_events(1, 0, true), 0);
    let slot = server.event.current_message();
    assert_eq!((slot.id, slot.nr), (9, 12));
    assert_eq!(client.events().len(), 12);
}

#[test]
fn force_is_the_same_where_there_is_room() {
    let (mut server, mut client) = connected();
    assert_eq!(server.send_events(4, 6, false), 6);
    let gave_way = client.events();
    assert_eq!(server.send_events(4, 6, true), 6);
    assert_eq!(client.events(), gave_way);
}

#[test]
fn broken_response_queue() {
    // the server's queue has more slots than the client made
    let made = rpc_vector_config();
    let mut told = rpc_vector_config();
    told.consumers[0].queue.additional_messages = 5;
    told.consumers.pop();
    let (mut ours, mut theirs) = connect_as(&made, &told);
    let mut producer = ours.take_producer::<MsgResponse>(0).unwrap();
    let mut receiver = ResponseReceiver::take(&mut theirs).unwrap();
    for n in 0..5 {
        producer.current_message().data = n;
        producer.force_push();
    }
    for n in 0..3 {
        assert_eq!(receiver.receive().unwrap().unwrap().data, n);
    }
    assert_eq!(receiver.receive().err(), Some(QueueFault));
}

#[test]
fn client_receivers_take_their_channels() {
    let (_ours, mut theirs) = connect(&rpc_vector_config());
    assert!(ResponseReceiver::take(&mut theirs).is_some());
    assert!(ResponseReceiver::take(&mut theirs).is_none());
    assert!(EventReceiver::take(&mut theirs).is_some());
    assert!(EventReceiver::take(&mut theirs).is_none());
    // the server has one consumer only
    let (mut ours, _theirs) = connect(&rpc_vector_config());
    assert!(EventReceiver::take(&mut ours).is_none());
}

#[test]
fn command_sender_takes_its_channel() {
    let (mut ours, mut theirs) = connect(&rpc_vector_config());
    assert!(CommandSender::take(&mut theirs).is_some());
    assert!(CommandSender::take(&mut theirs).is_none());
    // on the server's side the first producer is that of the responses
    assert!(ours.producer_info(0).is_some());
    assert!(CommandSender::take(&mut ours).is_some());
    assert!(ours.producer_info(0).is_none());
}

#[test]
fn a_whole_serving_run() {
    let (mut server, mut client) = connected();
    client.send(1, [0, 0, 0]);
    client.send(2, [0, 0, 0]);
    let mut waits = 0;
    let mut processed = Vec::new();
    let mut action = serve_next(ServeEvent::Started);
    loop {
        let event = match action {
            ServeAction::Wait => {
                waits += 1;
                ServeEvent::Woken {
                    readable: waits % 2 == 0,
                }
            }
            ServeAction::Receive => ServeEvent::Received(after_receive(server.receive_cmd())),
            ServeAction::Process(cmd) => {
                processed.push((waits, cmd.id));
                if cmd.id == 2 {
                    client.send(1, [0, 0, 0]);
                }
                ServeEvent::Processed {
                    run: server.process_cmd(cmd),
                }
            }
            ServeAction::Stop => break,
            ServeAction::Fail => panic!("unexpected"),
        };
        action = serve_next(event);
    }
    // every other wait finds something to read, and the command after the stop is left
    assert_eq!(processed, vec![(2, 1), (4, 2)]);
}
