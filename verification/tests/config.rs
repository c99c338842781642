use rtipc_zbus::config::{
    rpc_vector_config, zbus_into_rtipc_config, ChannelConfig, QueueConfig,
};
use rtipc_zbus::connect::{ConnectRequest, Endpoint};
use rtipc_zbus::error::{BusErrorKind, SetupError};
use rtipc_zbus::{
    rtipc_into_zbus_config, zbus_into_rtipc_vector_config, ChannelConfigBus, MsgCommand, MsgEvent,
    MsgResponse,
};

fn bus(message_size: u32) -> ChannelConfigBus {
    ChannelConfigBus {
        additonal_messages: 3,
        message_size,
        eventfd: true,
        info: vec![1, 2],
    }
}

fn facts(c: &ChannelConfig) -> (usize, usize, bool, Vec<u8>) {
    (
        c.queue.additional_messages,
        c.queue.message_size,
        c.eventfd,
        c.queue.info.clone(),
    )
}

#[test]
fn from_the_bus() {
    let config = bus(16).into_rtipc_config().unwrap();
    assert_eq!(facts(&config), (3, 16, true, vec![1, 2]));
    let config = bus(u32::MAX).into_rtipc_config().unwrap();
    assert_eq!(config.queue.message_size, 0xffff_ffff);
}

#[test]
fn to_the_bus_and_back() {
    let config = ChannelConfig {
        queue: QueueConfig {
            additional_messages: 10,
            message_size: 8,
            info: b"rpc event".to_vec(),
        },
        eventfd: false,
    };
    let b = ChannelConfigBus::from_rtipc_config(&config);
    assert_eq!(
        (b.additonal_messages, b.message_size, b.eventfd),
        (10, 8, false)
    );
    assert_eq!(b.info, b"rpc event".to_vec());
    assert_eq!(facts(&b.into_rtipc_config().unwrap()), facts(&config));
}

#[test]
fn wide_numbers_lose_their_high_bits() {
    let config = ChannelConfig {
        queue: QueueConfig {
            additional_messages: 0x1_0000_0005,
            message_size: 0x3_0000_0000,
            info: vec![],
        },
        eventfd: true,
    };
    let b = ChannelConfigBus::from_rtipc_config(&config);
    assert_eq!((b.additonal_messages, b.message_size), (5, 0));
    assert!(matches!(
        b.into_rtipc_config(),
        Err(SetupError::ZeroMessageSize)
    ));
}

#[test]
fn no_empty_messages() {
    assert!(matches!(
        bus(0).into_rtipc_config(),
        Err(SetupError::ZeroMessageSize)
    ));
    assert!(matches!(
        zbus_into_rtipc_config(vec![bus(1), bus(0), bus(2)]),
        Err(SetupError::ZeroMessageSize)
    ));
    assert!(zbus_into_rtipc_vector_config(vec![bus(1)], vec![bus(0)], vec![]).is_err());
    assert!(zbus_into_rtipc_vector_config(vec![bus(0)], vec![bus(1)], vec![]).is_err());
    assert!(zbus_into_rtipc_vector_config(vec![], vec![], vec![]).is_ok());
}

#[test]
fn lists_keep_their_order() {
    let configs = zbus_into_rtipc_config(vec![bus(1), bus(2), bus(3)]).unwrap();
    let sizes: Vec<usize> = configs.iter().map(|c| c.queue.message_size).collect();
    assert_eq!(sizes, vec![1, 2, 3]);
    let sizes: Vec<u32> = rtipc_into_zbus_config(&configs)
        .iter()
        .map(|c| c.message_size)
        .collect();
    assert_eq!(sizes, vec![1, 2, 3]);
}

#[test]
fn server_mirrors_client() {
    let client = rpc_vector_config();
    let server = zbus_into_rtipc_vector_config(
        rtipc_into_zbus_config(&client.producers),
        rtipc_into_zbus_config(&client.consumers),
        client.info.clone(),
    )
    .unwrap();
    let all = |configs: &Vec<ChannelConfig>| configs.iter().map(facts).collect::<Vec<_>>();
    assert_eq!(all(&server.consumers), all(&client.producers));
    assert_eq!(all(&server.producers), all(&client.consumers));
    assert_eq!(server.info, client.info);
}

#[test]
fn example_channels() {
    let config = rpc_vector_config();
    let producers: Vec<_> = config.producers.iter().map(facts).collect();
    let consumers: Vec<_> = config.consumers.iter().map(facts).collect();
    assert_eq!(
        producers,
        vec![(
            0,
            std::mem::size_of::<MsgCommand>(),
            true,
            b"rpc command".to_vec()
        )]
    );
    assert_eq!(
        consumers,
        vec![
            (
                0,
                std::mem::size_of::<MsgResponse>(),
                true,
                b"rpc response".to_vec()
            ),
            (
                10,
                std::mem::size_of::<MsgEvent>(),
                false,
                b"rpc event".to_vec()
            ),
        ]
    );
    assert_eq!(config.info, b"rpc example".to_vec());
}

#[test]
fn error_messages() {
    for (e, kind, text) in [
        (
            SetupError::ZeroMessageSize,
            BusErrorKind::InvalidArgs,
            "message_size can't be zero",
        ),
        (
            SetupError::ResourceFailed,
            BusErrorKind::InvalidArgs,
            "VectorResource failed",
        ),
        (
            SetupError::VectorFailed,
            BusErrorKind::InvalidArgs,
            "ChannelVector filed",
        ),
        (
            SetupError::CloneFailed,
            BusErrorKind::Failed,
            "try_clone_to_owned failed",
        ),
    ] {
        assert_eq!(e.kind(), kind);
        assert_eq!(e.message(), text);
    }
}

#[test]
fn connection_mirrors() {
    let client = rpc_vector_config();
    let all = |configs: &Vec<ChannelConfig>| configs.iter().map(facts).collect::<Vec<_>>();
    let (producers, consumers) = (all(&client.producers), all(&client.consumers));
    let request = ConnectRequest::new(Endpoint {
        config: client,
        shmfd: "shm",
        consumer_eventfds: vec!["rsp"],
        producer_eventfds: vec!["cmd"],
    });
    assert_eq!(request.producers.len(), 1);
    assert_eq!(request.consumers.len(), 2);
    assert_eq!(request.producer_eventfds, vec!["cmd"]);
    assert_eq!(request.consumer_eventfds, vec!["rsp"]);
    let server = request.into_server().unwrap();
    assert_eq!(all(&server.config.consumers), producers);
    assert_eq!(all(&server.config.producers), consumers);
    assert_eq!(server.config.info, b"rpc example".to_vec());
    assert_eq!(server.shmfd, "shm");
    assert_eq!(server.consumer_eventfds, vec!["cmd"]);
    assert_eq!(server.producer_eventfds, vec!["rsp"]);
}

#[test]
fn connection_refused() {
    let mut client = rpc_vector_config();
    client.consumers[1].queue.message_size = 0;
    let request = ConnectRequest::new(Endpoint {
        config: client,
        shmfd: 0,
        consumer_eventfds: vec![1],
        producer_eventfds: vec![2],
    });
    assert!(matches!(
        request.into_server(),
        Err(SetupError::ZeroMessageSize)
    ));
}
