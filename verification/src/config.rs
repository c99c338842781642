//! Channel configurations, and the form that they have on D-Bus.

use crate::error::SetupError;
use crate::message::MsgCommand;
use crate::message::MsgEvent;
use crate::message::MsgResponse;
use crate::wrap::low_bits;
use crate::wrap::TWO_POW_32;
use vstd::prelude::*;
use vstd::utf8::encode_utf8;

verus! {

/// How a queue of messages is made.
#[derive(Debug)]
pub struct QueueConfig {
    /// How many messages the queue has room for beyond the smallest number.
    pub additional_messages: usize,
    /// The bytes of a message. There is no queue for messages of no bytes.
    pub message_size: usize,
    pub info: Vec<u8>,
}

/// How a channel is made.
#[derive(Debug)]
pub struct ChannelConfig {
    pub queue: QueueConfig,
    /// Whether the consumer is notified through an event descriptor.
    pub eventfd: bool,
}

/// How the channels between two processes are made, from the point of view of
/// one of them.
#[derive(Debug)]
pub struct VectorConfig {
    pub producers: Vec<ChannelConfig>,
    pub consumers: Vec<ChannelConfig>,
    pub info: Vec<u8>,
}

/// A channel configuration as it travels over D-Bus.
#[derive(Debug)]
pub struct ChannelConfigBus {
    pub additonal_messages: u32,
    pub message_size: u32,
    pub eventfd: bool,
    pub info: Vec<u8>,
}

/// What a channel configuration says, in either form.
#[verifier::ext_equal]
pub struct ChannelModel {
    pub additional_messages: nat,
    pub message_size: nat,
    pub eventfd: bool,
    pub info: Seq<u8>,
}

/// What a configuration of channels says.
#[verifier::ext_equal]
pub struct VectorModel {
    pub producers: Seq<ChannelModel>,
    pub consumers: Seq<ChannelModel>,
    pub info: Seq<u8>,
}

impl View for ChannelConfig {
    type V = ChannelModel;

    open spec fn view(&self) -> ChannelModel {
        ChannelModel {
            additional_messages: self.queue.additional_messages as nat,
            message_size: self.queue.message_size as nat,
            eventfd: self.eventfd,
            info: self.queue.info@,
        }
    }
}

impl View for ChannelConfigBus {
    type V = ChannelModel;

    open spec fn view(&self) -> ChannelModel {
        ChannelModel {
            additional_messages: self.additonal_messages as nat,
            message_size: self.message_size as nat,
            eventfd: self.eventfd,
            info: self.info@,
        }
    }
}

impl View for VectorConfig {
    type V = VectorModel;

    open spec fn view(&self) -> VectorModel {
        VectorModel {
            producers: channel_models(self.producers@),
            consumers: channel_models(self.consumers@),
            info: self.info@,
        }
    }
}

pub open spec fn channel_models(configs: Seq<ChannelConfig>) -> Seq<ChannelModel> {
    Seq::new(configs.len(), |i: int| configs[i]@)
}

pub open spec fn bus_models(configs: Seq<ChannelConfigBus>) -> Seq<ChannelModel> {
    Seq::new(configs.len(), |i: int| configs[i]@)
}

impl ChannelModel {
    /// Whether a channel can be made: its messages have a byte.
    pub open spec fn wf(self) -> bool {
        self.message_size != 0
    }

    /// What is left of the configuration on the bus: the low 32 bits of its
    /// numbers.
    pub open spec fn on_bus(self) -> ChannelModel {
        ChannelModel {
            additional_messages: self.additional_messages % (TWO_POW_32 as nat),
            message_size: self.message_size % (TWO_POW_32 as nat),
            ..self
        }
    }

    /// Whether the numbers fit in 32 bits.
    pub open spec fn narrow(self) -> bool {
        self.additional_messages < TWO_POW_32 && self.message_size < TWO_POW_32
    }
}

pub open spec fn all_wf(configs: Seq<ChannelModel>) -> bool {
    forall|i: int| 0 <= i < configs.len() ==> (#[trigger] configs[i]).wf()
}

pub open spec fn all_narrow(configs: Seq<ChannelModel>) -> bool {
    forall|i: int| 0 <= i < configs.len() ==> (#[trigger] configs[i]).narrow()
}

pub open spec fn all_on_bus(configs: Seq<ChannelModel>) -> Seq<ChannelModel> {
    Seq::new(configs.len(), |i: int| configs[i].on_bus())
}

impl VectorModel {
    pub open spec fn wf(self) -> bool {
        all_wf(self.producers) && all_wf(self.consumers)
    }

    /// The same channels as the other process sees them: what one produces, the
    /// other consumes.
    pub open spec fn mirrored(self) -> VectorModel {
        VectorModel { producers: self.consumers, consumers: self.producers, info: self.info }
    }
}

/// What is made of configurations that come from the bus. They are refused as a
/// whole if one of them has messages of no bytes.
pub open spec fn accepted(
    consumers: Seq<ChannelModel>,
    producers: Seq<ChannelModel>,
    info: Seq<u8>,
) -> Option<VectorModel> {
    if all_wf(consumers) && all_wf(producers) {
        Some(VectorModel { producers, consumers, info })
    } else {
        None
    }
}

impl ChannelConfigBus {
    pub fn from_rtipc_config(config: &ChannelConfig) -> (r: ChannelConfigBus)
        ensures
            r@ == config@.on_bus(),
    {
        ChannelConfigBus {
            additonal_messages: low_bits(config.queue.additional_messages),
            message_size: low_bits(config.queue.message_size),
            eventfd: config.eventfd,
            info: config.queue.info.clone(),
        }
    }

    pub fn into_rtipc_config(self) -> (r: Result<ChannelConfig, SetupError>)
        ensures
            r is Ok <==> self@.wf(),
            r matches Ok(config) ==> config@ == self@,
            r matches Err(e) ==> e is ZeroMessageSize,
    {
        let message_size: usize = self.message_size as usize;
        if message_size == 0 {
            return Err(SetupError::ZeroMessageSize);
        }
        Ok(
            ChannelConfig {
                queue: QueueConfig {
                    additional_messages: self.additonal_messages as usize,
                    message_size,
                    info: self.info,
                },
                eventfd: self.eventfd,
            },
        )
    }
}

/// Turns a list of configurations from the bus into channel configurations.
pub fn zbus_into_rtipc_config(channels_bus: Vec<ChannelConfigBus>) -> (r: Result<
    Vec<ChannelConfig>,
    SetupError,
>)
    ensures
        r is Ok <==> all_wf(bus_models(channels_bus@)),
        r matches Ok(channels) ==> channel_models(channels@) == bus_models(channels_bus@),
        r matches Err(e) ==> e is ZeroMessageSize,
{
    let ghost wanted = channels_bus@;
    let mut channels: Vec<ChannelConfig> = Vec::new();
    for c in it: channels_bus
        invariant
            it.seq() == wanted,
            channel_models(channels@) == bus_models(wanted).take(it.index()),
            all_wf(channel_models(channels@)),
    {
        let ghost before = channel_models(channels@);
        match c.into_rtipc_config() {
            Ok(config) => {
                channels.push(config);
                assert(channel_models(channels@) =~= before.push(config@));
            },
            Err(e) => {
                assert(!bus_models(wanted)[it.index()].wf());
                return Err(e);
            },
        }
    }
    assert(channel_models(channels@) =~= bus_models(wanted));
    Ok(channels)
}

/// Turns the configurations that a client sent into those of the server. The
/// lists are named from the server's point of view.
pub fn zbus_into_rtipc_vector_config(
    consumers_zbus: Vec<ChannelConfigBus>,
    producers_zbus: Vec<ChannelConfigBus>,
    info: Vec<u8>,
) -> (r: Result<VectorConfig, SetupError>)
    ensures
        match r {
            Ok(config) => accepted(
                bus_models(consumers_zbus@),
                bus_models(producers_zbus@),
                info@,
            ) == Some(config@),
            Err(e) => {
                &&& e is ZeroMessageSize
                &&& accepted(bus_models(consumers_zbus@), bus_models(producers_zbus@), info@)
                    is None
            },
        },
{
    let consumers = match zbus_into_rtipc_config(consumers_zbus) {
        Ok(consumers) => consumers,
        Err(e) => return Err(e),
    };
    let producers = match zbus_into_rtipc_config(producers_zbus) {
        Ok(producers) => producers,
        Err(e) => return Err(e),
    };
    Ok(VectorConfig { consumers, producers, info })
}

/// Turns a list of channel configurations into the form for the bus.
pub fn rtipc_into_zbus_config(configs: &Vec<ChannelConfig>) -> (r: Vec<ChannelConfigBus>)
    ensures
        bus_models(r@) == all_on_bus(channel_models(configs@)),
{
    let mut r: Vec<ChannelConfigBus> = Vec::new();
    for i in 0..configs.len()
        invariant
            r@.len() == i,
            forall|k: int| 0 <= k < i ==> (#[trigger] r@[k])@ == configs@[k]@.on_bus(),
    {
        r.push(ChannelConfigBus::from_rtipc_config(&configs[i]));
    }
    assert(bus_models(r@) =~= all_on_bus(channel_models(configs@)));
    r
}

/// A configuration whose numbers fit in 32 bits is the same on the bus.
pub proof fn lemma_narrow_on_bus(config: ChannelModel)
    requires
        config.narrow(),
    ensures
        config.on_bus() == config,
{
    vstd::arithmetic::div_mod::lemma_small_mod(config.additional_messages, TWO_POW_32 as nat);
    vstd::arithmetic::div_mod::lemma_small_mod(config.message_size, TWO_POW_32 as nat);
}

/// A configuration that came from the bus returns to it unchanged.
pub proof fn lemma_bus_round_trip(bus: ChannelConfigBus, config: ChannelConfig)
    requires
        config@ == bus@,
    ensures
        config@.on_bus() == bus@,
{
    lemma_narrow_on_bus(bus@);
}

/// A producer on the client side is a consumer on the server side, and the other
/// way round: what a client sends of its channels, the server accepts as the
/// mirror image, as long as the numbers fit in 32 bits.
pub proof fn lemma_server_mirrors_client(client: VectorModel)
    requires
        client.wf(),
        all_narrow(client.producers),
        all_narrow(client.consumers),
    ensures
        accepted(all_on_bus(client.producers), all_on_bus(client.consumers), client.info) == Some(
            client.mirrored(),
        ),
{
    lemma_all_narrow_on_bus(client.producers);
    lemma_all_narrow_on_bus(client.consumers);
}

proof fn lemma_all_narrow_on_bus(configs: Seq<ChannelModel>)
    requires
        all_narrow(configs),
    ensures
        all_on_bus(configs) == configs,
{
    assert forall|i: int| 0 <= i < configs.len() implies all_on_bus(configs)[i] == configs[i] by {
        lemma_narrow_on_bus(configs[i]);
    }
    assert(all_on_bus(configs) =~= configs);
}

/// Whatever the numbers, the server sees as many channels as the client, with the
/// same descriptions and notifications, and the low 32 bits of the numbers. It
/// refuses them if a message size has none of those bits.
pub proof fn lemma_server_sees_low_bits(client: VectorModel)
    ensures
        ({
            let seen = accepted(
                all_on_bus(client.producers),
                all_on_bus(client.consumers),
                client.info,
            );
            &&& seen is None <==> {
                ||| exists|i: int|
                    0 <= i < client.producers.len() && #[trigger] client.producers[i].message_size
                        % (TWO_POW_32 as nat) == 0
                ||| exists|i: int|
                    0 <= i < client.consumers.len() && #[trigger] client.consumers[i].message_size
                        % (TWO_POW_32 as nat) == 0
            }
            &&& seen matches Some(server) ==> {
                &&& server.consumers == all_on_bus(client.producers)
                &&& server.producers == all_on_bus(client.consumers)
                &&& server.info == client.info
            }
        }),
{
    lemma_refused(client.producers);
    lemma_refused(client.consumers);
}

proof fn lemma_refused(configs: Seq<ChannelModel>)
    ensures
        !all_wf(all_on_bus(configs)) <==> exists|i: int|
            0 <= i < configs.len() && #[trigger] configs[i].message_size % (TWO_POW_32 as nat) == 0,
{
    let bus = all_on_bus(configs);
    if !all_wf(bus) {
        let i = choose|i: int| 0 <= i < bus.len() && !(#[trigger] bus[i]).wf();
        assert(configs[i].message_size % (TWO_POW_32 as nat) == 0);
    } else {
        assert forall|i: int| 0 <= i < configs.len() implies #[trigger] configs[i].message_size % (
        TWO_POW_32 as nat) != 0 by {
            assert(bus[i].wf());
        }
    }
}

/// What the client of the example asks for: a channel for the commands, one for
/// the responses, and one with more room, and without notification, for the
/// events.
pub open spec fn rpc_model() -> VectorModel {
    VectorModel {
        producers: seq![
            ChannelModel {
                additional_messages: 0,
                message_size: vstd::layout::size_of::<MsgCommand>(),
                eventfd: true,
                info: encode_utf8("rpc command"@),
            },
        ],
        consumers: seq![
            ChannelModel {
                additional_messages: 0,
                message_size: vstd::layout::size_of::<MsgResponse>(),
                eventfd: true,
                info: encode_utf8("rpc response"@),
            },
            ChannelModel {
                additional_messages: 10,
                message_size: vstd::layout::size_of::<MsgEvent>(),
                eventfd: false,
                info: encode_utf8("rpc event"@),
            },
        ],
        info: encode_utf8("rpc example"@),
    }
}

fn channel(additional_messages: usize, message_size: usize, info: &str, eventfd: bool) -> (r:
    ChannelConfig)
    ensures
        r@ == (ChannelModel {
            additional_messages: additional_messages as nat,
            message_size: message_size as nat,
            eventfd,
            info: encode_utf8(info@),
        }),
{
    ChannelConfig {
        queue: QueueConfig { additional_messages, message_size, info: info.as_bytes_vec() },
        eventfd,
    }
}

/// The channels that the client of the example asks for.
pub fn rpc_vector_config() -> (r: VectorConfig)
    ensures
        r@ == rpc_model(),
{
    let c2s_channels: Vec<ChannelConfig> = vec![
        channel(0, core::mem::size_of::<MsgCommand>(), "rpc command", true),
    ];
    let s2c_channels: Vec<ChannelConfig> = vec![
        channel(0, core::mem::size_of::<MsgResponse>(), "rpc response", true),
        channel(10, core::mem::size_of::<MsgEvent>(), "rpc event", false),
    ];
    let r = VectorConfig {
        producers: c2s_channels,
        consumers: s2c_channels,
        info: "rpc example".as_bytes_vec(),
    };
    assert(r@ =~= rpc_model());
    r
}

} // verus!
