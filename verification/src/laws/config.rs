//! What becomes of channel configurations.

use crate::config::accepted;
use crate::config::all_on_bus;
use crate::config::all_wf;
use crate::config::bus_models;
use crate::config::channel_models;
use crate::config::rpc_model;
use crate::config::ChannelConfig;
use crate::config::ChannelConfigBus;
use crate::config::VectorConfig;
use crate::connect::ConnectRequest;
use crate::connect::Endpoint;
use crate::error::SetupError;
use crate::message::MsgCommand;
use crate::message::MsgEvent;
use crate::message::MsgResponse;
use vstd::prelude::*;
use vstd::utf8::encode_utf8;

verus! {

/// Whether `bus` is what travels of `config`: its numbers modulo 2^32, and the
/// rest as it is.
pub open spec fn travels(config: ChannelConfig, bus: ChannelConfigBus) -> bool {
    &&& bus.additonal_messages as int == config.queue.additional_messages as int % 0x1_0000_0000
    &&& bus.message_size as int == config.queue.message_size as int % 0x1_0000_0000
    &&& bus.eventfd == config.eventfd
    &&& bus.info@ == config.queue.info@
}

/// Whether `config` says the same as `bus`.
pub open spec fn arrives(bus: ChannelConfigBus, config: ChannelConfig) -> bool {
    &&& config.queue.additional_messages == bus.additonal_messages
    &&& config.queue.message_size == bus.message_size
    &&& config.eventfd == bus.eventfd
    &&& config.queue.info@ == bus.info@
}

/// The form for the bus has the numbers modulo 2^32, and everything else as it is
/// in the configuration.
pub proof fn law_to_bus(config: ChannelConfig, bus: ChannelConfigBus)
    ensures
        bus@ == config@.on_bus() <==> {
            &&& bus.additonal_messages as int == config.queue.additional_messages as int
                % 0x1_0000_0000
            &&& bus.message_size as int == config.queue.message_size as int % 0x1_0000_0000
            &&& bus.eventfd == config.eventfd
            &&& bus.info@ == config.queue.info@
        },
{
    if travels(config, bus) {
        assert(bus@ =~= config@.on_bus());
    }
}

/// What comes from the bus is taken over field by field, and refused exactly if
/// its messages have no byte.
pub proof fn law_from_bus(bus: ChannelConfigBus, config: ChannelConfig)
    ensures
        bus@.wf() <==> bus.message_size != 0,
        config@ == bus@ <==> {
            &&& config.queue.additional_messages == bus.additonal_messages
            &&& config.queue.message_size == bus.message_size
            &&& config.eventfd == bus.eventfd
            &&& config.queue.info@ == bus.info@
        },
{
    if arrives(bus, config) {
        assert(config@ =~= bus@);
    }
}

/// To the bus and back, a configuration whose numbers fit in 32 bits is the same.
pub proof fn law_there_and_back(
    config: ChannelConfig,
    bus: ChannelConfigBus,
    back: ChannelConfig,
)
    requires
        bus@ == config@.on_bus(),
        back@ == bus@,
        config.queue.additional_messages < 0x1_0000_0000,
        config.queue.message_size < 0x1_0000_0000,
    ensures
        back.queue.additional_messages == config.queue.additional_messages,
        back.queue.message_size == config.queue.message_size,
        back.eventfd == config.eventfd,
        back.queue.info@ == config.queue.info@,
{
    law_to_bus(config, bus);
    law_from_bus(bus, back);
}

/// A list for the bus has an entry for each configuration, in the same order.
pub proof fn law_list_to_bus(configs: Seq<ChannelConfig>, buses: Seq<ChannelConfigBus>)
    requires
        bus_models(buses) == all_on_bus(channel_models(configs)),
    ensures
        buses.len() == configs.len(),
        forall|i: int|
            #![trigger buses[i]]
            #![trigger configs[i]]
            0 <= i < configs.len() ==> {
                &&& buses[i].additonal_messages as int
                    == configs[i].queue.additional_messages as int % 0x1_0000_0000
                &&& buses[i].message_size as int == configs[i].queue.message_size as int
                    % 0x1_0000_0000
                &&& buses[i].eventfd == configs[i].eventfd
                &&& buses[i].info@ == configs[i].queue.info@
            },
{
    assert(bus_models(buses).len() == buses.len());
    assert(all_on_bus(channel_models(configs)).len() == configs.len());
    assert forall|i: int| 0 <= i < configs.len() implies travels(
        #[trigger] configs[i],
        buses[i],
    ) by {
        assert(bus_models(buses)[i] == buses[i]@);
        assert(all_on_bus(channel_models(configs))[i] == configs[i]@.on_bus());
        law_to_bus(configs[i], buses[i]);
    }
    assert forall|i: int| #![trigger buses[i]] 0 <= i < configs.len() implies travels(
        configs[i],
        buses[i],
    ) by {
        assert(travels(configs[i], buses[i]));
    }
}

/// A list from the bus is refused exactly if an entry has messages of no byte.
/// Otherwise it gives a configuration for each entry, in the same order.
pub proof fn law_list_from_bus(buses: Seq<ChannelConfigBus>, configs: Seq<ChannelConfig>)
    ensures
        all_wf(bus_models(buses)) <==> forall|i: int|
            0 <= i < buses.len() ==> (#[trigger] buses[i]).message_size != 0,
        channel_models(configs) == bus_models(buses) ==> {
            &&& configs.len() == buses.len()
            &&& forall|i: int|
                #![trigger buses[i]]
                #![trigger configs[i]]
                0 <= i < buses.len() ==> {
                    &&& configs[i].queue.additional_messages == buses[i].additonal_messages
                    &&& configs[i].queue.message_size == buses[i].message_size
                    &&& configs[i].eventfd == buses[i].eventfd
                    &&& configs[i].queue.info@ == buses[i].info@
                }
        },
{
    let models = bus_models(buses);
    if all_wf(models) {
        assert forall|i: int| 0 <= i < buses.len() implies (#[trigger] buses[i]).message_size
            != 0 by {
            assert(models[i].wf());
        }
    } else {
        let i = choose|i: int| 0 <= i < models.len() && !(#[trigger] models[i]).wf();
        assert(buses[i].message_size == 0);
    }
    if channel_models(configs) == models {
        assert(channel_models(configs).len() == configs.len() && models.len() == buses.len());
        assert forall|i: int| #![trigger buses[i]] 0 <= i < buses.len() implies arrives(
            buses[i],
            configs[i],
        ) by {
            assert(channel_models(configs)[i] == configs[i]@);
            assert(models[i] == buses[i]@);
            law_from_bus(buses[i], configs[i]);
        }
        assert forall|i: int| #![trigger configs[i]] 0 <= i < buses.len() implies arrives(
            buses[i],
            configs[i],
        ) by {
            assert(arrives(buses[i], configs[i]));
        }
    }
}

/// What a server is told is refused exactly if an entry of either list has
/// messages of no byte, and otherwise taken over: each list as the one of its
/// name, and the description.
pub proof fn law_accepted(
    consumers: Seq<ChannelConfigBus>,
    producers: Seq<ChannelConfigBus>,
    info: Seq<u8>,
    config: VectorConfig,
)
    ensures
        accepted(bus_models(consumers), bus_models(producers), info) is Some <==> {
            &&& forall|i: int|
                0 <= i < consumers.len() ==> (#[trigger] consumers[i]).message_size != 0
            &&& forall|i: int|
                0 <= i < producers.len() ==> (#[trigger] producers[i]).message_size != 0
        },
        accepted(bus_models(consumers), bus_models(producers), info) == Some(config@) ==> {
            &&& config.info@ == info
            &&& channel_models(config.consumers@) == bus_models(consumers)
            &&& channel_models(config.producers@) == bus_models(producers)
            &&& config.consumers@.len() == consumers.len()
            &&& config.producers@.len() == producers.len()
        },
{
    law_list_from_bus(consumers, config.consumers@);
    law_list_from_bus(producers, config.producers@);
}

/// A request carries what its client has, and the server's side of it swaps
/// producers and consumers, descriptors included.
pub proof fn law_connection<F>(
    client: Endpoint<F>,
    request: ConnectRequest<F>,
    server: Endpoint<F>,
)
    ensures
        request.tells_of(client) ==> {
            &&& request.shmfd == client.shmfd
            &&& request.info@ == client.config.info@
            &&& request.producer_eventfds@ == client.producer_eventfds@
            &&& request.consumer_eventfds@ == client.consumer_eventfds@
            &&& bus_models(request.producers@) == all_on_bus(
                channel_models(client.config.producers@),
            )
            &&& bus_models(request.consumers@) == all_on_bus(
                channel_models(client.config.consumers@),
            )
        },
        request.server_config() is Some <==> {
            &&& forall|i: int|
                0 <= i < request.producers@.len() ==> (
                #[trigger] request.producers@[i]).message_size != 0
            &&& forall|i: int|
                0 <= i < request.consumers@.len() ==> (
                #[trigger] request.consumers@[i]).message_size != 0
        },
        request.answered_by(server) ==> {
            &&& server.shmfd == request.shmfd
            &&& server.config.info@ == request.info@
            &&& server.consumer_eventfds@ == request.producer_eventfds@
            &&& server.producer_eventfds@ == request.consumer_eventfds@
            &&& channel_models(server.config.consumers@) == bus_models(request.producers@)
            &&& channel_models(server.config.producers@) == bus_models(request.consumers@)
        },
{
    law_accepted(request.producers@, request.consumers@, request.info@, server.config);
}

/// Channel by channel, a server that answers a client's request has what the
/// client has, with producers and consumers swapped and the numbers modulo 2^32.
pub proof fn law_server_side<F>(
    client: Endpoint<F>,
    request: ConnectRequest<F>,
    server: Endpoint<F>,
)
    requires
        request.tells_of(client),
        request.answered_by(server),
    ensures
        server.shmfd == client.shmfd,
        server.config.info@ == client.config.info@,
        server.consumer_eventfds@ == client.producer_eventfds@,
        server.producer_eventfds@ == client.consumer_eventfds@,
        server.config.consumers@.len() == client.config.producers@.len(),
        server.config.producers@.len() == client.config.consumers@.len(),
        forall|i: int|
            0 <= i < client.config.producers@.len() ==> seen(
                #[trigger] client.config.producers@[i],
                server.config.consumers@[i],
            ),
        forall|i: int|
            0 <= i < client.config.consumers@.len() ==> seen(
                #[trigger] client.config.consumers@[i],
                server.config.producers@[i],
            ),
{
    law_connection(client, request, server);
    lemma_seen(client.config.producers@, request.producers@, server.config.consumers@);
    lemma_seen(client.config.consumers@, request.consumers@, server.config.producers@);
}

/// Whether `there` is what the other process sees of `here`.
pub open spec fn seen(here: ChannelConfig, there: ChannelConfig) -> bool {
    &&& there.queue.additional_messages as int == here.queue.additional_messages as int
        % 0x1_0000_0000
    &&& there.queue.message_size as int == here.queue.message_size as int % 0x1_0000_0000
    &&& there.eventfd == here.eventfd
    &&& there.queue.info@ == here.queue.info@
}

proof fn lemma_seen(
    here: Seq<ChannelConfig>,
    buses: Seq<ChannelConfigBus>,
    there: Seq<ChannelConfig>,
)
    requires
        bus_models(buses) == all_on_bus(channel_models(here)),
        channel_models(there) == bus_models(buses),
    ensures
        there.len() == here.len(),
        forall|i: int| 0 <= i < here.len() ==> seen(#[trigger] here[i], there[i]),
{
    law_list_to_bus(here, buses);
    law_list_from_bus(buses, there);
    assert forall|i: int| 0 <= i < here.len() implies seen(#[trigger] here[i], there[i]) by {
        assert(travels(here[i], buses[i]));
        assert(arrives(buses[i], there[i]));
    }
}

/// A client with channels whose messages have a byte, and whose numbers fit in 32
/// bits, is never refused.
pub proof fn law_not_refused<F>(client: Endpoint<F>, request: ConnectRequest<F>)
    requires
        request.tells_of(client),
        forall|i: int|
            0 <= i < client.config.producers@.len() ==> 0 < (
            #[trigger] client.config.producers@[i]).queue.message_size < 0x1_0000_0000,
        forall|i: int|
            0 <= i < client.config.consumers@.len() ==> 0 < (
            #[trigger] client.config.consumers@[i]).queue.message_size < 0x1_0000_0000,
    ensures
        request.server_config() is Some,
{
    law_connection(client, request, client);
    law_list_to_bus(client.config.producers@, request.producers@);
    law_list_to_bus(client.config.consumers@, request.consumers@);
    assert forall|i: int| 0 <= i < request.producers@.len() implies (
    #[trigger] request.producers@[i]).message_size != 0 by {
        assert(0 < client.config.producers@[i].queue.message_size < 0x1_0000_0000);
    }
    assert forall|i: int| 0 <= i < request.consumers@.len() implies (
    #[trigger] request.consumers@[i]).message_size != 0 by {
        assert(0 < client.config.consumers@[i].queue.message_size < 0x1_0000_0000);
    }
}

/// The channels of the example.
pub proof fn law_rpc_model(config: VectorConfig)
    requires
        config@ == rpc_model(),
    ensures
        config.info@ == encode_utf8("rpc example"@),
        config.producers@.len() == 1,
        config.producers@[0].queue.additional_messages == 0,
        config.producers@[0].queue.message_size == vstd::layout::size_of::<MsgCommand>(),
        config.producers@[0].queue.info@ == encode_utf8("rpc command"@),
        config.producers@[0].eventfd,
        config.consumers@.len() == 2,
        config.consumers@[0].queue.additional_messages == 0,
        config.consumers@[0].queue.message_size == vstd::layout::size_of::<MsgResponse>(),
        config.consumers@[0].queue.info@ == encode_utf8("rpc response"@),
        config.consumers@[0].eventfd,
        config.consumers@[1].queue.additional_messages == 10,
        config.consumers@[1].queue.message_size == vstd::layout::size_of::<MsgEvent>(),
        config.consumers@[1].queue.info@ == encode_utf8("rpc event"@),
        !config.consumers@[1].eventfd,
{
    let producers = channel_models(config.producers@);
    let consumers = channel_models(config.consumers@);
    assert(producers == rpc_model().producers && consumers == rpc_model().consumers);
    assert(producers.len() == 1 && consumers.len() == 2);
    assert(producers[0] == config.producers@[0]@);
    assert(consumers[0] == config.consumers@[0]@);
    assert(consumers[1] == config.consumers@[1]@);
}

/// What the errors of a setup say.
pub proof fn law_error_texts()
    ensures
        SetupError::ZeroMessageSize.text() == "message_size can't be zero"@,
        SetupError::ResourceFailed.text() == "VectorResource failed"@,
        SetupError::VectorFailed.text() == "ChannelVector filed"@,
        SetupError::CloneFailed.text() == "try_clone_to_owned failed"@,
{
}

} // verus!
