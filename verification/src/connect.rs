//! The request by which a client hands its channels to a server.
//!
//! `F` is whatever stands for a descriptor.

use crate::config::accepted;
use crate::config::all_narrow;
use crate::config::all_on_bus;
use crate::config::bus_models;
use crate::config::lemma_server_mirrors_client;
use crate::config::rtipc_into_zbus_config;
use crate::config::zbus_into_rtipc_vector_config;
use crate::config::ChannelConfigBus;
use crate::config::VectorConfig;
use crate::config::VectorModel;
use crate::error::SetupError;
use vstd::prelude::*;

verus! {

/// A request to connect, named from the client's point of view.
pub struct ConnectRequest<F> {
    pub shmfd: F,
    pub producers: Vec<ChannelConfigBus>,
    pub producer_eventfds: Vec<F>,
    pub consumers: Vec<ChannelConfigBus>,
    pub consumer_eventfds: Vec<F>,
    pub info: Vec<u8>,
}

/// What a process makes its channels from, named from its own point of view.
pub struct Endpoint<F> {
    pub config: VectorConfig,
    pub shmfd: F,
    pub consumer_eventfds: Vec<F>,
    pub producer_eventfds: Vec<F>,
}

impl<F> ConnectRequest<F> {
    /// Whether the request tells of the channels of `client`.
    pub open spec fn tells_of(self, client: Endpoint<F>) -> bool {
        &&& self.shmfd == client.shmfd
        &&& bus_models(self.producers@) == all_on_bus(client.config@.producers)
        &&& self.producer_eventfds@ == client.producer_eventfds@
        &&& bus_models(self.consumers@) == all_on_bus(client.config@.consumers)
        &&& self.consumer_eventfds@ == client.consumer_eventfds@
        &&& self.info@ == client.config@.info
    }

    /// The configuration of the server, unless the request is refused.
    pub open spec fn server_config(self) -> Option<VectorModel> {
        accepted(bus_models(self.producers@), bus_models(self.consumers@), self.info@)
    }

    /// Whether `server` is the server's side of the request: what the client
    /// produces, the server consumes, and the descriptors go along.
    pub open spec fn answered_by(self, server: Endpoint<F>) -> bool {
        &&& self.server_config() == Some(server.config@)
        &&& server.shmfd == self.shmfd
        &&& server.consumer_eventfds@ == self.producer_eventfds@
        &&& server.producer_eventfds@ == self.consumer_eventfds@
    }

    /// The request of a client.
    pub fn new(client: Endpoint<F>) -> (r: ConnectRequest<F>)
        ensures
            r.tells_of(client),
    {
        ConnectRequest {
            shmfd: client.shmfd,
            producers: rtipc_into_zbus_config(&client.config.producers),
            producer_eventfds: client.producer_eventfds,
            consumers: rtipc_into_zbus_config(&client.config.consumers),
            consumer_eventfds: client.consumer_eventfds,
            info: client.config.info,
        }
    }

    /// The server's side of the request.
    pub fn into_server(self) -> (r: Result<Endpoint<F>, SetupError>)
        ensures
            r is Ok <==> self.server_config() is Some,
            r matches Ok(server) ==> self.answered_by(server),
            r matches Err(e) ==> e is ZeroMessageSize,
    {
        match zbus_into_rtipc_vector_config(self.producers, self.consumers, self.info) {
            Ok(config) => Ok(
                Endpoint {
                    config,
                    shmfd: self.shmfd,
                    consumer_eventfds: self.producer_eventfds,
                    producer_eventfds: self.consumer_eventfds,
                },
            ),
            Err(e) => Err(e),
        }
    }
}

/// A producer on the client side is a consumer on the server side, and the other
/// way round, with its configuration and its event descriptor. The request is
/// accepted if every message has a byte and the numbers fit in 32 bits.
pub proof fn lemma_connection_mirrors<F>(
    client: Endpoint<F>,
    request: ConnectRequest<F>,
    server: Endpoint<F>,
)
    requires
        client.config@.wf(),
        all_narrow(client.config@.producers),
        all_narrow(client.config@.consumers),
        request.tells_of(client),
    ensures
        request.server_config() is Some,
        request.answered_by(server) ==> {
            &&& server.config@ == client.config@.mirrored()
            &&& server.shmfd == client.shmfd
            &&& server.consumer_eventfds@ == client.producer_eventfds@
            &&& server.producer_eventfds@ == client.consumer_eventfds@
        },
{
    lemma_server_mirrors_client(client.config@);
}

} // verus!
