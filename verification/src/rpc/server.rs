//! What the node decides when the JSON-RPC server starts: whether it may
//! start with the keys and genesis it was given, which of its optional
//! parts it runs, its request-burst allowance, and the routes it serves.

use crate::types::chain_id::ChainID;
use crate::types::kanari_network::{builtin_id_value, BuiltinChainID};
use vstd::prelude::*;

verus! {

/// Why the server refuses to start.
#[derive(Debug, Clone, Copy, PartialEq, Eq, Structural)]
pub enum StartError {
    /// The sequencer's or the proposer's key pair is missing.
    InvalidSequencerOrProposerOrRelayerKeyPair,
    /// On a chain other than the local one, the genesis names another sequencer.
    SequencerMismatch,
}

/// What the server runs, as decided from its options.
#[derive(Debug, Clone, Copy, PartialEq, Eq, Structural)]
pub struct StartPlan {
    /// The local chain makes the sequencer's account its genesis account.
    pub mock_genesis_account: bool,
    /// A Bitcoin client is started for the service.
    pub connect_bitcoin_client: bool,
    /// Transactions sequenced before the start are processed first.
    pub process_sequenced_on_startup: bool,
    /// The relayer is started.
    pub start_relayer: bool,
    /// How many requests an address may make in a burst.
    pub traffic_burst_size: u32,
}

/// The burst allowance when none is configured: a small one on public
/// chains, a large one on the local chain.
pub open spec fn default_burst_size(is_local: bool) -> u32 {
    if is_local {
        5000
    } else {
        200
    }
}

/// What the server runs on chain `chain_id`, or why it does not start.
pub open spec fn start_plan_spec(
    has_sequencer_keypair: bool,
    has_proposer_keypair: bool,
    chain_id: ChainID,
    genesis_sequencer: Seq<char>,
    sequencer: Seq<char>,
    service_active: bool,
    has_bitcoin_relayer: bool,
    has_ethereum_relayer: bool,
    traffic_burst_size: Option<u32>,
) -> Result<StartPlan, StartError> {
    let is_local = chain_id.spec_id() == builtin_id_value(BuiltinChainID::Local);
    if !has_sequencer_keypair || !has_proposer_keypair {
        Err(StartError::InvalidSequencerOrProposerOrRelayerKeyPair)
    } else if !is_local && genesis_sequencer != sequencer {
        Err(StartError::SequencerMismatch)
    } else {
        Ok(
            StartPlan {
                mock_genesis_account: is_local,
                connect_bitcoin_client: service_active && has_bitcoin_relayer,
                process_sequenced_on_startup: service_active,
                start_relayer: service_active && (has_ethereum_relayer || has_bitcoin_relayer),
                traffic_burst_size: match traffic_burst_size {
                    Some(b) => b,
                    None => default_burst_size(is_local),
                },
            },
        )
    }
}

/// Decides how the server starts from its options: the key pairs it was
/// given, the chain, the genesis's sequencer and the sequencer's own
/// address (as Bitcoin address texts), whether the service is active, which
/// relayers are configured and the configured burst allowance.
pub fn plan_server_start(
    has_sequencer_keypair: bool,
    has_proposer_keypair: bool,
    chain_id: ChainID,
    genesis_sequencer: &String,
    sequencer: &String,
    service_active: bool,
    has_bitcoin_relayer: bool,
    has_ethereum_relayer: bool,
    traffic_burst_size: Option<u32>,
) -> (r: Result<StartPlan, StartError>)
    ensures
        r == start_plan_spec(
            has_sequencer_keypair,
            has_proposer_keypair,
            chain_id,
            genesis_sequencer@,
            sequencer@,
            service_active,
            has_bitcoin_relayer,
            has_ethereum_relayer,
            traffic_burst_size,
        ),
{
    if !has_sequencer_keypair || !has_proposer_keypair {
        return Err(StartError::InvalidSequencerOrProposerOrRelayerKeyPair);
    }
    let is_local = chain_id.id() == BuiltinChainID::Local.chain_id().id();
    if !is_local && !(*genesis_sequencer == *sequencer) {
        return Err(StartError::SequencerMismatch);
    }
    let burst = match traffic_burst_size {
        Some(b) => b,
        None => if is_local {
            5000u32
        } else {
            200u32
        },
    };
    Ok(
        StartPlan {
            mock_genesis_account: is_local,
            connect_bitcoin_client: service_active && has_bitcoin_relayer,
            process_sequenced_on_startup: service_active,
            start_relayer: service_active && (has_ethereum_relayer || has_bitcoin_relayer),
            traffic_burst_size: burst,
        },
    )
}

/// What the start-up plan promises, over all options: the server starts
/// exactly when both key pairs are given and, off the local chain, the
/// genesis names this sequencer; a configured burst allowance is used as
/// it is on every chain, and only when none is configured does the local
/// chain get 5000 and any other chain 200; the genesis account is mocked
/// only on the local chain; a Bitcoin client, the start-up processing and
/// the relayer run only on an active service, the client only with a
/// Bitcoin relayer and the relayer only with some relayer configured.
pub proof fn lemma_start_plan_follows_options(
    has_sequencer_keypair: bool,
    has_proposer_keypair: bool,
    chain_id: ChainID,
    genesis_sequencer: Seq<char>,
    sequencer: Seq<char>,
    service_active: bool,
    has_bitcoin_relayer: bool,
    has_ethereum_relayer: bool,
    traffic_burst_size: Option<u32>,
)
    ensures
        ({
            let r = start_plan_spec(
                has_sequencer_keypair,
                has_proposer_keypair,
                chain_id,
                genesis_sequencer,
                sequencer,
                service_active,
                has_bitcoin_relayer,
                has_ethereum_relayer,
                traffic_burst_size,
            );
            let is_local = chain_id.spec_id() == 4;
            &&& r is Ok <==> (has_sequencer_keypair && has_proposer_keypair && (is_local || genesis_sequencer
                == sequencer))
            &&& (!has_sequencer_keypair || !has_proposer_keypair) ==> r == Err::<StartPlan, StartError>(
                StartError::InvalidSequencerOrProposerOrRelayerKeyPair,
            )
            &&& r matches Ok(p) ==> {
                &&& (traffic_burst_size matches Some(b) ==> p.traffic_burst_size == b)
                &&& (traffic_burst_size is None && is_local ==> p.traffic_burst_size == 5000)
                &&& (traffic_burst_size is None && !is_local ==> p.traffic_burst_size == 200)
                &&& p.mock_genesis_account == is_local
                &&& p.connect_bitcoin_client == (service_active && has_bitcoin_relayer)
                &&& p.process_sequenced_on_startup == service_active
                &&& p.start_relayer == (service_active && (has_bitcoin_relayer || has_ethereum_relayer))
            }
        }),
{
}

/// Which transports the server offers.
#[derive(Debug, Clone, Copy, PartialEq, Eq, Structural)]
pub enum ServiceType {
    Both,
    Http,
    WebSocket,
}

/// The HTTP method a route answers.
#[derive(Debug, Clone, Copy, PartialEq, Eq, Structural)]
pub enum RouteMethod {
    Get,
    Post,
}

/// What answers a route.
#[derive(Debug, Clone, Copy, PartialEq, Eq, Structural)]
pub enum RouteHandler {
    /// JSON-RPC requests over HTTP.
    JsonRpc,
    /// The upgrade to a JSON-RPC WebSocket.
    WebSocketUpgrade,
    /// The stream of events as server-sent events.
    EventStream,
    /// The stream of transactions as server-sent events.
    TransactionStream,
}

/// A route of the server: its path, method and handler.
#[derive(Debug, Clone, Copy, PartialEq, Eq)]
pub struct Route {
    pub path: &'static str,
    pub method: RouteMethod,
    pub handler: RouteHandler,
}

/// The view of a route.
pub open spec fn route_view(r: Route) -> (Seq<char>, RouteMethod, RouteHandler) {
    (r.path@, r.method, r.handler)
}

/// The routes of a kind of service, in the order they are registered: HTTP
/// serves JSON-RPC by POST and the two event streams; WebSocket serves the
/// upgrade at the root and at `/subscribe`; both serve all of these.
pub open spec fn routes_spec(t: ServiceType) -> Seq<(Seq<char>, RouteMethod, RouteHandler)> {
    let rpc = ("/"@, RouteMethod::Post, RouteHandler::JsonRpc);
    let ws_root = ("/"@, RouteMethod::Get, RouteHandler::WebSocketUpgrade);
    let ws_sub = ("/subscribe"@, RouteMethod::Get, RouteHandler::WebSocketUpgrade);
    let events = ("/subscribe/sse/events"@, RouteMethod::Get, RouteHandler::EventStream);
    let txs = ("/subscribe/sse/transactions"@, RouteMethod::Get, RouteHandler::TransactionStream);
    match t {
        ServiceType::Both => seq![rpc, ws_root, ws_sub, events, txs],
        ServiceType::Http => seq![rpc, events, txs],
        ServiceType::WebSocket => seq![ws_root, ws_sub],
    }
}

/// The routes the server registers for a kind of service.
pub fn service_routes(t: ServiceType) -> (r: Vec<Route>)
    ensures
        r@.map_values(|x: Route| route_view(x)) == routes_spec(t),
{
    let rpc = Route { path: "/", method: RouteMethod::Post, handler: RouteHandler::JsonRpc };
    let ws_root = Route { path: "/", method: RouteMethod::Get, handler: RouteHandler::WebSocketUpgrade };
    let ws_sub = Route { path: "/subscribe", method: RouteMethod::Get, handler: RouteHandler::WebSocketUpgrade };
    let events = Route {
        path: "/subscribe/sse/events",
        method: RouteMethod::Get,
        handler: RouteHandler::EventStream,
    };
    let txs = Route {
        path: "/subscribe/sse/transactions",
        method: RouteMethod::Get,
        handler: RouteHandler::TransactionStream,
    };
    let r = match t {
        ServiceType::Both => vec![rpc, ws_root, ws_sub, events, txs],
        ServiceType::Http => vec![rpc, events, txs],
        ServiceType::WebSocket => vec![ws_root, ws_sub],
    };
    proof {
        assert(r@.map_values(|x: Route| route_view(x)) =~= routes_spec(t));
    }
    r
}

} // verus!
