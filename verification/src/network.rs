//! Messages between nodes, and how a node answers them.

use vstd::prelude::*;
use crate::block::Block;
use crate::blockchain::{Blockchain, BlockchainView};
use crate::transaction::{tx_valid, Transaction};
use crate::ledger::balance_in;

verus! {

/// A message between nodes.
pub enum NetworkMessage {
    Handshake { node_id: String, version: String, blockchain_height: u64 },
    HandshakeResponse { node_id: String, accepted: bool },
    NewTransaction(Transaction),
    NewBlock(Block),
    SyncRequest { from_height: u64 },
    SyncResponse { blocks: Vec<Block> },
    GetPeers,
    PeersResponse { peers: Vec<String> },
    Ping,
    Pong,
}

/// A known node: its id, network address, when it was last heard from, and
/// the height of its chain.
pub struct Peer {
    pub id: String,
    pub address: String,
    pub last_seen: i64,
    pub blockchain_height: u64,
}

/// What handling a message leads to: a reply to send back, a peer to record,
/// and the outcome of adding a received transaction.
pub struct MessageOutcome {
    pub reply: Option<NetworkMessage>,
    pub new_peer: Option<Peer>,
    pub transaction_result: Option<Result<(), String>>,
}

/// A node may start listening unless it is already running.
pub fn begin_listening(is_running: bool) -> (r: Result<(), String>)
    ensures
        r is Ok <==> !is_running,
        r matches Err(e) ==> e@ == "network در حال حاضر active است"@,
{
    if is_running {
        Err("network در حال حاضر active است".to_string())
    } else {
        Ok(())
    }
}

/// The handshake a node sends when it connects: its id, protocol version
/// `1.0`, and the height of its chain.
pub fn handshake_message(node_id: &str, blockchain_height: u64) -> (m: NetworkMessage)
    ensures
        m matches NetworkMessage::Handshake { node_id: id, version, blockchain_height: h }
            && id@ == node_id@ && version@ == "1.0"@ && h == blockchain_height,
{
    NetworkMessage::Handshake {
        node_id: node_id.to_owned(),
        version: "1.0".to_string(),
        blockchain_height,
    }
}

/// Handles a message received from `from_address` at time `now`:
/// a handshake records the peer and is accepted; a new transaction goes to the
/// pending pool if the chain accepts it; a ping is answered with a pong; a
/// request for peers with the known peers' addresses. Other messages change
/// nothing.
pub fn handle_message(
    message: NetworkMessage,
    from_address: &str,
    now: i64,
    node_id: &str,
    peer_addresses: &Vec<String>,
    blockchain: &mut Blockchain,
) -> (r: MessageOutcome)
    ensures
        match message {
            NetworkMessage::Handshake { node_id: peer_id, blockchain_height, .. } => {
                &&& r.new_peer matches Some(p) && p.id@ == peer_id@ && p.address@ == from_address@
                    && p.last_seen == now && p.blockchain_height == blockchain_height
                &&& r.reply matches Some(NetworkMessage::HandshakeResponse { node_id: id, accepted })
                    && id@ == node_id@ && accepted
                &&& r.transaction_result is None
                &&& final(blockchain)@ == old(blockchain)@
            },
            NetworkMessage::NewTransaction(t) => {
                &&& r.reply is None && r.new_peer is None
                &&& r.transaction_result matches Some(res) && (res is Ok <==> (t@.from_address.len() > 0
                    && tx_valid(t@) && balance_in(old(blockchain)@.balances, t@.from_address) >= t@.amount + t@.fee))
                &&& res_is_ok(r.transaction_result) ==> final(blockchain)@ == (BlockchainView {
                    pending: old(blockchain)@.pending.push(t@),
                    ..old(blockchain)@
                })
                &&& !res_is_ok(r.transaction_result) ==> final(blockchain)@ == old(blockchain)@
            },
            NetworkMessage::Ping => {
                &&& r.reply matches Some(NetworkMessage::Pong)
                &&& r.new_peer is None && r.transaction_result is None
                &&& final(blockchain)@ == old(blockchain)@
            },
            NetworkMessage::GetPeers => {
                &&& r.reply matches Some(NetworkMessage::PeersResponse { peers }) && peers@.map_values(
                    |s: String| s@,
                ) == peer_addresses@.map_values(|s: String| s@)
                &&& r.new_peer is None && r.transaction_result is None
                &&& final(blockchain)@ == old(blockchain)@
            },
            _ => {
                &&& r.reply is None && r.new_peer is None && r.transaction_result is None
                &&& final(blockchain)@ == old(blockchain)@
            },
        },
{
    match message {
        NetworkMessage::Handshake { node_id: peer_id, version: _, blockchain_height } => {
            let peer = Peer { id: peer_id, address: from_address.to_owned(), last_seen: now, blockchain_height };
            let response = NetworkMessage::HandshakeResponse { node_id: node_id.to_owned(), accepted: true };
            MessageOutcome { reply: Some(response), new_peer: Some(peer), transaction_result: None }
        },
        NetworkMessage::NewTransaction(transaction) => {
            let result = blockchain.add_transaction(transaction);
            MessageOutcome { reply: None, new_peer: None, transaction_result: Some(result) }
        },
        NetworkMessage::Ping => MessageOutcome {
            reply: Some(NetworkMessage::Pong),
            new_peer: None,
            transaction_result: None,
        },
        NetworkMessage::GetPeers => {
            let peers = peer_addresses.clone();
            proof {
                assert(peers@.map_values(|s: String| s@) =~= peer_addresses@.map_values(|s: String| s@));
            }
            MessageOutcome {
                reply: Some(NetworkMessage::PeersResponse { peers }),
                new_peer: None,
                transaction_result: None,
            }
        },
        _ => MessageOutcome { reply: None, new_peer: None, transaction_result: None },
    }
}

pub open spec fn res_is_ok(r: Option<Result<(), String>>) -> bool {
    r matches Some(Ok(()))
}

} // verus!
