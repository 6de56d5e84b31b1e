//! The decisions of the peer protocol: what an incoming message asks for,
//! and what to do with a chain received from a peer. The sockets and files
//! themselves are handled by the node program.

use vstd::prelude::*;

use crate::blockchain::Blockchain;
use crate::text::str_eq;

verus! {

/// A character of the Unicode `White_Space` property.
pub open spec fn is_white_space(c: char) -> bool {
    let u = c as u32;
    ||| 0x09 <= u <= 0x0D
    ||| u == 0x20
    ||| u == 0x85
    ||| u == 0xA0
    ||| u == 0x1680
    ||| 0x2000 <= u <= 0x200A
    ||| u == 0x2028
    ||| u == 0x2029
    ||| u == 0x202F
    ||| u == 0x205F
    ||| u == 0x3000
}

/// `s` without its leading whitespace.
pub open spec fn trim_start(s: Seq<char>) -> Seq<char>
    decreases s.len(),
{
    if s.len() > 0 && is_white_space(s[0]) {
        trim_start(s.drop_first())
    } else {
        s
    }
}

/// `s` without its trailing whitespace.
pub open spec fn trim_end(s: Seq<char>) -> Seq<char>
    decreases s.len(),
{
    if s.len() > 0 && is_white_space(s.last()) {
        trim_end(s.drop_last())
    } else {
        s
    }
}

/// `s` without leading and trailing whitespace.
pub open spec fn trimmed(s: Seq<char>) -> Seq<char> {
    trim_end(trim_start(s))
}

/// `s` without leading and trailing whitespace.
///
/// Trusted: calls `str::trim`, which the standard library documents as
/// removing leading and trailing whitespace as defined by the Unicode
/// `White_Space` property (the characters `is_white_space` lists).
#[verifier::external_body]
fn trim(s: &str) -> (r: &str)
    ensures
        r@ == trimmed(s@),
{
    s.trim()
}

/// `s` after `prefix`, where `s` starts with it.
///
/// Trusted: calls `str::strip_prefix`, which the standard library documents
/// as returning the rest of the string after the prefix, in `Some`, where
/// the string starts with it, and `None` otherwise.
#[verifier::external_body]
fn strip_prefix<'a>(s: &'a str, prefix: &str) -> (r: Option<&'a str>)
    ensures
        r is Some <==> prefix@.is_prefix_of(s@),
        r matches Some(rest) ==> rest@ == s@.skip(prefix@.len() as int),
{
    s.strip_prefix(prefix)
}

/// A peer node's address and the file holding this node's chain.
pub struct Network {
    pub address: String,
    pub blockchain_file: String,
}

/// What a message from a connected peer asks for.
pub enum PeerRequest {
    /// Send this node's chain.
    GetBlockchain,
    /// Admit the transfer encoded in the JSON text that follows the header.
    Transaction(String),
    /// Answer the connectivity test.
    P2pTest,
    /// Anything else.
    Unknown,
}

/// What to do with a chain received from a peer.
pub enum SyncPlan {
    /// The peer's chain is invalid: keep what we have.
    RejectPeer,
    /// There is no local chain: store the peer's.
    AdoptPeer,
    /// Load the local chain and replace it if the peer's is longer.
    CompareWithLocal,
}

impl Network {
    /// A node at `address` keeping its chain in `blockchain_file`.
    pub fn new(address: &str, blockchain_file: &str) -> (r: Network)
        ensures
            r.address@ == address@,
            r.blockchain_file@ == blockchain_file@,
    {
        Network { address: address.to_owned(), blockchain_file: blockchain_file.to_owned() }
    }

    /// Classifies a peer's message: a request for the chain (the trimmed
    /// text is `GET_BLOCKCHAIN`), a transfer (the text starts with the
    /// `TRANSACTION` header line), the connectivity test (trimmed text
    /// `APRAXUS_P2P_TEST`), or something unknown; checked in that order.
    pub fn classify_request(message: &str) -> (r: PeerRequest)
        ensures
            ({
                let get = trimmed(message@) == "GET_BLOCKCHAIN"@;
                let tx = "TRANSACTION\n"@.is_prefix_of(message@);
                let test = trimmed(message@) == "APRAXUS_P2P_TEST"@;
                match r {
                    PeerRequest::GetBlockchain => get,
                    PeerRequest::Transaction(json) => !get && tx && json@ == message@.skip(
                        "TRANSACTION\n"@.len() as int,
                    ),
                    PeerRequest::P2pTest => !get && !tx && test,
                    PeerRequest::Unknown => !get && !tx && !test,
                }
            }),
    {
        let t = trim(message);
        if str_eq(t, "GET_BLOCKCHAIN") {
            return PeerRequest::GetBlockchain;
        }
        match strip_prefix(message, "TRANSACTION\n") {
            Some(json) => {
                return PeerRequest::Transaction(json.to_owned());
            },
            None => {},
        }
        if str_eq(t, "APRAXUS_P2P_TEST") {
            return PeerRequest::P2pTest;
        }
        PeerRequest::Unknown
    }

    /// What to do with a peer's chain: refuse it when it is invalid, adopt it
    /// when there is no local chain, and otherwise compare it with the local
    /// one.
    pub fn plan_sync(peer: &Blockchain, local_exists: bool) -> (r: SyncPlan)
        ensures
            r == (if !peer.chain_valid() {
                SyncPlan::RejectPeer
            } else if !local_exists {
                SyncPlan::AdoptPeer
            } else {
                SyncPlan::CompareWithLocal
            }),
    {
        if !peer.is_chain_valid() {
            return SyncPlan::RejectPeer;
        }
        if !local_exists {
            return SyncPlan::AdoptPeer;
        }
        SyncPlan::CompareWithLocal
    }
}

} // verus!
