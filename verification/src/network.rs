//! Peer-network identity: which port an agent listens on and whom it talks
//! to. The listening and sending themselves live in the shell around the
//! library.

use vstd::prelude::*;

verus! {

/// A port of our own and the addresses of the peers.
#[derive(Debug)]
pub struct Network {
    pub port: u16,
    pub peers: Vec<String>,
}

impl Network {
    /// A network identity over the given port and peer list.
    pub fn new(port: u16, peers: Vec<String>) -> (n: Network)
        ensures
            n.port == port,
            n.peers@ == peers@,
    {
        Network { port, peers }
    }
}

} // verus!
