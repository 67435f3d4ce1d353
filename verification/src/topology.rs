//! The shape of a topology file: a list of upstream producers.  Only the
//! address and port of each producer are consumed; the rest is carried
//! so a permissive reader can fill it.  Reading the JSON itself happens
//! outside the library, which is handed these plain values.

use vstd::prelude::*;

verus! {

/// One upstream relay named by a topology file.
pub struct TopologyProducer {
    pub address: String,
    pub port: u32,
    pub valency: Option<u32>,
    pub distance: Option<u32>,
    pub continent: Option<String>,
    pub country: Option<String>,
    pub region: Option<String>,
}

/// A topology file: metadata and the producers to sync from.
pub struct Topology {
    pub result_code: String,
    pub network_magic: String,
    pub ip_type: u8,
    pub requested_ip_version: String,
    pub producers: Vec<TopologyProducer>,
}

impl Topology {
    /// How many producers the file names.
    pub fn producer_count(&self) -> (r: usize)
        ensures
            r == self.producers@.len(),
    {
        self.producers.len()
    }
}

} // verus!
