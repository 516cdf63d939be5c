//! The bandwidth requests of a shard in their first published form, before
//! a request carried the values it asks for.

use vstd::prelude::*;

verus! {

/// The wish of a shard to send receipts to one other shard.
#[derive(Debug, Clone, Copy, PartialEq, Eq)]
pub struct BandwidthRequest {
    pub to_shard: u8,
}

/// The requests of one shard.
#[derive(Debug, PartialEq, Eq)]
pub struct BandwidthRequestsV1 {
    pub requests: Vec<BandwidthRequest>,
}

impl Default for BandwidthRequestsV1 {
    fn default() -> (requests: BandwidthRequestsV1)
        ensures
            requests.requests@ == Seq::<BandwidthRequest>::empty(),
    {
        BandwidthRequestsV1 { requests: Vec::new() }
    }
}

/// The requests of one shard, by the version of their layout.
#[derive(Debug, PartialEq, Eq)]
pub enum BandwidthRequests {
    V1(BandwidthRequestsV1),
}

} // verus!
