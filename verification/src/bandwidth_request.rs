//! The bandwidth that a shard asks for towards other shards, as it is
//! published in a chunk header.

use vstd::prelude::*;

verus! {

/// Which of the predefined bandwidth values a request names, one bit per
/// value.
#[derive(Debug, Clone, Copy, PartialEq, Eq)]
pub struct BandwidthRequestBitmap {
    pub data: [u8; 5],
}

/// The sizes of receipts that a shard would like to send to one other shard.
#[derive(Debug, Clone, Copy, PartialEq, Eq)]
pub struct BandwidthRequest {
    pub to_shard: u8,
    pub requested_values_bitmap: BandwidthRequestBitmap,
}

/// The requests of one shard, at most one per target shard.
#[derive(Debug, PartialEq, Eq)]
pub struct BandwidthRequestsV1 {
    pub requests: Vec<BandwidthRequest>,
}

impl Default for BandwidthRequestsV1 {
    fn default() -> (requests: BandwidthRequestsV1)
        ensures
            requests.requests@ == Seq::<BandwidthRequest>::empty(),
    {
        BandwidthRequestsV1 { requests: Vec::new() }
    }
}

/// The requests of one shard, by the version of their layout.
#[derive(Debug, PartialEq, Eq)]
pub enum BandwidthRequests {
    V1(BandwidthRequestsV1),
}

impl BandwidthRequests {
    /// The requests, whatever the layout.
    pub open spec fn requests(&self) -> Seq<BandwidthRequest> {
        match self {
            BandwidthRequests::V1(v1) => v1.requests@,
        }
    }
}

impl Default for BandwidthRequests {
    /// No request at all.
    fn default() -> (requests: BandwidthRequests)
        ensures
            requests.requests() == Seq::<BandwidthRequest>::empty(),
    {
        BandwidthRequests::V1(BandwidthRequestsV1 { requests: Vec::new() })
    }
}

} // verus!
