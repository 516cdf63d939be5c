//! Counters that describe what the application of a chunk did.

use vstd::prelude::*;
use crate::primitives::Gas;

verus! {

/// How many receipts there were, and their total size and gas.
#[derive(Debug, Clone, Copy, PartialEq, Eq)]
pub struct ReceiptsStats {
    pub num: u64,
    pub total_size: u64,
    pub total_gas: u128,
}

impl Default for ReceiptsStats {
    fn default() -> (stats: ReceiptsStats)
        ensures
            stats == (ReceiptsStats { num: 0, total_size: 0, total_gas: 0 }),
    {
        ReceiptsStats { num: 0, total_size: 0, total_gas: 0 }
    }
}

impl ReceiptsStats {
    /// Whether one more receipt of this size and gas can be counted.
    pub open spec fn has_room_for(&self, size: u64, gas: Gas) -> bool {
        &&& self.num < u64::MAX
        &&& self.total_size + size <= u64::MAX
        &&& self.total_gas + gas <= u128::MAX
    }

    /// Counts one more receipt.
    pub fn add_receipt(&mut self, size: u64, gas: Gas)
        requires
            old(self).has_room_for(size, gas),
        ensures
            final(self).num == old(self).num + 1,
            final(self).total_size == old(self).total_size + size,
            final(self).total_gas == old(self).total_gas + gas,
    {
        self.num += 1;
        self.total_size += size;
        let gas_u128: u128 = gas as u128;
        self.total_gas += gas_u128;
    }
}

} // verus!
