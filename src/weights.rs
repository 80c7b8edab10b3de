//! Execution cost of each operation, charged before it runs.
use vstd::prelude::*;

verus! {

/// Computation time and proof size of an operation.
#[derive(Clone, Copy, PartialEq, Eq, Structural, Debug)]
pub struct Weight {
    pub ref_time: u64,
    pub proof_size: u64,
}

impl Weight {
    pub fn from_parts(ref_time: u64, proof_size: u64) -> (r: Weight)
        ensures
            r.ref_time == ref_time,
            r.proof_size == proof_size,
    {
        Weight { ref_time, proof_size }
    }
}

/// The cost of each operation.
pub trait WeightInfo {
    fn create_policy() -> Weight;

    fn update_policy() -> Weight;

    fn delete_policy() -> Weight;

    fn assign_attribute() -> Weight;

    fn revoke_attribute() -> Weight;

    fn evaluate_policy() -> Weight;

    fn attach_policy_to_record() -> Weight;

    fn detach_policy_from_record() -> Weight;
}

/// Default costs, before benchmarking.
pub struct SubstrateWeight;

impl WeightInfo for SubstrateWeight {
    fn create_policy() -> Weight {
        Weight::from_parts(70_000_000, 0)
    }

    fn update_policy() -> Weight {
        Weight::from_parts(60_000_000, 0)
    }

    fn delete_policy() -> Weight {
        Weight::from_parts(50_000_000, 0)
    }

    fn assign_attribute() -> Weight {
        Weight::from_parts(45_000_000, 0)
    }

    fn revoke_attribute() -> Weight {
        Weight::from_parts(40_000_000, 0)
    }

    fn evaluate_policy() -> Weight {
        Weight::from_parts(55_000_000, 0)
    }

    fn attach_policy_to_record() -> Weight {
        Weight::from_parts(50_000_000, 0)
    }

    fn detach_policy_from_record() -> Weight {
        Weight::from_parts(45_000_000, 0)
    }
}

} // verus!
