//! Attribute-based access control for protected health records: policies,
//! subject attributes, a single-policy evaluator and a deny-overrides
//! aggregator, each proved against its contract.
pub mod evaluation;
pub mod laws;
pub mod pallet;
pub mod roles;
pub mod table;
pub mod types;
pub mod weights;

pub use evaluation::{evaluate, evaluate_condition};
pub use pallet::{Config, Event, Pallet};
pub use roles::{Permission, Role};
pub use types::{
    AccessPolicy, AccountId, AttributeKey, AttributeType, AttributeValue, BlockNumber,
    ConditionOperator, Error, EvaluationResult, PolicyCondition, PolicyEffect, PolicyId,
    PolicyMode, RecordId, UserAttribute,
};
pub use weights::{SubstrateWeight, Weight, WeightInfo};
