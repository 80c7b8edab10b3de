//! Data model of the access-control engine: policies, their conditions,
//! attribute assignments, and the outcomes of evaluating a policy.
use vstd::prelude::*;

verus! {

/// Fixed-width policy identifier.
pub type PolicyId = [u8; 32];

/// Fixed-width identifier of a protected resource (a health record).
pub type RecordId = [u8; 32];

/// Identity of a subject, a policy creator or a resource owner.
pub type AccountId = u64;

/// The logical clock shared by every expiration check.
pub type BlockNumber = u32;

/// Name of an attribute ("role", "org", ...).
pub type AttributeKey = Vec<u8>;

/// Opaque attribute value, compared byte by byte.
pub type AttributeValue = Vec<u8>;

/// Most conditions one policy may hold.
pub const MAX_CONDITIONS_PER_POLICY: u32 = 5;

/// Kind of an attribute assignment; informative only, never read by evaluation.
#[derive(Clone, PartialEq, Eq, Debug)]
pub enum AttributeType {
    /// Role-based attribute (e.g. "role" = "doctor")
    Role,
    /// Organization-based attribute
    Organization,
    /// Department-based attribute
    Department,
    /// Clearance level
    ClearanceLevel,
    /// Geographic location
    Location,
    /// Time-based attribute
    Time,
    /// Custom attribute with its own tag
    Custom(Vec<u8>),
}

/// Comparison a condition applies between an attribute value and its expected value.
#[derive(Clone, Copy, PartialEq, Eq, Structural, Debug)]
pub enum ConditionOperator {
    Equals,
    NotEquals,
    /// Some byte of the attribute value occurs in the expected value.
    Contains,
    /// Lexicographic byte order.
    GreaterThan,
    /// Lexicographic byte order.
    LessThan,
    /// Exact equality (a range syntax is not interpreted).
    InRange,
}

/// A single predicate over one attribute of the subject.
#[derive(Clone, Debug)]
pub struct PolicyCondition {
    pub attribute_key: AttributeKey,
    pub operator: ConditionOperator,
    pub value: AttributeValue,
}

/// What a satisfied policy decides.
#[derive(Clone, Copy, PartialEq, Eq, Structural, Debug)]
pub enum PolicyEffect {
    Allow,
    Deny,
}

/// How the conditions of a policy combine.
#[derive(Clone, Copy, PartialEq, Eq, Structural, Debug)]
pub enum PolicyMode {
    /// Every condition holds.
    AllOf,
    /// At least one condition holds.
    AnyOf,
    /// Exactly one condition holds.
    OneOf,
}

/// An access policy.
#[derive(Debug)]
pub struct AccessPolicy {
    pub policy_id: PolicyId,
    pub name: Vec<u8>,
    pub creator: AccountId,
    pub effect: PolicyEffect,
    pub mode: PolicyMode,
    /// Evaluated in order.
    pub conditions: Vec<PolicyCondition>,
    pub created_at: BlockNumber,
    /// `None`: never expires.
    pub expires_at: Option<BlockNumber>,
    pub is_active: bool,
}

/// An attribute assigned to a subject.
#[derive(Debug)]
pub struct UserAttribute {
    pub key: AttributeKey,
    pub value: AttributeValue,
    pub attribute_type: AttributeType,
    pub assigned_by: AccountId,
    pub assigned_at: BlockNumber,
    /// `None`: never expires.
    pub expires_at: Option<BlockNumber>,
}

/// Outcome of evaluating one policy.
#[derive(Clone, Copy, PartialEq, Eq, Structural, Debug)]
pub enum EvaluationResult {
    Allow,
    Deny,
    NotApplicable,
    Error,
}

/// Why an operation was rejected.
#[derive(Clone, Copy, PartialEq, Eq, Structural, Debug)]
pub enum Error {
    PolicyNotFound,
    PolicyAlreadyExists,
    AttributeNotFound,
    TooManyAttributes,
    TooManyPolicies,
    TooManyConditions,
    /// An effect, mode or operator code that names no variant.
    InvalidPolicy,
    PolicyExpired,
    AttributeExpired,
    NotAuthorized,
    RecordNotFound,
    PolicyNotAttached,
}

/// Whether an optional expiration lies strictly before `now`.
pub open spec fn is_expired(expires_at: Option<BlockNumber>, now: BlockNumber) -> bool {
    match expires_at {
        Some(e) => now > e,
        None => false,
    }
}

/// Expiration of something created at `now` with an optional time to live;
/// a lifetime past the end of the clock saturates at its last value.
pub open spec fn expiry_after(now: BlockNumber, duration: Option<BlockNumber>) -> Option<BlockNumber> {
    match duration {
        Some(d) => Some(
            if now + d > u32::MAX {
                u32::MAX
            } else {
                (now + d) as u32
            },
        ),
        None => None,
    }
}

/// Expiration of something created at `now` with an optional time to live.
pub fn expiry_from(now: BlockNumber, duration: Option<BlockNumber>) -> (r: Option<BlockNumber>)
    ensures
        r == expiry_after(now, duration),
{
    match duration {
        Some(d) => Some(now.saturating_add(d)),
        None => None,
    }
}

/// The attribute type with code `value`; an unknown code gives `Role`.
pub open spec fn attribute_type_of(value: u8) -> AttributeType {
    if value == 1 {
        AttributeType::Organization
    } else if value == 2 {
        AttributeType::Department
    } else if value == 3 {
        AttributeType::ClearanceLevel
    } else if value == 4 {
        AttributeType::Location
    } else if value == 5 {
        AttributeType::Time
    } else {
        AttributeType::Role
    }
}

/// Lenient decoding: an unknown code gives `Role`.
impl From<u8> for AttributeType {
    fn from(value: u8) -> (r: AttributeType) {
        match value {
            1 => AttributeType::Organization,
            2 => AttributeType::Department,
            3 => AttributeType::ClearanceLevel,
            4 => AttributeType::Location,
            5 => AttributeType::Time,
            _ => AttributeType::Role,
        }
    }
}

impl vstd::std_specs::convert::FromSpecImpl<u8> for AttributeType {
    open spec fn obeys_from_spec() -> bool {
        true
    }

    open spec fn from_spec(v: u8) -> AttributeType {
        attribute_type_of(v)
    }
}

/// The operator with code `value`, if any.
pub open spec fn operator_code(value: u8) -> Option<ConditionOperator> {
    if value == 0 {
        Some(ConditionOperator::Equals)
    } else if value == 1 {
        Some(ConditionOperator::NotEquals)
    } else if value == 2 {
        Some(ConditionOperator::Contains)
    } else if value == 3 {
        Some(ConditionOperator::GreaterThan)
    } else if value == 4 {
        Some(ConditionOperator::LessThan)
    } else if value == 5 {
        Some(ConditionOperator::InRange)
    } else {
        None
    }
}

impl ConditionOperator {
    /// Strict decoding: `None` for a code that names no operator.
    pub fn decode(value: u8) -> (r: Option<ConditionOperator>)
        ensures
            r == operator_code(value),
    {
        match value {
            0 => Some(ConditionOperator::Equals),
            1 => Some(ConditionOperator::NotEquals),
            2 => Some(ConditionOperator::Contains),
            3 => Some(ConditionOperator::GreaterThan),
            4 => Some(ConditionOperator::LessThan),
            5 => Some(ConditionOperator::InRange),
            _ => None,
        }
    }
}

/// Lenient decoding: an unknown code gives `Equals`.
impl From<u8> for ConditionOperator {
    fn from(value: u8) -> (r: ConditionOperator) {
        match ConditionOperator::decode(value) {
            Some(op) => op,
            None => ConditionOperator::Equals,
        }
    }
}

impl vstd::std_specs::convert::FromSpecImpl<u8> for ConditionOperator {
    open spec fn obeys_from_spec() -> bool {
        true
    }

    open spec fn from_spec(v: u8) -> ConditionOperator {
        match operator_code(v) {
            Some(op) => op,
            None => ConditionOperator::Equals,
        }
    }
}

/// The effect with code `value`, if any.
pub open spec fn effect_code(value: u8) -> Option<PolicyEffect> {
    if value == 0 {
        Some(PolicyEffect::Allow)
    } else if value == 1 {
        Some(PolicyEffect::Deny)
    } else {
        None
    }
}

impl PolicyEffect {
    /// Strict decoding: `None` for a code that names no effect.
    pub fn decode(value: u8) -> (r: Option<PolicyEffect>)
        ensures
            r == effect_code(value),
    {
        match value {
            0 => Some(PolicyEffect::Allow),
            1 => Some(PolicyEffect::Deny),
            _ => None,
        }
    }
}

/// Lenient decoding: an unknown code gives `Allow`.
impl From<u8> for PolicyEffect {
    fn from(value: u8) -> (r: PolicyEffect) {
        match PolicyEffect::decode(value) {
            Some(e) => e,
            None => PolicyEffect::Allow,
        }
    }
}

impl vstd::std_specs::convert::FromSpecImpl<u8> for PolicyEffect {
    open spec fn obeys_from_spec() -> bool {
        true
    }

    open spec fn from_spec(v: u8) -> PolicyEffect {
        match effect_code(v) {
            Some(e) => e,
            None => PolicyEffect::Allow,
        }
    }
}

/// The mode with code `value`, if any.
pub open spec fn mode_code(value: u8) -> Option<PolicyMode> {
    if value == 0 {
        Some(PolicyMode::AllOf)
    } else if value == 1 {
        Some(PolicyMode::AnyOf)
    } else if value == 2 {
        Some(PolicyMode::OneOf)
    } else {
        None
    }
}

impl PolicyMode {
    /// Strict decoding: `None` for a code that names no mode.
    pub fn decode(value: u8) -> (r: Option<PolicyMode>)
        ensures
            r == mode_code(value),
    {
        match value {
            0 => Some(PolicyMode::AllOf),
            1 => Some(PolicyMode::AnyOf),
            2 => Some(PolicyMode::OneOf),
            _ => None,
        }
    }
}

/// Lenient decoding: an unknown code gives `AllOf`.
impl From<u8> for PolicyMode {
    fn from(value: u8) -> (r: PolicyMode) {
        match PolicyMode::decode(value) {
            Some(m) => m,
            None => PolicyMode::AllOf,
        }
    }
}

impl vstd::std_specs::convert::FromSpecImpl<u8> for PolicyMode {
    open spec fn obeys_from_spec() -> bool {
        true
    }

    open spec fn from_spec(v: u8) -> PolicyMode {
        match mode_code(v) {
            Some(m) => m,
            None => PolicyMode::AllOf,
        }
    }
}

/// The code under which an outcome is reported.
pub open spec fn result_code(r: EvaluationResult) -> u8 {
    match r {
        EvaluationResult::Allow => 0,
        EvaluationResult::Deny => 1,
        EvaluationResult::NotApplicable => 2,
        EvaluationResult::Error => 3,
    }
}

/// The outcome with code `value`; an unknown code gives `Deny`.
pub open spec fn result_of_code(value: u8) -> EvaluationResult {
    if value == 0 {
        EvaluationResult::Allow
    } else if value == 2 {
        EvaluationResult::NotApplicable
    } else if value == 3 {
        EvaluationResult::Error
    } else {
        EvaluationResult::Deny
    }
}

impl EvaluationResult {
    pub fn code(&self) -> (r: u8)
        ensures
            r == result_code(*self),
    {
        match self {
            EvaluationResult::Allow => 0,
            EvaluationResult::Deny => 1,
            EvaluationResult::NotApplicable => 2,
            EvaluationResult::Error => 3,
        }
    }
}

/// Lenient decoding: an unknown code gives `Deny`.
impl From<u8> for EvaluationResult {
    fn from(value: u8) -> (r: EvaluationResult) {
        match value {
            0 => EvaluationResult::Allow,
            2 => EvaluationResult::NotApplicable,
            3 => EvaluationResult::Error,
            _ => EvaluationResult::Deny,
        }
    }
}

impl vstd::std_specs::convert::FromSpecImpl<u8> for EvaluationResult {
    open spec fn obeys_from_spec() -> bool {
        true
    }

    open spec fn from_spec(v: u8) -> EvaluationResult {
        result_of_code(v)
    }
}

} // verus!
