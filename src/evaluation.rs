//! The single-policy evaluator: operators on byte strings, conditions
//! against a subject's attributes, and combination by the policy's mode.
use crate::types::{
    is_expired, AccessPolicy, BlockNumber, ConditionOperator, Error, EvaluationResult,
    PolicyCondition, PolicyEffect, PolicyMode, UserAttribute,
};
use vstd::prelude::*;

verus! {

/// `a` comes strictly before `b` in lexicographic byte order: at the first
/// position where they differ `a` holds the smaller byte, or `a` is a proper
/// prefix of `b`.
pub open spec fn lex_less(a: Seq<u8>, b: Seq<u8>) -> bool {
    exists|i: int| #[trigger] lex_less_at(a, b, i)
}

/// `a` and `b` agree before position `i`, where `a` ends or holds the smaller byte.
pub open spec fn lex_less_at(a: Seq<u8>, b: Seq<u8>, i: int) -> bool {
    &&& 0 <= i <= a.len()
    &&& i < b.len()
    &&& forall|j: int| 0 <= j < i ==> a[j] == b[j]
    &&& i == a.len() || a[i] < b[i]
}

/// Some byte of `a` occurs somewhere in `b`.
pub open spec fn shares_byte(a: Seq<u8>, b: Seq<u8>) -> bool {
    exists|i: int| 0 <= i < a.len() && b.contains(a[i])
}

/// Whether `actual` (the subject's value) meets `expected` under `op`.
pub open spec fn operator_holds(op: ConditionOperator, actual: Seq<u8>, expected: Seq<u8>) -> bool {
    match op {
        ConditionOperator::Equals => actual == expected,
        ConditionOperator::NotEquals => actual != expected,
        ConditionOperator::Contains => shares_byte(actual, expected),
        ConditionOperator::GreaterThan => lex_less(expected, actual),
        ConditionOperator::LessThan => lex_less(actual, expected),
        ConditionOperator::InRange => actual == expected,
    }
}

/// The first attribute of `attrs` named `key`, if any.
pub open spec fn find_attribute(attrs: Seq<UserAttribute>, key: Seq<u8>) -> Option<UserAttribute> {
    if exists|i: int| is_first_with_key(attrs, key, i) {
        Some(attrs[choose|i: int| is_first_with_key(attrs, key, i)])
    } else {
        None
    }
}

pub open spec fn is_first_with_key(attrs: Seq<UserAttribute>, key: Seq<u8>, i: int) -> bool {
    &&& 0 <= i < attrs.len()
    &&& attrs[i].key@ == key
    &&& forall|j: int| 0 <= j < i ==> attrs[j].key@ != key
}

/// Outcome of one condition: an error when the attribute is missing or has
/// expired, else whether the operator holds.
pub open spec fn condition_outcome(c: PolicyCondition, attrs: Seq<UserAttribute>, now: BlockNumber) -> Result<bool, Error> {
    match find_attribute(attrs, c.attribute_key@) {
        None => Err(Error::AttributeNotFound),
        Some(a) => if is_expired(a.expires_at, now) {
            Err(Error::AttributeExpired)
        } else {
            Ok(operator_holds(c.operator, a.value@, c.value@))
        },
    }
}

/// How many of `conds` hold, or the error of the first one that cannot be decided.
pub open spec fn satisfied_count(conds: Seq<PolicyCondition>, attrs: Seq<UserAttribute>, now: BlockNumber) -> Result<nat, Error>
    decreases conds.len(),
{
    if conds.len() == 0 {
        Ok(0)
    } else {
        match satisfied_count(conds.drop_last(), attrs, now) {
            Err(e) => Err(e),
            Ok(n) => match condition_outcome(conds.last(), attrs, now) {
                Err(e) => Err(e),
                Ok(b) => Ok(
                    if b {
                        n + 1
                    } else {
                        n
                    },
                ),
            },
        }
    }
}

/// Whether `satisfied` of `total` conditions meet `mode`.
pub open spec fn mode_met(mode: PolicyMode, satisfied: nat, total: nat) -> bool {
    match mode {
        PolicyMode::AllOf => satisfied == total,
        PolicyMode::AnyOf => satisfied > 0,
        PolicyMode::OneOf => satisfied == 1,
    }
}

pub open spec fn effect_result(effect: PolicyEffect) -> EvaluationResult {
    match effect {
        PolicyEffect::Allow => EvaluationResult::Allow,
        PolicyEffect::Deny => EvaluationResult::Deny,
    }
}

/// Outcome of evaluating `p` for a subject holding `attrs` at time `now`.
pub open spec fn evaluation(p: AccessPolicy, attrs: Seq<UserAttribute>, now: BlockNumber) -> Result<EvaluationResult, Error> {
    if !p.is_active || is_expired(p.expires_at, now) {
        Ok(EvaluationResult::NotApplicable)
    } else {
        match satisfied_count(p.conditions@, attrs, now) {
            Err(e) => Err(e),
            Ok(n) => if mode_met(p.mode, n, p.conditions@.len()) {
                Ok(effect_result(p.effect))
            } else {
                Ok(EvaluationResult::NotApplicable)
            },
        }
    }
}

pub fn same_bytes(a: &[u8], b: &[u8]) -> (r: bool)
    ensures
        r == (a@ == b@),
{
    if a.len() != b.len() {
        return false;
    }
    let mut i: usize = 0;
    while i < a.len()
        invariant
            a@.len() == b@.len(),
            0 <= i <= a.len(),
            forall|j: int| 0 <= j < i ==> a@[j] == b@[j],
        decreases a.len() - i,
    {
        if a[i] != b[i] {
            return false;
        }
        i = i + 1;
    }
    assert(a@ =~= b@);
    true
}

/// Lexicographic `a < b` over bytes.
pub fn bytes_less(a: &[u8], b: &[u8]) -> (r: bool)
    ensures
        r == lex_less(a@, b@),
{
    let mut i: usize = 0;
    while i < a.len() && i < b.len()
        invariant
            0 <= i <= a.len(),
            i <= b.len(),
            forall|j: int| 0 <= j < i ==> a@[j] == b@[j],
        decreases a.len() - i,
    {
        if a[i] != b[i] {
            proof {
                lemma_lex_less_at(a@, b@, i as int);
            }
            return a[i] < b[i];
        }
        i = i + 1;
    }
    proof {
        lemma_lex_less_at(a@, b@, i as int);
    }
    i == a.len() && i < b.len()
}

/// Where two byte strings first differ, or where one of them ends, decides
/// their lexicographic order.
proof fn lemma_lex_less_at(a: Seq<u8>, b: Seq<u8>, i: int)
    requires
        0 <= i <= a.len(),
        i <= b.len(),
        forall|j: int| 0 <= j < i ==> a[j] == b[j],
        i == a.len() || i == b.len() || a[i] != b[i],
    ensures
        lex_less(a, b) == (if i < a.len() && i < b.len() {
            a[i] < b[i]
        } else {
            i == a.len() && i < b.len()
        }),
{
    if i < a.len() && i < b.len() {
        if a[i] < b[i] {
            assert(lex_less_at(a, b, i));
        } else {
            assert forall|k: int| !lex_less_at(a, b, k) by {
                if lex_less_at(a, b, k) && k > i {
                    assert(a[i] == b[i]);
                }
            }
        }
    } else if i == a.len() && i < b.len() {
        assert(lex_less_at(a, b, i));
    } else {
        assert forall|k: int| !lex_less_at(a, b, k) by {
            if lex_less_at(a, b, k) {
                assert(a[k] == b[k]);
            }
        }
    }
}

/// Whether some byte of `a` occurs in `b`.
pub fn any_shared_byte(a: &[u8], b: &[u8]) -> (r: bool)
    ensures
        r == shares_byte(a@, b@),
{
    let mut i: usize = 0;
    while i < a.len()
        invariant
            0 <= i <= a.len(),
            forall|j: int| 0 <= j < i ==> !b@.contains(#[trigger] a@[j]),
        decreases a.len() - i,
    {
        let mut k: usize = 0;
        while k < b.len()
            invariant
                0 <= i < a.len(),
                0 <= k <= b.len(),
                forall|m: int| 0 <= m < k ==> b@[m] != a@[i as int],
            decreases b.len() - k,
        {
            if b[k] == a[i] {
                assert(b@.contains(a@[i as int]));
                return true;
            }
            k = k + 1;
        }
        i = i + 1;
    }
    false
}

/// Applies `op` to the subject's value `actual` and the expected value.
pub fn apply_operator(op: ConditionOperator, actual: &[u8], expected: &[u8]) -> (r: bool)
    ensures
        r == operator_holds(op, actual@, expected@),
{
    match op {
        ConditionOperator::Equals => same_bytes(actual, expected),
        ConditionOperator::NotEquals => !same_bytes(actual, expected),
        ConditionOperator::Contains => any_shared_byte(actual, expected),
        ConditionOperator::GreaterThan => bytes_less(expected, actual),
        ConditionOperator::LessThan => bytes_less(actual, expected),
        ConditionOperator::InRange => same_bytes(actual, expected),
    }
}

/// The first attribute named `key` in `attrs`.
pub fn lookup_attribute<'a>(attrs: &'a [UserAttribute], key: &[u8]) -> (r: Option<&'a UserAttribute>)
    ensures
        match r {
            Some(a) => find_attribute(attrs@, key@) == Some(*a),
            None => find_attribute(attrs@, key@) is None,
        },
{
    let mut i: usize = 0;
    while i < attrs.len()
        invariant
            0 <= i <= attrs.len(),
            forall|j: int| 0 <= j < i ==> attrs@[j].key@ != key@,
        decreases attrs.len() - i,
    {
        if same_bytes(attrs[i].key.as_slice(), key) {
            assert(is_first_with_key(attrs@, key@, i as int));
            let ghost c = choose|c: int| is_first_with_key(attrs@, key@, c);
            assert(c == i) by {
                if c < i {
                    assert(attrs@[c].key@ != key@);
                } else if c > i {
                    assert(attrs@[i as int].key@ != key@);
                }
            }
            return Some(&attrs[i]);
        }
        i = i + 1;
    }
    None
}

/// Decides one condition against the subject's attributes at time `now`.
pub fn evaluate_condition(condition: &PolicyCondition, attributes: &[UserAttribute], now: BlockNumber) -> (r: Result<bool, Error>)
    ensures
        r == condition_outcome(*condition, attributes@, now),
{
    match lookup_attribute(attributes, condition.attribute_key.as_slice()) {
        None => Err(Error::AttributeNotFound),
        Some(attribute) => {
            match attribute.expires_at {
                Some(expires_at) => {
                    if now > expires_at {
                        return Err(Error::AttributeExpired);
                    }
                },
                None => {},
            }
            Ok(apply_operator(condition.operator, attribute.value.as_slice(), condition.value.as_slice()))
        },
    }
}

/// Evaluates `policy` for a subject holding `attributes` at time `now`.
///
/// An inactive or expired policy is not applicable. Otherwise the conditions
/// are decided in order; the first whose attribute is missing or expired
/// aborts the evaluation with that error. The policy's effect applies when
/// the satisfied conditions meet its mode.
pub fn evaluate(policy: &AccessPolicy, attributes: &[UserAttribute], now: BlockNumber) -> (r: Result<EvaluationResult, Error>)
    ensures
        r == evaluation(*policy, attributes@, now),
{
    if !policy.is_active {
        return Ok(EvaluationResult::NotApplicable);
    }
    match policy.expires_at {
        Some(expires_at) => {
            if now > expires_at {
                return Ok(EvaluationResult::NotApplicable);
            }
        },
        None => {},
    }
    let conditions = &policy.conditions;
    let mut satisfied: usize = 0;
    let mut i: usize = 0;
    while i < conditions.len()
        invariant
            policy.is_active,
            !is_expired(policy.expires_at, now),
            conditions@ == policy.conditions@,
            0 <= i <= conditions.len(),
            satisfied <= i,
            satisfied_count(conditions@.subrange(0, i as int), attributes@, now) == Ok::<nat, Error>(satisfied as nat),
        decreases conditions.len() - i,
    {
        assert(conditions@.subrange(0, i + 1).drop_last() =~= conditions@.subrange(0, i as int));
        assert(conditions@.subrange(0, i + 1).last() == conditions@[i as int]);
        let outcome = evaluate_condition(&conditions[i], attributes, now);
        match outcome {
            Err(e) => {
                assert(satisfied_count(conditions@.subrange(0, i + 1), attributes@, now) == Err::<nat, Error>(e));
                proof {
                    lemma_error_persists(conditions@, attributes@, now, i as int + 1);
                }

                return Err(e);
            },
            Ok(holds) => {
                if holds {
                    satisfied = satisfied + 1;
                }
            },
        }
        i = i + 1;
    }
    assert(conditions@.subrange(0, conditions.len() as int) =~= conditions@);
    let met = match policy.mode {
        PolicyMode::AllOf => satisfied == conditions.len(),
        PolicyMode::AnyOf => satisfied > 0,
        PolicyMode::OneOf => satisfied == 1,
    };
    if met {
        match policy.effect {
            PolicyEffect::Allow => Ok(EvaluationResult::Allow),
            PolicyEffect::Deny => Ok(EvaluationResult::Deny),
        }
    } else {
        Ok(EvaluationResult::NotApplicable)
    }
}

/// Once a prefix of the conditions ends in an error, every longer prefix
/// ends in the same error.
proof fn lemma_error_persists(conds: Seq<PolicyCondition>, attrs: Seq<UserAttribute>, now: BlockNumber, k: int)
    requires
        0 <= k <= conds.len(),
        satisfied_count(conds.subrange(0, k), attrs, now) is Err,
    ensures
        satisfied_count(conds, attrs, now) == satisfied_count(conds.subrange(0, k), attrs, now),
    decreases conds.len() - k,
{
    if k < conds.len() {
        assert(conds.subrange(0, k + 1).drop_last() =~= conds.subrange(0, k));
        lemma_error_persists(conds, attrs, now, k + 1);
    } else {
        assert(conds.subrange(0, k) =~= conds);
    }
}

} // verus!
