use access_control::evaluation::{any_shared_byte, apply_operator, bytes_less, same_bytes};
use access_control::{
    evaluate, evaluate_condition, AccessPolicy, AttributeType, ConditionOperator, Error,
    EvaluationResult, PolicyCondition, PolicyEffect, PolicyMode, UserAttribute,
};

fn attr(key: &str, value: &[u8], expires_at: Option<u32>) -> UserAttribute {
    UserAttribute {
        key: key.as_bytes().to_vec(),
        value: value.to_vec(),
        attribute_type: AttributeType::Role,
        assigned_by: 1,
        assigned_at: 0,
        expires_at,
    }
}

fn cond(key: &str, operator: ConditionOperator, value: &[u8]) -> PolicyCondition {
    PolicyCondition { attribute_key: key.as_bytes().to_vec(), operator, value: value.to_vec() }
}

fn policy(effect: PolicyEffect, mode: PolicyMode, conditions: Vec<PolicyCondition>) -> AccessPolicy {
    AccessPolicy {
        policy_id: [1u8; 32],
        name: b"p".to_vec(),
        creator: 1,
        effect,
        mode,
        conditions,
        created_at: 0,
        expires_at: None,
        is_active: true,
    }
}

#[test]
fn literal_operator_comparison() {
    let attrs = vec![attr("level", &[5], None)];
    let gt = cond("level", ConditionOperator::GreaterThan, &[10]);
    let lt = cond("level", ConditionOperator::LessThan, &[10]);
    assert_eq!(evaluate_condition(&gt, &attrs, 0), Ok(false));
    assert_eq!(evaluate_condition(&lt, &attrs, 0), Ok(true));
}

#[test]
fn lexicographic_order_is_not_numeric() {
    // "9" sorts after "10" byte by byte.
    assert!(bytes_less(b"10", b"9"));
    assert!(!bytes_less(b"9", b"10"));
    // A proper prefix comes first; equal strings are not less.
    assert!(bytes_less(b"ab", b"abc"));
    assert!(!bytes_less(b"abc", b"ab"));
    assert!(!bytes_less(b"abc", b"abc"));
    assert!(bytes_less(b"", b"a"));
    assert!(!bytes_less(b"", b""));
}

#[test]
fn contains_tests_for_a_shared_byte() {
    assert!(any_shared_byte(b"xa", b"abc"));
    assert!(!any_shared_byte(b"xyz", b"abc"));
    assert!(!any_shared_byte(b"", b"abc"));
    // Not subsequence containment: "cab" shares bytes with "abc".
    assert!(apply_operator(ConditionOperator::Contains, b"cab", b"abc"));
    assert!(!apply_operator(ConditionOperator::Contains, b"zz", b"abc"));
}

#[test]
fn equality_operators() {
    assert!(same_bytes(b"doctor", b"doctor"));
    assert!(!same_bytes(b"doctor", b"doctors"));
    assert!(apply_operator(ConditionOperator::Equals, b"a", b"a"));
    assert!(!apply_operator(ConditionOperator::NotEquals, b"a", b"a"));
    assert!(apply_operator(ConditionOperator::NotEquals, b"a", b"b"));
    // InRange compares for equality.
    assert!(apply_operator(ConditionOperator::InRange, b"1,5", b"1,5"));
    assert!(!apply_operator(ConditionOperator::InRange, b"3", b"1,5"));
    assert!(apply_operator(ConditionOperator::GreaterThan, b"b", b"a"));
    assert!(apply_operator(ConditionOperator::LessThan, b"a", b"b"));
}

#[test]
fn all_of_needs_every_condition() {
    let attrs = vec![attr("role", b"doctor", None), attr("dept", b"cardiology", None)];
    let both = policy(
        PolicyEffect::Allow,
        PolicyMode::AllOf,
        vec![
            cond("role", ConditionOperator::Equals, b"doctor"),
            cond("dept", ConditionOperator::Equals, b"cardiology"),
        ],
    );
    assert_eq!(evaluate(&both, &attrs, 0), Ok(EvaluationResult::Allow));
    let one_fails = policy(
        PolicyEffect::Deny,
        PolicyMode::AllOf,
        vec![
            cond("role", ConditionOperator::Equals, b"doctor"),
            cond("dept", ConditionOperator::Equals, b"oncology"),
        ],
    );
    assert_eq!(evaluate(&one_fails, &attrs, 0), Ok(EvaluationResult::NotApplicable));
    let deny = policy(
        PolicyEffect::Deny,
        PolicyMode::AllOf,
        vec![
            cond("role", ConditionOperator::Equals, b"doctor"),
            cond("dept", ConditionOperator::Equals, b"cardiology"),
        ],
    );
    assert_eq!(evaluate(&deny, &attrs, 0), Ok(EvaluationResult::Deny));
}

#[test]
fn all_of_missing_attribute_is_an_error() {
    let attrs = vec![attr("role", b"doctor", None)];
    let p = policy(
        PolicyEffect::Allow,
        PolicyMode::AllOf,
        vec![
            cond("role", ConditionOperator::Equals, b"nurse"),
            cond("dept", ConditionOperator::Equals, b"cardiology"),
        ],
    );
    assert_eq!(evaluate(&p, &attrs, 0), Err(Error::AttributeNotFound));
}

#[test]
fn expired_attribute_is_an_error() {
    let attrs = vec![attr("role", b"doctor", Some(10))];
    let p = policy(
        PolicyEffect::Allow,
        PolicyMode::AllOf,
        vec![cond("role", ConditionOperator::Equals, b"doctor")],
    );
    assert_eq!(evaluate(&p, &attrs, 10), Ok(EvaluationResult::Allow));
    assert_eq!(evaluate(&p, &attrs, 11), Err(Error::AttributeExpired));
}

#[test]
fn first_undecidable_condition_decides_the_error() {
    let attrs = vec![attr("role", b"doctor", Some(5))];
    let p = policy(
        PolicyEffect::Allow,
        PolicyMode::AnyOf,
        vec![
            cond("role", ConditionOperator::Equals, b"doctor"),
            cond("dept", ConditionOperator::Equals, b"x"),
        ],
    );
    assert_eq!(evaluate(&p, &attrs, 6), Err(Error::AttributeExpired));
    assert_eq!(evaluate(&p, &attrs, 5), Err(Error::AttributeNotFound));
}

#[test]
fn any_of_and_one_of_modes() {
    let attrs = vec![attr("role", b"doctor", None), attr("org", b"a", None)];
    let conds = || {
        vec![
            cond("role", ConditionOperator::Equals, b"doctor"),
            cond("org", ConditionOperator::Equals, b"a"),
        ]
    };
    let any = policy(PolicyEffect::Allow, PolicyMode::AnyOf, conds());
    assert_eq!(evaluate(&any, &attrs, 0), Ok(EvaluationResult::Allow));
    let one = policy(PolicyEffect::Allow, PolicyMode::OneOf, conds());
    assert_eq!(evaluate(&one, &attrs, 0), Ok(EvaluationResult::NotApplicable));
    let exactly_one = policy(
        PolicyEffect::Deny,
        PolicyMode::OneOf,
        vec![
            cond("role", ConditionOperator::Equals, b"doctor"),
            cond("org", ConditionOperator::Equals, b"b"),
        ],
    );
    assert_eq!(evaluate(&exactly_one, &attrs, 0), Ok(EvaluationResult::Deny));
    let none = policy(
        PolicyEffect::Allow,
        PolicyMode::AnyOf,
        vec![cond("role", ConditionOperator::Equals, b"nurse")],
    );
    assert_eq!(evaluate(&none, &attrs, 0), Ok(EvaluationResult::NotApplicable));
}

#[test]
fn inactive_policy_is_not_applicable() {
    let attrs = vec![attr("role", b"doctor", None)];
    let mut p = policy(
        PolicyEffect::Allow,
        PolicyMode::AllOf,
        vec![cond("role", ConditionOperator::Equals, b"doctor")],
    );
    p.is_active = false;
    assert_eq!(evaluate(&p, &attrs, 0), Ok(EvaluationResult::NotApplicable));
    // Even a missing attribute does not matter then.
    assert_eq!(evaluate(&p, &[], 0), Ok(EvaluationResult::NotApplicable));
}

#[test]
fn expired_policy_is_not_applicable() {
    let attrs = vec![attr("role", b"doctor", None)];
    let mut p = policy(
        PolicyEffect::Deny,
        PolicyMode::AllOf,
        vec![cond("role", ConditionOperator::Equals, b"doctor")],
    );
    p.expires_at = Some(20);
    assert_eq!(evaluate(&p, &attrs, 20), Ok(EvaluationResult::Deny));
    assert_eq!(evaluate(&p, &attrs, 21), Ok(EvaluationResult::NotApplicable));
    assert_eq!(evaluate(&p, &[], 21), Ok(EvaluationResult::NotApplicable));
}

#[test]
fn codes_decode_leniently_and_strictly() {
    assert_eq!(ConditionOperator::from(3), ConditionOperator::GreaterThan);
    assert_eq!(ConditionOperator::from(9), ConditionOperator::Equals);
    assert_eq!(ConditionOperator::decode(9), None);
    assert_eq!(ConditionOperator::decode(5), Some(ConditionOperator::InRange));
    assert_eq!(PolicyEffect::from(1), PolicyEffect::Deny);
    assert_eq!(PolicyEffect::from(7), PolicyEffect::Allow);
    assert_eq!(PolicyEffect::decode(2), None);
    assert_eq!(PolicyMode::from(2), PolicyMode::OneOf);
    assert_eq!(PolicyMode::from(3), PolicyMode::AllOf);
    assert_eq!(PolicyMode::decode(3), None);
    assert_eq!(AttributeType::from(4), AttributeType::Location);
    assert_eq!(AttributeType::from(6), AttributeType::Role);
    assert_eq!(EvaluationResult::from(2), EvaluationResult::NotApplicable);
    assert_eq!(EvaluationResult::from(200), EvaluationResult::Deny);
    assert_eq!(EvaluationResult::Error.code(), 3);
    assert_eq!(EvaluationResult::NotApplicable.code(), 2);
}
