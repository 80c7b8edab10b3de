use access_control::{
    AttributeType, Config, Error, EvaluationResult, Event, Pallet, PolicyEffect, PolicyId,
    PolicyMode, RecordId,
};

const ADMIN: u64 = 1;
const OWNER: u64 = 2;
const SUBJECT: u64 = 3;
const RECORD: RecordId = [7u8; 32];

fn pid(n: u8) -> PolicyId {
    [n; 32]
}

fn pallet() -> Pallet {
    Pallet::new(Config { max_policies_per_record: 4, max_attributes_per_user: 3 })
}

fn create(p: &mut Pallet, id: PolicyId, effect: u8, key: &str, op: u8, value: &str) {
    let r = p.create_policy(
        ADMIN,
        0,
        id,
        b"policy".to_vec(),
        effect,
        0,
        key.as_bytes().to_vec(),
        op,
        value.as_bytes().to_vec(),
        None,
    );
    assert_eq!(r, Ok(Event::PolicyCreated { policy_id: id, creator: ADMIN }));
}

fn assign(p: &mut Pallet, user: u64, key: &str, value: &str) -> Result<Event, Error> {
    p.assign_attribute(ADMIN, 0, user, key.as_bytes().to_vec(), value.as_bytes().to_vec(), 0, None)
}

#[test]
fn doctor_policy_scenario() {
    let mut p = pallet();
    create(&mut p, pid(1), 0, "role", 0, "doctor");
    assign(&mut p, SUBJECT, "role", "doctor").unwrap();
    assert_eq!(p.evaluate_policy_internal(&pid(1), &SUBJECT, 5), Ok(EvaluationResult::Allow));
    assert_eq!(
        p.attach_policy_to_record(OWNER, RECORD, Some(OWNER), pid(1)),
        Ok(Event::PolicyAttachedToRecord { record_id: RECORD, policy_id: pid(1) })
    );
    assert!(p.check_record_access(&RECORD, &SUBJECT, 5));
    assert_eq!(
        p.revoke_attribute(SUBJECT, b"role".to_vec()),
        Ok(Event::AttributeRevoked { user: SUBJECT, attribute_key: b"role".to_vec() })
    );
    assert_eq!(p.evaluate_policy_internal(&pid(1), &SUBJECT, 5), Err(Error::AttributeNotFound));
    assert!(!p.check_record_access(&RECORD, &SUBJECT, 5));
}

#[test]
fn record_without_policies_is_open() {
    let p = pallet();
    assert!(p.check_record_access(&RECORD, &SUBJECT, 0));
    assert!(p.check_record_access(&[0u8; 32], &99, 1000));
}

#[test]
fn deny_overrides_allow_in_either_order() {
    for order in [[1u8, 2u8], [2u8, 1u8]] {
        let mut p = pallet();
        create(&mut p, pid(1), 0, "role", 0, "doctor");
        create(&mut p, pid(2), 1, "role", 0, "doctor");
        assign(&mut p, SUBJECT, "role", "doctor").unwrap();
        for n in order {
            p.attach_policy_to_record(OWNER, RECORD, Some(OWNER), pid(n)).unwrap();
        }
        assert!(!p.check_record_access(&RECORD, &SUBJECT, 0));
    }
}

#[test]
fn allow_without_deny_grants_access() {
    let mut p = pallet();
    create(&mut p, pid(1), 0, "role", 0, "doctor");
    create(&mut p, pid(2), 1, "role", 0, "nurse");
    assign(&mut p, SUBJECT, "role", "doctor").unwrap();
    p.attach_policy_to_record(OWNER, RECORD, Some(OWNER), pid(1)).unwrap();
    p.attach_policy_to_record(OWNER, RECORD, Some(OWNER), pid(2)).unwrap();
    assert!(p.check_record_access(&RECORD, &SUBJECT, 0));
    // A subject the Allow policy does not match is refused.
    assign(&mut p, 4, "role", "porter").unwrap();
    assert!(!p.check_record_access(&RECORD, &4, 0));
}

#[test]
fn deleted_policy_stays_attached_and_is_skipped() {
    let mut p = pallet();
    create(&mut p, pid(1), 0, "role", 0, "doctor");
    assign(&mut p, SUBJECT, "role", "doctor").unwrap();
    p.attach_policy_to_record(OWNER, RECORD, Some(OWNER), pid(1)).unwrap();
    assert_eq!(p.delete_policy(ADMIN, pid(1)), Ok(Event::PolicyDeleted { policy_id: pid(1) }));
    assert_eq!(p.record_policies(&RECORD), vec![pid(1)]);
    assert_eq!(p.evaluate_policy_internal(&pid(1), &SUBJECT, 0), Err(Error::PolicyNotFound));
    assert!(!p.check_record_access(&RECORD, &SUBJECT, 0));
}

#[test]
fn assign_twice_overwrites_in_place() {
    let mut p = pallet();
    assign(&mut p, SUBJECT, "org", "a").unwrap();
    assert_eq!(
        assign(&mut p, SUBJECT, "role", "doctor"),
        Ok(Event::AttributeAssigned {
            user: SUBJECT,
            attribute_key: b"role".to_vec(),
            assigned_by: ADMIN,
        })
    );
    assign(&mut p, SUBJECT, "role", "nurse").unwrap();
    assert_eq!(p.user_attribute_keys(&SUBJECT), vec![b"org".to_vec(), b"role".to_vec()]);
    let role = p.user_attributes(&SUBJECT, &b"role".to_vec()).unwrap();
    assert_eq!(role.value, b"nurse".to_vec());
    assert_eq!(p.get_user_attributes(&SUBJECT).len(), 2);
}

#[test]
fn assign_records_type_and_expiry() {
    let mut p = pallet();
    p.assign_attribute(ADMIN, 100, SUBJECT, b"dept".to_vec(), b"x".to_vec(), 2, Some(50)).unwrap();
    p.assign_attribute(ADMIN, 100, SUBJECT, b"time".to_vec(), b"y".to_vec(), 9, Some(u32::MAX))
        .unwrap();
    let dept = p.user_attributes(&SUBJECT, &b"dept".to_vec()).unwrap();
    assert_eq!(dept.attribute_type, AttributeType::Department);
    assert_eq!(dept.expires_at, Some(150));
    assert_eq!(dept.assigned_by, ADMIN);
    assert_eq!(dept.assigned_at, 100);
    let time = p.user_attributes(&SUBJECT, &b"time".to_vec()).unwrap();
    assert_eq!(time.attribute_type, AttributeType::Role);
    assert_eq!(time.expires_at, Some(u32::MAX));
}

#[test]
fn attribute_capacity_is_enforced() {
    let mut p = pallet();
    assign(&mut p, SUBJECT, "a", "1").unwrap();
    assign(&mut p, SUBJECT, "b", "1").unwrap();
    assign(&mut p, SUBJECT, "c", "1").unwrap();
    assert_eq!(assign(&mut p, SUBJECT, "d", "1"), Err(Error::TooManyAttributes));
    // Overwriting an existing key still works when full.
    assert!(assign(&mut p, SUBJECT, "b", "2").is_ok());
    assert_eq!(p.user_attribute_keys(&SUBJECT).len(), 3);
    assert!(p.user_attributes(&SUBJECT, &b"d".to_vec()).is_none());
}

#[test]
fn zero_capacity_refuses_attributes_and_attachments() {
    let mut p = Pallet::new(Config { max_policies_per_record: 0, max_attributes_per_user: 0 });
    assert_eq!(assign(&mut p, SUBJECT, "role", "doctor"), Err(Error::TooManyAttributes));
    create(&mut p, pid(1), 0, "role", 0, "doctor");
    assert_eq!(
        p.attach_policy_to_record(OWNER, RECORD, Some(OWNER), pid(1)),
        Err(Error::TooManyPolicies)
    );
    assert!(p.get_user_attributes(&SUBJECT).is_empty());
    assert!(p.record_policies(&RECORD).is_empty());
}

#[test]
fn revoke_moves_last_key_into_place() {
    let mut p = pallet();
    assign(&mut p, SUBJECT, "a", "1").unwrap();
    assign(&mut p, SUBJECT, "b", "2").unwrap();
    assign(&mut p, SUBJECT, "c", "3").unwrap();
    p.revoke_attribute(SUBJECT, b"a".to_vec()).unwrap();
    assert_eq!(p.user_attribute_keys(&SUBJECT), vec![b"c".to_vec(), b"b".to_vec()]);
    assert_eq!(p.revoke_attribute(SUBJECT, b"a".to_vec()), Err(Error::AttributeNotFound));
    assert_eq!(p.revoke_attribute(99, b"a".to_vec()), Err(Error::AttributeNotFound));
}

#[test]
fn create_policy_errors() {
    let mut p = pallet();
    create(&mut p, pid(1), 0, "role", 0, "doctor");
    let again =
        p.create_policy(OWNER, 0, pid(1), b"n".to_vec(), 1, 1, b"k".to_vec(), 1, b"v".to_vec(), None);
    assert_eq!(again, Err(Error::PolicyAlreadyExists));
    let bad_effect =
        p.create_policy(ADMIN, 0, pid(2), b"n".to_vec(), 2, 0, b"k".to_vec(), 0, b"v".to_vec(), None);
    assert_eq!(bad_effect, Err(Error::InvalidPolicy));
    let bad_mode =
        p.create_policy(ADMIN, 0, pid(2), b"n".to_vec(), 0, 3, b"k".to_vec(), 0, b"v".to_vec(), None);
    assert_eq!(bad_mode, Err(Error::InvalidPolicy));
    let bad_operator =
        p.create_policy(ADMIN, 0, pid(2), b"n".to_vec(), 0, 0, b"k".to_vec(), 6, b"v".to_vec(), None);
    assert_eq!(bad_operator, Err(Error::InvalidPolicy));
    assert!(p.policies(&pid(2)).is_none());
    let stored = p.policies(&pid(1)).unwrap();
    assert_eq!(stored.creator, ADMIN);
    assert_eq!(stored.effect, PolicyEffect::Allow);
    assert_eq!(stored.mode, PolicyMode::AllOf);
    assert!(stored.is_active);
    assert_eq!(stored.conditions.len(), 1);
}

#[test]
fn created_policy_expires_after_its_lifetime() {
    let mut p = pallet();
    let r = p.create_policy(
        ADMIN,
        10,
        pid(1),
        b"temp".to_vec(),
        0,
        1,
        b"role".to_vec(),
        0,
        b"doctor".to_vec(),
        Some(5),
    );
    assert!(r.is_ok());
    assert_eq!(p.policies(&pid(1)).unwrap().expires_at, Some(15));
    assert_eq!(p.policies(&pid(1)).unwrap().created_at, 10);
    assign(&mut p, SUBJECT, "role", "doctor").unwrap();
    assert_eq!(p.evaluate_policy_internal(&pid(1), &SUBJECT, 15), Ok(EvaluationResult::Allow));
    assert_eq!(
        p.evaluate_policy_internal(&pid(1), &SUBJECT, 16),
        Ok(EvaluationResult::NotApplicable)
    );
}

#[test]
fn only_the_creator_updates_or_deletes() {
    let mut p = pallet();
    create(&mut p, pid(1), 0, "role", 0, "doctor");
    assert_eq!(p.update_policy(OWNER, pid(1), false), Err(Error::NotAuthorized));
    assert_eq!(p.delete_policy(OWNER, pid(1)), Err(Error::NotAuthorized));
    assert_eq!(p.update_policy(ADMIN, pid(9), false), Err(Error::PolicyNotFound));
    assert_eq!(p.delete_policy(ADMIN, pid(9)), Err(Error::PolicyNotFound));
    assert!(p.policies(&pid(1)).unwrap().is_active);
    assert_eq!(
        p.update_policy(ADMIN, pid(1), false),
        Ok(Event::PolicyUpdated { policy_id: pid(1), updated_by: ADMIN })
    );
    assert!(!p.policies(&pid(1)).unwrap().is_active);
}

#[test]
fn deactivated_policy_is_not_applicable() {
    let mut p = pallet();
    create(&mut p, pid(1), 1, "role", 0, "doctor");
    assign(&mut p, SUBJECT, "role", "doctor").unwrap();
    assert_eq!(p.evaluate_policy_internal(&pid(1), &SUBJECT, 0), Ok(EvaluationResult::Deny));
    p.update_policy(ADMIN, pid(1), false).unwrap();
    assert_eq!(
        p.evaluate_policy_internal(&pid(1), &SUBJECT, 0),
        Ok(EvaluationResult::NotApplicable)
    );
    p.attach_policy_to_record(OWNER, RECORD, Some(OWNER), pid(1)).unwrap();
    assert!(!p.check_record_access(&RECORD, &SUBJECT, 0));
}

#[test]
fn evaluate_policy_reports_codes() {
    let mut p = pallet();
    create(&mut p, pid(1), 1, "role", 0, "doctor");
    assign(&mut p, SUBJECT, "role", "doctor").unwrap();
    assert_eq!(
        p.evaluate_policy(pid(1), SUBJECT, 0),
        Ok(Event::PolicyEvaluated { policy_id: pid(1), user: SUBJECT, result: 1 })
    );
    assign(&mut p, SUBJECT, "role", "nurse").unwrap();
    assert_eq!(
        p.evaluate_policy(pid(1), SUBJECT, 0),
        Ok(Event::PolicyEvaluated { policy_id: pid(1), user: SUBJECT, result: 2 })
    );
    assert_eq!(p.evaluate_policy(pid(1), 42, 0), Err(Error::AttributeNotFound));
    assert_eq!(p.evaluate_policy(pid(5), SUBJECT, 0), Err(Error::PolicyNotFound));
}

#[test]
fn attach_checks_owner_record_and_policy() {
    let mut p = pallet();
    create(&mut p, pid(1), 0, "role", 0, "doctor");
    assert_eq!(
        p.attach_policy_to_record(OWNER, RECORD, None, pid(1)),
        Err(Error::RecordNotFound)
    );
    assert_eq!(
        p.attach_policy_to_record(SUBJECT, RECORD, Some(OWNER), pid(1)),
        Err(Error::NotAuthorized)
    );
    assert_eq!(
        p.attach_policy_to_record(OWNER, RECORD, Some(OWNER), pid(2)),
        Err(Error::PolicyNotFound)
    );
    p.attach_policy_to_record(OWNER, RECORD, Some(OWNER), pid(1)).unwrap();
    // Attaching again keeps one copy.
    p.attach_policy_to_record(OWNER, RECORD, Some(OWNER), pid(1)).unwrap();
    assert_eq!(p.record_policies(&RECORD), vec![pid(1)]);
}

#[test]
fn attachment_capacity_is_enforced() {
    let mut p = pallet();
    for n in 1..=5u8 {
        create(&mut p, pid(n), 0, "role", 0, "doctor");
    }
    for n in 1..=4u8 {
        p.attach_policy_to_record(OWNER, RECORD, Some(OWNER), pid(n)).unwrap();
    }
    assert_eq!(
        p.attach_policy_to_record(OWNER, RECORD, Some(OWNER), pid(5)),
        Err(Error::TooManyPolicies)
    );
    assert!(p.attach_policy_to_record(OWNER, RECORD, Some(OWNER), pid(4)).is_ok());
    assert_eq!(p.record_policies(&RECORD).len(), 4);
}

#[test]
fn detach_removes_and_reorders() {
    let mut p = pallet();
    for n in 1..=3u8 {
        create(&mut p, pid(n), 0, "role", 0, "doctor");
        p.attach_policy_to_record(OWNER, RECORD, Some(OWNER), pid(n)).unwrap();
    }
    assert_eq!(
        p.detach_policy_from_record(SUBJECT, RECORD, Some(OWNER), pid(1)),
        Err(Error::NotAuthorized)
    );
    assert_eq!(
        p.detach_policy_from_record(OWNER, RECORD, None, pid(1)),
        Err(Error::RecordNotFound)
    );
    assert_eq!(
        p.detach_policy_from_record(OWNER, RECORD, Some(OWNER), pid(1)),
        Ok(Event::PolicyDetachedFromRecord { record_id: RECORD, policy_id: pid(1) })
    );
    assert_eq!(p.record_policies(&RECORD), vec![pid(3), pid(2)]);
    // Detaching what is not attached succeeds and changes nothing.
    assert!(p.detach_policy_from_record(OWNER, RECORD, Some(OWNER), pid(9)).is_ok());
    assert_eq!(p.record_policies(&RECORD), vec![pid(3), pid(2)]);
}

#[test]
fn expired_attribute_is_swallowed_by_access_check() {
    let mut p = pallet();
    create(&mut p, pid(1), 0, "role", 0, "doctor");
    p.assign_attribute(ADMIN, 0, SUBJECT, b"role".to_vec(), b"doctor".to_vec(), 0, Some(10))
        .unwrap();
    p.attach_policy_to_record(OWNER, RECORD, Some(OWNER), pid(1)).unwrap();
    assert!(p.check_record_access(&RECORD, &SUBJECT, 10));
    assert_eq!(p.evaluate_policy_internal(&pid(1), &SUBJECT, 11), Err(Error::AttributeExpired));
    assert!(!p.check_record_access(&RECORD, &SUBJECT, 11));
}

#[test]
fn config_reports_capacities() {
    let p = pallet();
    let c = p.config();
    assert_eq!(c.max_policies_per_record, 4);
    assert_eq!(c.max_attributes_per_user, 3);
}
