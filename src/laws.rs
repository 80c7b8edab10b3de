//! Properties that relate the operations, proved over their models.
use crate::evaluation::{
    condition_outcome, effect_result, evaluation, find_attribute, is_first_with_key,
    satisfied_count,
};
use crate::pallet::{has_key, key_position, keys_of, unique_keys, upsert_attribute, PalletState};
use crate::types::{
    is_expired, AccessPolicy, AccountId, BlockNumber, EvaluationResult, PolicyCondition,
    PolicyId, PolicyMode, RecordId, UserAttribute,
};
use vstd::prelude::*;

verus! {

/// When every condition can be decided, the count is the number of
/// conditions that hold; it equals their total exactly when all hold.
proof fn lemma_count_when_decided(conds: Seq<PolicyCondition>, attrs: Seq<UserAttribute>, now: BlockNumber)
    requires
        forall|i: int| 0 <= i < conds.len() ==> #[trigger] condition_outcome(conds[i], attrs, now) is Ok,
    ensures
        satisfied_count(conds, attrs, now) is Ok,
        satisfied_count(conds, attrs, now)->Ok_0 <= conds.len(),
        satisfied_count(conds, attrs, now)->Ok_0 == conds.len() <==> forall|i: int|
            0 <= i < conds.len() ==> #[trigger] condition_outcome(conds[i], attrs, now) == Ok::<
                bool,
                crate::types::Error,
            >(true),
    decreases conds.len(),
{
    if conds.len() > 0 {
        let prefix = conds.drop_last();
        assert forall|i: int| 0 <= i < prefix.len() implies #[trigger] condition_outcome(prefix[i], attrs, now) is Ok by {
            assert(prefix[i] == conds[i]);
        }
        lemma_count_when_decided(prefix, attrs, now);
        assert(condition_outcome(conds[conds.len() - 1], attrs, now) is Ok);
        let n = satisfied_count(conds, attrs, now)->Ok_0;
        if n == conds.len() {
            assert forall|i: int| 0 <= i < conds.len() implies #[trigger] condition_outcome(conds[i], attrs, now) == Ok::<bool, crate::types::Error>(true) by {
                if i < prefix.len() {
                    assert(prefix[i] == conds[i]);
                }
            }
        }
        if forall|i: int|
            0 <= i < conds.len() ==> #[trigger] condition_outcome(conds[i], attrs, now) == Ok::<
                bool,
                crate::types::Error,
            >(true) {
            assert forall|i: int| 0 <= i < prefix.len() implies #[trigger] condition_outcome(prefix[i], attrs, now) == Ok::<bool, crate::types::Error>(true) by {
                assert(prefix[i] == conds[i]);
                assert(condition_outcome(conds[i], attrs, now) == Ok::<bool, crate::types::Error>(true));
            }
            assert(condition_outcome(conds[conds.len() - 1], attrs, now) == Ok::<bool, crate::types::Error>(true));
        }
    }
}

/// A condition that cannot be decided makes the whole count fail.
proof fn lemma_count_fails(conds: Seq<PolicyCondition>, attrs: Seq<UserAttribute>, now: BlockNumber, k: int)
    requires
        0 <= k < conds.len(),
        condition_outcome(conds[k], attrs, now) is Err,
    ensures
        satisfied_count(conds, attrs, now) is Err,
    decreases conds.len(),
{
    if k < conds.len() - 1 {
        let prefix = conds.drop_last();
        assert(prefix[k] == conds[k]);
        lemma_count_fails(prefix, attrs, now, k);
    }
}

/// Under `AllOf`, an active, unexpired policy whose conditions can all be
/// decided yields its effect exactly when every condition holds, and is not
/// applicable otherwise; a condition whose attribute is missing or expired
/// makes the evaluation fail instead.
pub proof fn law_all_of(p: AccessPolicy, attrs: Seq<UserAttribute>, now: BlockNumber)
    requires
        p.mode == PolicyMode::AllOf,
        p.is_active,
        !is_expired(p.expires_at, now),
    ensures
        (forall|i: int|
            0 <= i < p.conditions@.len() ==> #[trigger] condition_outcome(
                p.conditions@[i],
                attrs,
                now,
            ) is Ok) ==> evaluation(p, attrs, now) == if forall|i: int|
            0 <= i < p.conditions@.len() ==> #[trigger] condition_outcome(
                p.conditions@[i],
                attrs,
                now,
            ) == Ok::<bool, crate::types::Error>(true) {
            Ok::<EvaluationResult, crate::types::Error>(effect_result(p.effect))
        } else {
            Ok(EvaluationResult::NotApplicable)
        },
        (exists|i: int|
            0 <= i < p.conditions@.len() && #[trigger] condition_outcome(
                p.conditions@[i],
                attrs,
                now,
            ) is Err) ==> evaluation(p, attrs, now) is Err,
{
    if forall|i: int|
        0 <= i < p.conditions@.len() ==> #[trigger] condition_outcome(
            p.conditions@[i],
            attrs,
            now,
        ) is Ok {
        lemma_count_when_decided(p.conditions@, attrs, now);
    }
    if exists|i: int|
        0 <= i < p.conditions@.len() && #[trigger] condition_outcome(
            p.conditions@[i],
            attrs,
            now,
        ) is Err {
        let k = choose|i: int|
            0 <= i < p.conditions@.len() && #[trigger] condition_outcome(
                p.conditions@[i],
                attrs,
                now,
            ) is Err;
        lemma_count_fails(p.conditions@, attrs, now, k);
    }
}

/// An inactive policy is not applicable, whatever its conditions.
pub proof fn law_inactive_not_applicable(p: AccessPolicy, attrs: Seq<UserAttribute>, now: BlockNumber)
    requires
        !p.is_active,
    ensures
        evaluation(p, attrs, now) == Ok::<EvaluationResult, crate::types::Error>(
            EvaluationResult::NotApplicable,
        ),
{
}

/// Assigning the same key twice keeps one entry for it, which holds the
/// second assignment; the second assignment needs no free capacity.
pub proof fn law_assign_overwrites(s: Seq<UserAttribute>, first: UserAttribute, second: UserAttribute)
    requires
        unique_keys(s),
        first.key@ == second.key@,
    ensures
        has_key(upsert_attribute(s, first), second.key@),
        upsert_attribute(upsert_attribute(s, first), second).len() == upsert_attribute(
            s,
            first,
        ).len(),
        unique_keys(upsert_attribute(upsert_attribute(s, first), second)),
        find_attribute(upsert_attribute(upsert_attribute(s, first), second), second.key@) == Some(
            second,
        ),
        exists|i: int|
            0 <= i < keys_of(upsert_attribute(upsert_attribute(s, first), second)).len() && keys_of(
                upsert_attribute(upsert_attribute(s, first), second),
            )[i] == second.key@ && forall|j: int|
                0 <= j < keys_of(upsert_attribute(upsert_attribute(s, first), second)).len() && j
                    != i ==> keys_of(upsert_attribute(upsert_attribute(s, first), second))[j]
                    != second.key@,
{
    let key = second.key@;
    let once = upsert_attribute(s, first);
    lemma_upsert_keeps_unique(s, first);
    let i = key_position(once, key);
    if has_key(s, key) {
        let p = key_position(s, key);
        assert(once[p].key@ == key);
    } else {
        assert(once[s.len() as int].key@ == key);
    }
    assert(has_key(once, key));
    let twice = upsert_attribute(once, second);
    lemma_upsert_keeps_unique(once, second);
    assert(twice == once.update(i, second));
    assert(twice[i] == second);
    assert forall|j: int| 0 <= j < twice.len() && j != i implies twice[j].key@ != key by {
        if j < i {
            assert(twice[j].key@ != twice[i].key@);
        } else {
            assert(twice[i].key@ != twice[j].key@);
        }
    }
    assert(is_first_with_key(twice, key, i));
    let c = choose|c: int| is_first_with_key(twice, key, c);
    assert(c == i);
    let keys = keys_of(twice);
    assert(keys[i] == key);
    assert forall|j: int| 0 <= j < keys.len() && j != i implies keys[j] != key by {
        assert(keys[j] == twice[j].key@);
    }
}

/// Assignment keeps the keys of a subject's attributes distinct.
proof fn lemma_upsert_keeps_unique(s: Seq<UserAttribute>, a: UserAttribute)
    requires
        unique_keys(s),
    ensures
        unique_keys(upsert_attribute(s, a)),
{
    let t = upsert_attribute(s, a);
    if has_key(s, a.key@) {
        let p = key_position(s, a.key@);
        assert forall|i: int, j: int| 0 <= i < j < t.len() implies t[i].key@ != t[j].key@ by {
            if i == p {
                assert(s[p].key@ != s[j].key@);
            } else if j == p {
                assert(s[i].key@ != s[p].key@);
            }
        }
    } else {
        assert forall|i: int, j: int| 0 <= i < j < t.len() implies t[i].key@ != t[j].key@ by {
            if j == s.len() {
                assert(s[i].key@ != a.key@);
            }
        }
    }
}

/// A record with no attached policy is open to every subject.
pub proof fn law_no_policies_open(st: PalletState, record_id: RecordId, user: AccountId, now: BlockNumber)
    requires
        st.policies_of(record_id).len() == 0,
    ensures
        st.access_granted(record_id, user, now),
{
}

/// One attached policy that denies vetoes any that allow.
pub proof fn law_deny_overrides(
    st: PalletState,
    record_id: RecordId,
    user: AccountId,
    now: BlockNumber,
    allowing: int,
    denying: int,
)
    requires
        0 <= allowing < st.policies_of(record_id).len(),
        0 <= denying < st.policies_of(record_id).len(),
        st.evaluation_of(st.policies_of(record_id)[allowing], user, now) == Ok::<
            EvaluationResult,
            crate::types::Error,
        >(EvaluationResult::Allow),
        st.evaluation_of(st.policies_of(record_id)[denying], user, now) == Ok::<
            EvaluationResult,
            crate::types::Error,
        >(EvaluationResult::Deny),
    ensures
        !st.access_granted(record_id, user, now),
{
    assert(st.some_attached_yields(record_id, user, now, EvaluationResult::Deny));
}

/// The access decision depends on which policies are attached, not on the
/// order in which they were attached.
pub proof fn law_attachment_order_irrelevant(
    st: PalletState,
    record_id: RecordId,
    reordered: Seq<PolicyId>,
    user: AccountId,
    now: BlockNumber,
)
    requires
        forall|id: PolicyId|
            #![trigger st.policies_of(record_id).contains(id)]
            #![trigger reordered.contains(id)]
            st.policies_of(record_id).contains(id) <==> reordered.contains(id),
    ensures
        st.with_record_policies(record_id, reordered).access_granted(record_id, user, now)
            == st.access_granted(record_id, user, now),
{
    let other = st.with_record_policies(record_id, reordered);
    let ids = st.policies_of(record_id);
    assert(other.policies_of(record_id) == reordered);
    assert forall|id: PolicyId| #[trigger] other.evaluation_of(id, user, now) == st.evaluation_of(id, user, now) by {
        assert(other.attributes_of(user) == st.attributes_of(user));
    }
    if ids.len() == 0 {
        if reordered.len() > 0 {
            assert(reordered.contains(reordered[0]));
        }
    } else {
        assert(ids.contains(ids[0]));
        assert(reordered.len() > 0);
    }
    assert forall|outcome: EvaluationResult| #[trigger] other.some_attached_yields(record_id, user, now, outcome)
        == st.some_attached_yields(record_id, user, now, outcome) by {
        if other.some_attached_yields(record_id, user, now, outcome) {
            let i = choose|i: int|
                0 <= i < reordered.len() && #[trigger] other.evaluation_of(reordered[i], user, now)
                    == Ok::<EvaluationResult, crate::types::Error>(outcome);
            assert(reordered.contains(reordered[i]));
            let j = choose|j: int| 0 <= j < ids.len() && ids[j] == reordered[i];
            assert(st.evaluation_of(ids[j], user, now) == Ok::<EvaluationResult, crate::types::Error>(outcome));
        }
        if st.some_attached_yields(record_id, user, now, outcome) {
            let i = choose|i: int|
                0 <= i < ids.len() && #[trigger] st.evaluation_of(ids[i], user, now) == Ok::<
                    EvaluationResult,
                    crate::types::Error,
                >(outcome);
            assert(ids.contains(ids[i]));
            let j = choose|j: int| 0 <= j < reordered.len() && reordered[j] == ids[i];
            assert(other.evaluation_of(reordered[j], user, now) == Ok::<EvaluationResult, crate::types::Error>(outcome));
        }
    }
}

} // verus!
