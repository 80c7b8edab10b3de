//! The access-control stores and the operations on them: policy
//! administration, attribute administration, policy-to-record attachment,
//! single-policy evaluation and the deny-overrides access check.
//!
//! The caller supplies what the surrounding chain knows: the signing
//! account, the current block number, and the owner of a record.
use crate::evaluation::{evaluate, evaluation, find_attribute, lookup_attribute};
use crate::table::{Table, TableKey};
use crate::types::{
    attribute_type_of, effect_code, expiry_after, expiry_from, mode_code, operator_code,
    result_code, AccessPolicy, AccountId, AttributeKey, AttributeType, AttributeValue,
    BlockNumber, ConditionOperator, Error, EvaluationResult, PolicyCondition, PolicyEffect,
    PolicyId, PolicyMode, RecordId, UserAttribute, MAX_CONDITIONS_PER_POLICY,
};
use vstd::prelude::*;

verus! {

/// Capacities of the bounded collections.
#[derive(Clone, Copy, Debug)]
pub struct Config {
    /// Most policies attached to one record.
    pub max_policies_per_record: u32,
    /// Most attributes assigned to one subject.
    pub max_attributes_per_user: u32,
}

/// What a successful operation reports.
#[derive(Clone, PartialEq, Eq, Debug)]
pub enum Event {
    PolicyCreated { policy_id: PolicyId, creator: AccountId },
    PolicyUpdated { policy_id: PolicyId, updated_by: AccountId },
    PolicyDeleted { policy_id: PolicyId },
    AttributeAssigned { user: AccountId, attribute_key: AttributeKey, assigned_by: AccountId },
    AttributeRevoked { user: AccountId, attribute_key: AttributeKey },
    /// `result` is the outcome's code: 0 allow, 1 deny, 2 not applicable.
    PolicyEvaluated { policy_id: PolicyId, user: AccountId, result: u8 },
    PolicyAttachedToRecord { record_id: RecordId, policy_id: PolicyId },
    PolicyDetachedFromRecord { record_id: RecordId, policy_id: PolicyId },
}

/// The contents of the stores.
pub struct PalletState {
    /// Policy store.
    pub policies: Map<PolicyId, AccessPolicy>,
    /// Attribute store: each subject's attributes, in the order of its key index.
    pub attributes: Map<AccountId, Seq<UserAttribute>>,
    /// Resource-policy index.
    pub record_policies: Map<RecordId, Seq<PolicyId>>,
    pub max_policies_per_record: u32,
    pub max_attributes_per_user: u32,
}

/// No two attributes of the sequence share a key.
pub open spec fn unique_keys(s: Seq<UserAttribute>) -> bool {
    forall|i: int, j: int| 0 <= i < j < s.len() ==> s[i].key@ != s[j].key@
}

pub open spec fn has_key(s: Seq<UserAttribute>, key: Seq<u8>) -> bool {
    exists|i: int| 0 <= i < s.len() && s[i].key@ == key
}

/// Where the attribute named `key` stands (meaningful when `has_key`).
pub open spec fn key_position(s: Seq<UserAttribute>, key: Seq<u8>) -> int {
    choose|i: int| 0 <= i < s.len() && s[i].key@ == key
}

/// The subject's key index: the keys of its attributes, in order.
pub open spec fn keys_of(s: Seq<UserAttribute>) -> Seq<Seq<u8>> {
    s.map_values(|a: UserAttribute| a.key@)
}

/// `a` written over the attribute of the same key, or added after the others.
pub open spec fn upsert_attribute(s: Seq<UserAttribute>, a: UserAttribute) -> Seq<UserAttribute> {
    if has_key(s, a.key@) {
        s.update(key_position(s, a.key@), a)
    } else {
        s.push(a)
    }
}

/// The attribute named `key` taken out; the last one moves into its place.
pub open spec fn remove_attribute(s: Seq<UserAttribute>, key: Seq<u8>) -> Seq<UserAttribute> {
    s.update(key_position(s, key), s.last()).drop_last()
}

/// `id` taken out; the last identifier moves into its place.
pub open spec fn remove_policy_id(s: Seq<PolicyId>, id: PolicyId) -> Seq<PolicyId> {
    s.update(s.index_of(id), s.last()).drop_last()
}

/// The policy that `create_policy` stores.
pub open spec fn is_created_policy(
    p: AccessPolicy,
    policy_id: PolicyId,
    name: Vec<u8>,
    creator: AccountId,
    effect: u8,
    mode: u8,
    condition: PolicyCondition,
    now: BlockNumber,
    duration_blocks: Option<BlockNumber>,
) -> bool {
    &&& p.policy_id == policy_id
    &&& p.name == name
    &&& p.creator == creator
    &&& effect_code(effect) == Some(p.effect)
    &&& mode_code(mode) == Some(p.mode)
    &&& p.conditions@ == seq![condition]
    &&& p.created_at == now
    &&& p.expires_at == expiry_after(now, duration_blocks)
    &&& p.is_active
}

impl PalletState {
    /// The store invariants.
    pub open spec fn wf(self) -> bool {
        &&& forall|id: PolicyId| #[trigger]
            self.policies.contains_key(id) ==> self.policies[id].policy_id == id && 1
                <= self.policies[id].conditions@.len() <= MAX_CONDITIONS_PER_POLICY
        &&& forall|u: AccountId| #[trigger]
            self.attributes.contains_key(u) ==> self.attributes[u].len()
                <= self.max_attributes_per_user && unique_keys(self.attributes[u])
        &&& forall|r: RecordId| #[trigger]
            self.record_policies.contains_key(r) ==> self.record_policies[r].len()
                <= self.max_policies_per_record && self.record_policies[r].no_duplicates()
    }

    /// The subject's attributes; none when it has never been assigned one.
    pub open spec fn attributes_of(self, user: AccountId) -> Seq<UserAttribute> {
        if self.attributes.contains_key(user) {
            self.attributes[user]
        } else {
            Seq::empty()
        }
    }

    /// The policies attached to a record; none when nothing was attached.
    pub open spec fn policies_of(self, record_id: RecordId) -> Seq<PolicyId> {
        if self.record_policies.contains_key(record_id) {
            self.record_policies[record_id]
        } else {
            Seq::empty()
        }
    }

    /// Outcome of evaluating the stored policy `policy_id` for `user` at `now`.
    pub open spec fn evaluation_of(self, policy_id: PolicyId, user: AccountId, now: BlockNumber) -> Result<EvaluationResult, Error> {
        if self.policies.contains_key(policy_id) {
            evaluation(self.policies[policy_id], self.attributes_of(user), now)
        } else {
            Err(Error::PolicyNotFound)
        }
    }

    /// Some attached policy evaluates to `outcome`.
    pub open spec fn some_attached_yields(
        self,
        record_id: RecordId,
        user: AccountId,
        now: BlockNumber,
        outcome: EvaluationResult,
    ) -> bool {
        exists|i: int|
            0 <= i < self.policies_of(record_id).len() && #[trigger] self.evaluation_of(
                self.policies_of(record_id)[i],
                user,
                now,
            ) == Ok::<EvaluationResult, Error>(outcome)
    }

    /// Access decision: open when nothing is attached; otherwise some attached
    /// policy allows and none denies. Policies whose evaluation fails count
    /// for neither.
    pub open spec fn access_granted(self, record_id: RecordId, user: AccountId, now: BlockNumber) -> bool {
        self.policies_of(record_id).len() == 0 || (self.some_attached_yields(
            record_id,
            user,
            now,
            EvaluationResult::Allow,
        ) && !self.some_attached_yields(record_id, user, now, EvaluationResult::Deny))
    }

    pub open spec fn with_policies(self, policies: Map<PolicyId, AccessPolicy>) -> PalletState {
        PalletState {
            policies,
            attributes: self.attributes,
            record_policies: self.record_policies,
            max_policies_per_record: self.max_policies_per_record,
            max_attributes_per_user: self.max_attributes_per_user,
        }
    }

    pub open spec fn with_attributes(self, user: AccountId, attrs: Seq<UserAttribute>) -> PalletState {
        PalletState {
            policies: self.policies,
            attributes: self.attributes.insert(user, attrs),
            record_policies: self.record_policies,
            max_policies_per_record: self.max_policies_per_record,
            max_attributes_per_user: self.max_attributes_per_user,
        }
    }

    pub open spec fn with_record_policies(self, record_id: RecordId, ids: Seq<PolicyId>) -> PalletState {
        PalletState {
            policies: self.policies,
            attributes: self.attributes,
            record_policies: self.record_policies.insert(record_id, ids),
            max_policies_per_record: self.max_policies_per_record,
            max_attributes_per_user: self.max_attributes_per_user,
        }
    }
}

/// The access-control stores.
pub struct Pallet {
    policies: Table<PolicyId, AccessPolicy>,
    user_attributes: Table<AccountId, Vec<UserAttribute>>,
    record_policies: Table<RecordId, Vec<PolicyId>>,
    max_policies_per_record: u32,
    max_attributes_per_user: u32,
}

impl View for Pallet {
    type V = PalletState;

    closed spec fn view(&self) -> PalletState {
        PalletState {
            policies: self.policies@,
            attributes: self.user_attributes@.map_values(|v: Vec<UserAttribute>| v@),
            record_policies: self.record_policies@.map_values(|v: Vec<PolicyId>| v@),
            max_policies_per_record: self.max_policies_per_record,
            max_attributes_per_user: self.max_attributes_per_user,
        }
    }
}

/// What the invariant says of each store and of the model.
proof fn lemma_view_wf(p: &Pallet)
    requires
        p.wf(),
    ensures
        p@.wf(),
        p.policies.wf(),
        p.user_attributes.wf(),
        p.record_policies.wf(),
{
}

/// The invariant survives a change of the policy store alone.
proof fn lemma_policies_changed(before: &Pallet, after: &Pallet)
    requires
        before.wf(),
        after.policies.wf(),
        after.user_attributes == before.user_attributes,
        after.record_policies == before.record_policies,
        after.max_attributes_per_user == before.max_attributes_per_user,
        after.max_policies_per_record == before.max_policies_per_record,
        forall|id: PolicyId| #[trigger]
            after@.policies.contains_key(id) ==> after@.policies[id].policy_id == id && 1
                <= after@.policies[id].conditions@.len() <= MAX_CONDITIONS_PER_POLICY,
    ensures
        after.wf(),
        after@ == before@.with_policies(after@.policies),
{
    assert(after@.attributes == before@.attributes);
    assert(after@.record_policies == before@.record_policies);
    assert(before@.wf());
}

/// The event `assign_attribute` reports.
pub open spec fn is_assigned_event(e: Event, user: AccountId, key: Seq<u8>, by: AccountId) -> bool {
    match e {
        Event::AttributeAssigned { user: u, attribute_key: k, assigned_by: b } => u == user && k@
            == key && b == by,
        _ => false,
    }
}

/// The attribute `assign_attribute` stores.
pub open spec fn assigned_attribute(
    who: AccountId,
    now: BlockNumber,
    attribute_key: AttributeKey,
    attribute_value: AttributeValue,
    attribute_type: u8,
    duration_blocks: Option<BlockNumber>,
) -> UserAttribute {
    UserAttribute {
        key: attribute_key,
        value: attribute_value,
        attribute_type: attribute_type_of(attribute_type),
        assigned_by: who,
        assigned_at: now,
        expires_at: expiry_after(now, duration_blocks),
    }
}

/// Position of the attribute named `key`.
fn find_key(attrs: &Vec<UserAttribute>, key: &AttributeKey) -> (r: Option<usize>)
    requires
        unique_keys(attrs@),
    ensures
        match r {
            Some(i) => i < attrs@.len() && attrs@[i as int].key@ == key@ && has_key(attrs@, key@)
                && key_position(attrs@, key@) == i,
            None => !has_key(attrs@, key@),
        },
{
    let mut i: usize = 0;
    while i < attrs.len()
        invariant
            unique_keys(attrs@),
            0 <= i <= attrs.len(),
            forall|j: int| 0 <= j < i ==> attrs@[j].key@ != key@,
        decreases attrs.len() - i,
    {
        if crate::evaluation::same_bytes(attrs[i].key.as_slice(), key.as_slice()) {
            assert(has_key(attrs@, key@));
            let ghost c = key_position(attrs@, key@);
            assert(c == i) by {
                assert(0 <= c < attrs@.len() && attrs@[c].key@ == key@);
                if c > i {
                    assert(attrs@[i as int].key@ != attrs@[c].key@);
                }
            }
            return Some(i);
        }
        i = i + 1;
    }
    None
}

/// Position of `id` in `ids`.
fn find_policy_id(ids: &Vec<PolicyId>, id: &PolicyId) -> (r: Option<usize>)
    requires
        ids@.no_duplicates(),
    ensures
        match r {
            Some(i) => i < ids@.len() && ids@[i as int] == *id && ids@.contains(*id) && ids@.index_of(*id) == i,
            None => !ids@.contains(*id),
        },
{
    let mut i: usize = 0;
    while i < ids.len()
        invariant
            ids@.no_duplicates(),
            0 <= i <= ids.len(),
            forall|j: int| 0 <= j < i ==> ids@[j] != *id,
        decreases ids.len() - i,
    {
        if ids[i].same_key(id) {
            assert(ids@.contains(*id));
            let ghost c = ids@.index_of(*id);
            assert(c == i) by {
                assert(0 <= c < ids@.len() && ids@[c] == *id);
                if c > i {
                    assert(ids@[i as int] != ids@[c]);
                }
            }
            return Some(i);
        }
        i = i + 1;
    }
    None
}

fn copy_bytes(v: &Vec<u8>) -> (r: Vec<u8>)
    ensures
        r@ == v@,
{
    let r = v.clone();
    assert(r@ =~= v@);
    r
}

/// The invariant survives a change of one subject's attributes.
proof fn lemma_attributes_changed(before: &Pallet, after: &Pallet, user: AccountId, v: Vec<UserAttribute>)
    requires
        before.wf(),
        after.user_attributes.wf(),
        after.policies == before.policies,
        after.record_policies == before.record_policies,
        after.max_attributes_per_user == before.max_attributes_per_user,
        after.max_policies_per_record == before.max_policies_per_record,
        after.user_attributes@ == before.user_attributes@.insert(user, v),
        v@.len() <= before.max_attributes_per_user,
        unique_keys(v@),
    ensures
        after.wf(),
        after@ == before@.with_attributes(user, v@),
{
    assert(after@.attributes =~= before@.attributes.insert(user, v@));
    assert(after@.record_policies == before@.record_policies);
    assert(before@.wf());
    assert(after@ == before@.with_attributes(user, v@));
    assert forall|u: AccountId| #[trigger] after@.attributes.contains_key(u) implies after@.attributes[u].len()
        <= after@.max_attributes_per_user && unique_keys(after@.attributes[u]) by {
        if u != user {
            assert(before@.attributes.contains_key(u));
        }
    }
}

/// The invariant survives a change of one record's attachments.
proof fn lemma_record_policies_changed(before: &Pallet, after: &Pallet, record_id: RecordId, v: Vec<PolicyId>)
    requires
        before.wf(),
        after.record_policies.wf(),
        after.policies == before.policies,
        after.user_attributes == before.user_attributes,
        after.max_attributes_per_user == before.max_attributes_per_user,
        after.max_policies_per_record == before.max_policies_per_record,
        after.record_policies@ == before.record_policies@.insert(record_id, v),
        v@.len() <= before.max_policies_per_record,
        v@.no_duplicates(),
    ensures
        after.wf(),
        after@ == before@.with_record_policies(record_id, v@),
{
    assert(after@.record_policies =~= before@.record_policies.insert(record_id, v@));
    assert(after@.attributes == before@.attributes);
    assert(before@.wf());
    assert(after@ == before@.with_record_policies(record_id, v@));
    assert forall|r: RecordId| #[trigger] after@.record_policies.contains_key(r) implies after@.record_policies[r].len()
        <= after@.max_policies_per_record && after@.record_policies[r].no_duplicates() by {
        if r != record_id {
            assert(before@.record_policies.contains_key(r));
        }
    }
}

impl Pallet {
    pub closed spec fn wf(&self) -> bool {
        &&& self.policies.wf()
        &&& self.user_attributes.wf()
        &&& self.record_policies.wf()
        &&& self@.wf()
    }

    /// Empty stores with the given capacities.
    pub fn new(config: Config) -> (r: Pallet)
        ensures
            r.wf(),
            r@.policies == Map::<PolicyId, AccessPolicy>::empty(),
            r@.attributes == Map::<AccountId, Seq<UserAttribute>>::empty(),
            r@.record_policies == Map::<RecordId, Seq<PolicyId>>::empty(),
            r@.max_policies_per_record == config.max_policies_per_record,
            r@.max_attributes_per_user == config.max_attributes_per_user,
    {
        let r = Pallet {
            policies: Table::new(),
            user_attributes: Table::new(),
            record_policies: Table::new(),
            max_policies_per_record: config.max_policies_per_record,
            max_attributes_per_user: config.max_attributes_per_user,
        };
        assert(r@.attributes =~= Map::<AccountId, Seq<UserAttribute>>::empty());
        assert(r@.record_policies =~= Map::<RecordId, Seq<PolicyId>>::empty());
        r
    }

    /// Creates an active policy with one condition, owned by `who`.
    ///
    /// Fails with `PolicyAlreadyExists` when the identifier is taken, and with
    /// `InvalidPolicy` when the effect, mode or operator code names no variant.
    /// A time to live makes the policy expire that many blocks after `now`.
    pub fn create_policy(
        &mut self,
        who: AccountId,
        now: BlockNumber,
        policy_id: PolicyId,
        name: Vec<u8>,
        effect: u8,
        mode: u8,
        attribute_key: AttributeKey,
        operator: u8,
        value: AttributeValue,
        duration_blocks: Option<BlockNumber>,
    ) -> (r: Result<Event, Error>)
        requires
            old(self).wf(),
        ensures
            final(self).wf(),
            r is Ok <==> (!old(self)@.policies.contains_key(policy_id) && effect_code(effect) is Some
                && mode_code(mode) is Some && operator_code(operator) is Some),
            old(self)@.policies.contains_key(policy_id) ==> r == Err::<Event, Error>(
                Error::PolicyAlreadyExists,
            ),
            !old(self)@.policies.contains_key(policy_id) && (effect_code(effect) is None
                || mode_code(mode) is None || operator_code(operator) is None) ==> r == Err::<
                Event,
                Error,
            >(Error::InvalidPolicy),
            r is Err ==> final(self)@ == old(self)@,
            r is Ok ==> {
                &&& r == Ok::<Event, Error>((Event::PolicyCreated { policy_id, creator: who }))
                &&& final(self)@ == old(self)@.with_policies(
                    old(self)@.policies.insert(policy_id, final(self)@.policies[policy_id]),
                )
                &&& is_created_policy(
                    final(self)@.policies[policy_id],
                    policy_id,
                    name,
                    who,
                    effect,
                    mode,
                    (PolicyCondition {
                        attribute_key,
                        operator: operator_code(operator)->Some_0,
                        value,
                    }),
                    now,
                    duration_blocks,
                )
            },
    {
        proof {
            lemma_view_wf(self);
        }
        if self.policies.contains_key(&policy_id) {
            return Err(Error::PolicyAlreadyExists);
        }
        let effect = match PolicyEffect::decode(effect) {
            Some(e) => e,
            None => return Err(Error::InvalidPolicy),
        };
        let mode = match PolicyMode::decode(mode) {
            Some(m) => m,
            None => return Err(Error::InvalidPolicy),
        };
        let operator = match ConditionOperator::decode(operator) {
            Some(op) => op,
            None => return Err(Error::InvalidPolicy),
        };
        let expires_at = expiry_from(now, duration_blocks);
        let condition = PolicyCondition { attribute_key, operator, value };
        let mut conditions: Vec<PolicyCondition> = Vec::new();
        conditions.push(condition);
        let policy = AccessPolicy {
            policy_id,
            name,
            creator: who,
            effect,
            mode,
            conditions,
            created_at: now,
            expires_at,
            is_active: true,
        };
        let ghost created = policy;
        self.policies.insert(policy_id, policy);
        assert forall|id: PolicyId| #[trigger] self@.policies.contains_key(id) implies self@.policies[id].policy_id == id
            && 1 <= self@.policies[id].conditions@.len() <= MAX_CONDITIONS_PER_POLICY by {
            if id != policy_id {
                assert(old(self)@.policies.contains_key(id));
            } else {
                assert(created.conditions@.len() == 1);
            }
        }
        proof {
            lemma_policies_changed(old(self), self);
        }
        Ok(Event::PolicyCreated { policy_id, creator: who })
    }

    /// Sets a policy's active flag; only its creator may.
    pub fn update_policy(&mut self, who: AccountId, policy_id: PolicyId, is_active: bool) -> (r: Result<Event, Error>)
        requires
            old(self).wf(),
        ensures
            final(self).wf(),
            r is Ok <==> (old(self)@.policies.contains_key(policy_id)
                && old(self)@.policies[policy_id].creator == who),
            !old(self)@.policies.contains_key(policy_id) ==> r == Err::<Event, Error>(
                Error::PolicyNotFound,
            ),
            old(self)@.policies.contains_key(policy_id) && old(self)@.policies[policy_id].creator
                != who ==> r == Err::<Event, Error>(Error::NotAuthorized),
            r is Err ==> final(self)@ == old(self)@,
            r is Ok ==> {
                let p = old(self)@.policies[policy_id];
                &&& old(self)@.policies.contains_key(policy_id)
                &&& p.creator == who
                &&& r == Ok::<Event, Error>((Event::PolicyUpdated { policy_id, updated_by: who }))
                &&& final(self)@ == old(self)@.with_policies(
                    old(self)@.policies.insert(policy_id, (AccessPolicy { is_active, ..p })),
                )
            },
    {
        proof {
            lemma_view_wf(self);
        }
        let mut policy = match self.policies.remove(&policy_id) {
            Some(p) => p,
            None => {
                assert(self.policies@ =~= old(self).policies@);
                return Err(Error::PolicyNotFound);
            },
        };
        if policy.creator != who {
            self.policies.insert(policy_id, policy);
            assert(self.policies@ =~= old(self).policies@);
            return Err(Error::NotAuthorized);
        }
        policy.is_active = is_active;
        self.policies.insert(policy_id, policy);
        assert(self@.policies =~= old(self)@.policies.insert(policy_id, policy));
        assert forall|id: PolicyId| #[trigger] self@.policies.contains_key(id) implies self@.policies[id].policy_id == id
            && 1 <= self@.policies[id].conditions@.len() <= MAX_CONDITIONS_PER_POLICY by {
            assert(old(self)@.policies.contains_key(id));
        }
        proof {
            lemma_policies_changed(old(self), self);
        }
        Ok(Event::PolicyUpdated { policy_id, updated_by: who })
    }

    /// Removes a policy; only its creator may. Attachments to records stay.
    pub fn delete_policy(&mut self, who: AccountId, policy_id: PolicyId) -> (r: Result<Event, Error>)
        requires
            old(self).wf(),
        ensures
            final(self).wf(),
            r is Ok <==> (old(self)@.policies.contains_key(policy_id)
                && old(self)@.policies[policy_id].creator == who),
            !old(self)@.policies.contains_key(policy_id) ==> r == Err::<Event, Error>(
                Error::PolicyNotFound,
            ),
            old(self)@.policies.contains_key(policy_id) && old(self)@.policies[policy_id].creator
                != who ==> r == Err::<Event, Error>(Error::NotAuthorized),
            r is Err ==> final(self)@ == old(self)@,
            r is Ok ==> {
                &&& old(self)@.policies.contains_key(policy_id)
                &&& old(self)@.policies[policy_id].creator == who
                &&& r == Ok::<Event, Error>((Event::PolicyDeleted { policy_id }))
                &&& final(self)@ == old(self)@.with_policies(
                    old(self)@.policies.remove(policy_id),
                )
            },
    {
        proof {
            lemma_view_wf(self);
        }
        let creator = match self.policies.get(&policy_id) {
            Some(p) => p.creator,
            None => return Err(Error::PolicyNotFound),
        };
        if creator != who {
            return Err(Error::NotAuthorized);
        }
        let _ = self.policies.remove(&policy_id);
        assert forall|id: PolicyId| #[trigger] self@.policies.contains_key(id) implies self@.policies[id].policy_id == id
            && 1 <= self@.policies[id].conditions@.len() <= MAX_CONDITIONS_PER_POLICY by {
            assert(old(self)@.policies.contains_key(id));
        }
        proof {
            lemma_policies_changed(old(self), self);
        }
        Ok(Event::PolicyDeleted { policy_id })
    }

    /// Evaluates the stored policy `policy_id` for `user` at `now`; fails
    /// with `PolicyNotFound` when there is no such policy.
    pub fn evaluate_policy_internal(&self, policy_id: &PolicyId, user: &AccountId, now: BlockNumber) -> (r: Result<EvaluationResult, Error>)
        requires
            self.wf(),
        ensures
            r == self@.evaluation_of(*policy_id, *user, now),
    {
        let policy = match self.policies.get(policy_id) {
            Some(p) => p,
            None => return Err(Error::PolicyNotFound),
        };
        match self.user_attributes.get(user) {
            Some(attributes) => evaluate(policy, attributes.as_slice(), now),
            None => {
                let none: Vec<UserAttribute> = Vec::new();
                assert(none@ =~= self@.attributes_of(*user));
                evaluate(policy, none.as_slice(), now)
            },
        }
    }

    /// Evaluates a policy and reports the outcome's code; the evaluation's
    /// error, if any, is returned instead.
    pub fn evaluate_policy(&self, policy_id: PolicyId, user: AccountId, now: BlockNumber) -> (r: Result<Event, Error>)
        requires
            self.wf(),
        ensures
            r == match self@.evaluation_of(policy_id, user, now) {
                Ok(outcome) => Ok(
                    (Event::PolicyEvaluated { policy_id, user, result: result_code(outcome) }),
                ),
                Err(e) => Err::<Event, Error>(e),
            },
    {
        let outcome = self.evaluate_policy_internal(&policy_id, &user, now)?;
        Ok(Event::PolicyEvaluated { policy_id, user, result: outcome.code() })
    }

    /// Whether `user` may access the record at `now`.
    ///
    /// With no policy attached access is open. Otherwise every attached
    /// policy is evaluated; those that fail count for neither side, and the
    /// result is that some policy allows and none denies.
    pub fn check_record_access(&self, record_id: &RecordId, user: &AccountId, now: BlockNumber) -> (r: bool)
        requires
            self.wf(),
        ensures
            r == self@.access_granted(*record_id, *user, now),
    {
        let ids = match self.record_policies.get(record_id) {
            Some(ids) => ids,
            None => return true,
        };
        if ids.len() == 0 {
            return true;
        }
        let ghost state = self@;
        let mut has_allow = false;
        let mut has_deny = false;
        let mut i: usize = 0;
        while i < ids.len()
            invariant
                self.wf(),
                state == self@,
                ids@ == state.policies_of(*record_id),
                0 <= i <= ids.len(),
                has_allow == exists|j: int|
                    0 <= j < i && #[trigger] state.evaluation_of(ids@[j], *user, now) == Ok::<
                        EvaluationResult,
                        Error,
                    >(EvaluationResult::Allow),
                has_deny == exists|j: int|
                    0 <= j < i && #[trigger] state.evaluation_of(ids@[j], *user, now) == Ok::<
                        EvaluationResult,
                        Error,
                    >(EvaluationResult::Deny),
            decreases ids.len() - i,
        {
            let outcome = self.evaluate_policy_internal(&ids[i], user, now);
            match outcome {
                Ok(EvaluationResult::Allow) => {
                    has_allow = true;
                },
                Ok(EvaluationResult::Deny) => {
                    has_deny = true;
                },
                _ => {},
            }
            i = i + 1;
        }
        has_allow && !has_deny
    }

    /// Assigns an attribute to `user`, overwriting the value of the same key
    /// in place; a new key joins the end of the subject's key index.
    ///
    /// Fails with `TooManyAttributes` when the key is new and the subject
    /// already holds as many attributes as allowed.
    pub fn assign_attribute(
        &mut self,
        who: AccountId,
        now: BlockNumber,
        user: AccountId,
        attribute_key: AttributeKey,
        attribute_value: AttributeValue,
        attribute_type: u8,
        duration_blocks: Option<BlockNumber>,
    ) -> (r: Result<Event, Error>)
        requires
            old(self).wf(),
        ensures
            final(self).wf(),
            r is Ok <==> (has_key(old(self)@.attributes_of(user), attribute_key@) || old(
                self,
            )@.attributes_of(user).len() < old(self)@.max_attributes_per_user),
            r is Err ==> r == Err::<Event, Error>(Error::TooManyAttributes) && final(self)@ == old(
                self,
            )@,
            r is Ok ==> is_assigned_event(r->Ok_0, user, attribute_key@, who) && final(self)@ == old(
                self,
            )@.with_attributes(
                user,
                upsert_attribute(
                    old(self)@.attributes_of(user),
                    assigned_attribute(
                        who,
                        now,
                        attribute_key,
                        attribute_value,
                        attribute_type,
                        duration_blocks,
                    ),
                ),
            ),
    {
        proof {
            lemma_view_wf(self);
        }
        let position = match self.user_attributes.get(&user) {
            Some(attrs) => {
                assert(old(self)@.attributes_of(user) == attrs@);
                let position = find_key(attrs, &attribute_key);
                if position.is_none() && attrs.len() >= self.max_attributes_per_user as usize {
                    return Err(Error::TooManyAttributes);
                }
                position
            },
            None => {
                if self.max_attributes_per_user == 0 {
                    return Err(Error::TooManyAttributes);
                }
                None
            },
        };
        let mut attrs = match self.user_attributes.remove(&user) {
            Some(attrs) => attrs,
            None => Vec::new(),
        };
        assert(attrs@ == old(self)@.attributes_of(user));
        let event_key = copy_bytes(&attribute_key);
        let attribute = UserAttribute {
            key: attribute_key,
            value: attribute_value,
            attribute_type: AttributeType::from(attribute_type),
            assigned_by: who,
            assigned_at: now,
            expires_at: expiry_from(now, duration_blocks),
        };
        let ghost before = attrs@;
        let ghost assigned = attribute;
        match position {
            Some(i) => {
                attrs.set(i, attribute);
            },
            None => {
                attrs.push(attribute);
            },
        }
        assert(attrs@ == upsert_attribute(before, assigned));
        assert(unique_keys(attrs@)) by {
            assert forall|i: int, j: int| 0 <= i < j < attrs@.len() implies attrs@[i].key@ != attrs@[j].key@ by {
                if position is None && j == attrs@.len() - 1 {
                    assert(before[i].key@ != assigned.key@);
                }
            }
        }
        self.user_attributes.insert(user, attrs);
        assert(self.user_attributes@ =~= old(self).user_attributes@.insert(user, attrs));
        proof {
            lemma_attributes_changed(old(self), self, user, attrs);
        }
        Ok(Event::AttributeAssigned { user, attribute_key: event_key, assigned_by: who })
    }

    /// Revokes the attribute `attribute_key` of `user`; any signed caller may.
    /// The subject's last attribute moves into the freed place.
    ///
    /// Fails with `AttributeNotFound` when the subject holds no such attribute.
    pub fn revoke_attribute(&mut self, user: AccountId, attribute_key: AttributeKey) -> (r: Result<Event, Error>)
        requires
            old(self).wf(),
        ensures
            final(self).wf(),
            r is Ok <==> has_key(old(self)@.attributes_of(user), attribute_key@),
            r is Err ==> r == Err::<Event, Error>(Error::AttributeNotFound) && final(self)@ == old(
                self,
            )@,
            r is Ok ==> r == Ok::<Event, Error>((Event::AttributeRevoked { user, attribute_key }))
                && final(self)@ == old(self)@.with_attributes(
                user,
                remove_attribute(old(self)@.attributes_of(user), attribute_key@),
            ),
    {
        proof {
            lemma_view_wf(self);
        }
        let position = match self.user_attributes.get(&user) {
            Some(attrs) => {
                assert(old(self)@.attributes_of(user) == attrs@);
                find_key(attrs, &attribute_key)
            },
            None => None,
        };
        let i = match position {
            Some(i) => i,
            None => return Err(Error::AttributeNotFound),
        };
        let mut attrs = match self.user_attributes.remove(&user) {
            Some(attrs) => attrs,
            None => Vec::new(),
        };
        let ghost before = attrs@;
        let _ = attrs.swap_remove(i);
        assert(attrs@ == remove_attribute(before, attribute_key@));
        assert(unique_keys(attrs@)) by {
            assert forall|a: int, b: int| 0 <= a < b < attrs@.len() implies attrs@[a].key@ != attrs@[b].key@ by {
                let last = before.len() - 1;
                if a == i {
                    assert(before[last].key@ != before[b].key@);
                } else if b == i {
                    assert(before[a].key@ != before[last].key@);
                }
            }
        }
        self.user_attributes.insert(user, attrs);
        assert(self.user_attributes@ =~= old(self).user_attributes@.insert(user, attrs));
        proof {
            lemma_attributes_changed(old(self), self, user, attrs);
        }
        Ok(Event::AttributeRevoked { user, attribute_key })
    }

    /// Attaches a policy to a record; only the record's owner may.
    /// `record_owner` is the owner the record registry holds, `None` when the
    /// record does not exist. Attaching an attached policy changes nothing.
    ///
    /// Fails with `RecordNotFound`, `NotAuthorized`, `PolicyNotFound`, or
    /// `TooManyPolicies` when the record already holds as many as allowed.
    pub fn attach_policy_to_record(
        &mut self,
        who: AccountId,
        record_id: RecordId,
        record_owner: Option<AccountId>,
        policy_id: PolicyId,
    ) -> (r: Result<Event, Error>)
        requires
            old(self).wf(),
        ensures
            final(self).wf(),
            r is Ok <==> (record_owner == Some(who) && old(self)@.policies.contains_key(policy_id)
                && (old(self)@.policies_of(record_id).contains(policy_id) || old(
                self,
            )@.policies_of(record_id).len() < old(self)@.max_policies_per_record)),
            record_owner is None ==> r == Err::<Event, Error>(Error::RecordNotFound),
            record_owner is Some && record_owner != Some(who) ==> r == Err::<Event, Error>(
                Error::NotAuthorized,
            ),
            record_owner == Some(who) && !old(self)@.policies.contains_key(policy_id) ==> r == Err::<
                Event,
                Error,
            >(Error::PolicyNotFound),
            record_owner == Some(who) && old(self)@.policies.contains_key(policy_id) && !old(
                self,
            )@.policies_of(record_id).contains(policy_id) && old(self)@.policies_of(record_id).len()
                >= old(self)@.max_policies_per_record ==> r == Err::<Event, Error>(
                Error::TooManyPolicies,
            ),
            r is Err ==> final(self)@ == old(self)@,
            r is Ok ==> r == Ok::<Event, Error>(
                (Event::PolicyAttachedToRecord { record_id, policy_id }),
            ) && final(self)@ == if old(self)@.policies_of(record_id).contains(policy_id) {
                old(self)@
            } else {
                old(self)@.with_record_policies(
                    record_id,
                    old(self)@.policies_of(record_id).push(policy_id),
                )
            },
    {
        proof {
            lemma_view_wf(self);
        }
        match record_owner {
            Some(owner) => {
                if owner != who {
                    return Err(Error::NotAuthorized);
                }
            },
            None => return Err(Error::RecordNotFound),
        }
        if !self.policies.contains_key(&policy_id) {
            return Err(Error::PolicyNotFound);
        }
        match self.record_policies.get(&record_id) {
            Some(ids) => {
                assert(ids@ == old(self)@.policies_of(record_id));
                if find_policy_id(ids, &policy_id).is_some() {
                    return Ok(Event::PolicyAttachedToRecord { record_id, policy_id });
                }
                if ids.len() >= self.max_policies_per_record as usize {
                    return Err(Error::TooManyPolicies);
                }
            },
            None => {
                if self.max_policies_per_record == 0 {
                    return Err(Error::TooManyPolicies);
                }
            },
        }
        let mut ids = match self.record_policies.remove(&record_id) {
            Some(ids) => ids,
            None => Vec::new(),
        };
        assert(ids@ == old(self)@.policies_of(record_id));
        let ghost before = ids@;
        ids.push(policy_id);
        assert(ids@.no_duplicates()) by {
            assert forall|a: int, b: int| 0 <= a < ids@.len() && 0 <= b < ids@.len() && a != b implies ids@[a] != ids@[b] by {
                if a == before.len() {
                    assert(!before.contains(policy_id));
                    assert(before[b] != policy_id);
                } else if b == before.len() {
                    assert(before[a] != policy_id);
                }
            }
        }
        self.record_policies.insert(record_id, ids);
        assert(self.record_policies@ =~= old(self).record_policies@.insert(record_id, ids));
        proof {
            lemma_record_policies_changed(old(self), self, record_id, ids);
        }
        Ok(Event::PolicyAttachedToRecord { record_id, policy_id })
    }

    /// Detaches a policy from a record; only the record's owner may.
    /// The record's last policy moves into the freed place; detaching a
    /// policy that is not attached changes nothing.
    ///
    /// Fails with `RecordNotFound` or `NotAuthorized`.
    pub fn detach_policy_from_record(
        &mut self,
        who: AccountId,
        record_id: RecordId,
        record_owner: Option<AccountId>,
        policy_id: PolicyId,
    ) -> (r: Result<Event, Error>)
        requires
            old(self).wf(),
        ensures
            final(self).wf(),
            r is Ok <==> record_owner == Some(who),
            record_owner is None ==> r == Err::<Event, Error>(Error::RecordNotFound),
            record_owner is Some && record_owner != Some(who) ==> r == Err::<Event, Error>(
                Error::NotAuthorized,
            ),
            r is Err ==> final(self)@ == old(self)@,
            r is Ok ==> r == Ok::<Event, Error>(
                (Event::PolicyDetachedFromRecord { record_id, policy_id }),
            ) && final(self)@ == if old(self)@.policies_of(record_id).contains(policy_id) {
                old(self)@.with_record_policies(
                    record_id,
                    remove_policy_id(old(self)@.policies_of(record_id), policy_id),
                )
            } else {
                old(self)@
            },
    {
        proof {
            lemma_view_wf(self);
        }
        match record_owner {
            Some(owner) => {
                if owner != who {
                    return Err(Error::NotAuthorized);
                }
            },
            None => return Err(Error::RecordNotFound),
        }
        let position = match self.record_policies.get(&record_id) {
            Some(ids) => {
                assert(ids@ == old(self)@.policies_of(record_id));
                find_policy_id(ids, &policy_id)
            },
            None => None,
        };
        let i = match position {
            Some(i) => i,
            None => return Ok(Event::PolicyDetachedFromRecord { record_id, policy_id }),
        };
        let mut ids = match self.record_policies.remove(&record_id) {
            Some(ids) => ids,
            None => Vec::new(),
        };
        let ghost before = ids@;
        let _ = ids.swap_remove(i);
        assert(ids@ == remove_policy_id(before, policy_id));
        assert(ids@.no_duplicates()) by {
            assert forall|a: int, b: int| 0 <= a < ids@.len() && 0 <= b < ids@.len() && a != b implies ids@[a] != ids@[b] by {
                let last = before.len() - 1;
                if a == i {
                    assert(before[last] != before[b]);
                } else if b == i {
                    assert(before[a] != before[last]);
                }
            }
        }
        self.record_policies.insert(record_id, ids);
        assert(self.record_policies@ =~= old(self).record_policies@.insert(record_id, ids));
        proof {
            lemma_record_policies_changed(old(self), self, record_id, ids);
        }
        Ok(Event::PolicyDetachedFromRecord { record_id, policy_id })
    }

    /// The subject's attributes, in the order of its key index.
    pub fn get_user_attributes(&self, user: &AccountId) -> (r: &[UserAttribute])
        requires
            self.wf(),
        ensures
            r@ == self@.attributes_of(*user),
    {
        match self.user_attributes.get(user) {
            Some(attrs) => attrs.as_slice(),
            None => {
                let none: &[UserAttribute] = &[];
                assert(none@ =~= self@.attributes_of(*user));
                none
            },
        }
    }

    /// The stored policy `policy_id`, if any.
    pub fn policies(&self, policy_id: &PolicyId) -> (r: Option<&AccessPolicy>)
        requires
            self.wf(),
        ensures
            match r {
                Some(p) => self@.policies.contains_key(*policy_id) && *p == self@.policies[*policy_id],
                None => !self@.policies.contains_key(*policy_id),
            },
    {
        self.policies.get(policy_id)
    }

    /// The subject's attribute named `attribute_key`, if any.
    pub fn user_attributes(&self, user: &AccountId, attribute_key: &AttributeKey) -> (r: Option<&UserAttribute>)
        requires
            self.wf(),
        ensures
            match r {
                Some(a) => find_attribute(self@.attributes_of(*user), attribute_key@) == Some(*a),
                None => find_attribute(self@.attributes_of(*user), attribute_key@) is None,
            },
    {
        lookup_attribute(self.get_user_attributes(user), attribute_key.as_slice())
    }

    /// The subject's key index.
    pub fn user_attribute_keys(&self, user: &AccountId) -> (r: Vec<AttributeKey>)
        requires
            self.wf(),
        ensures
            r@.map_values(|k: AttributeKey| k@) == keys_of(self@.attributes_of(*user)),
    {
        let attrs = self.get_user_attributes(user);
        let mut keys: Vec<AttributeKey> = Vec::new();
        let mut i: usize = 0;
        while i < attrs.len()
            invariant
                0 <= i <= attrs@.len(),
                keys@.len() == i,
                forall|j: int| 0 <= j < i ==> (#[trigger] keys@[j])@ == attrs@[j].key@,
            decreases attrs.len() - i,
        {
            keys.push(copy_bytes(&attrs[i].key));
            i = i + 1;
        }
        assert(keys@.map_values(|k: AttributeKey| k@) =~= keys_of(attrs@));
        keys
    }

    /// The policies attached to a record.
    pub fn record_policies(&self, record_id: &RecordId) -> (r: Vec<PolicyId>)
        requires
            self.wf(),
        ensures
            r@ == self@.policies_of(*record_id),
    {
        let mut out: Vec<PolicyId> = Vec::new();
        match self.record_policies.get(record_id) {
            Some(ids) => {
                let mut i: usize = 0;
                while i < ids.len()
                    invariant
                        0 <= i <= ids@.len(),
                        out@ == ids@.subrange(0, i as int),
                    decreases ids.len() - i,
                {
                    out.push(ids[i]);
                    assert(out@ =~= ids@.subrange(0, i + 1));
                    i = i + 1;
                }
                assert(out@ =~= ids@);
            },
            None => {
                assert(out@ =~= self@.policies_of(*record_id));
            },
        }
        out
    }

    /// Capacities the stores were made with.
    pub fn config(&self) -> (r: Config)
        ensures
            r.max_policies_per_record == self@.max_policies_per_record,
            r.max_attributes_per_user == self@.max_attributes_per_user,
    {
        Config {
            max_policies_per_record: self.max_policies_per_record,
            max_attributes_per_user: self.max_attributes_per_user,
        }
    }
}

} // verus!
