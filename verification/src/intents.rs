use vstd::prelude::*;
use crate::account::AccountId;
use crate::errors::OnClickContractError;
use crate::encoding::bytes_eq;
use crate::encoding::copy_bytes;
use crate::encoding::encode_intent_seed;
use crate::encoding::intent_seed;
use crate::encoding::keccak_bytes;
use crate::encoding::keccak_of;
use crate::fees::spec_fee;
use crate::fees::spec_net;
use crate::fees::split_fee;
use crate::ledger::ContractV;
use crate::ledger::OnClickContract;
use crate::ledger::has_intent;
use crate::ledger::has_page_owner;
use crate::ledger::intent_idx;
use crate::ledger::page_idx_by_owner;
use crate::ledger::wf_intent;
use crate::ledger::wf_state;
use crate::records::IntentV;
use crate::records::PaymentIntent;
use crate::records::Settlement;
use crate::records::TxRecord;
use crate::settle::appended_tx;
use crate::settle::credit_page;
use crate::settle::support_post;
use crate::settle::support_result;

verus! {

/// Which check `create_payment_intent` fails on: a caller without a page, a
/// zero amount, or a zero expiry window — in that order.
pub open spec fn create_intent_err(
    s: ContractV,
    caller: AccountId,
    amount: u128,
    expires_in_seconds: u64,
) -> Option<OnClickContractError> {
    if !has_page_owner(s, caller) {
        Some(OnClickContractError::PageNotFound)
    } else if amount == 0 {
        Some(OnClickContractError::InvalidAmount)
    } else if expires_in_seconds == 0 {
        Some(OnClickContractError::InvalidExpiration)
    } else {
        None
    }
}

/// The intent a successful creation stores: its identifier is the keccak-256
/// digest of the creator, the time, the amount, and the count of intents so
/// far as a nonce; it snapshots the creator's handle and expires exactly
/// `expires_in_seconds` after `now`.
pub open spec fn fresh_intent(
    s: ContractV,
    caller: AccountId,
    now: u64,
    amount: u128,
    description: Seq<u8>,
    expires_in_seconds: u64,
    max_usages: u64,
) -> IntentV {
    IntentV {
        id: keccak_of(intent_seed(caller, now, amount, s.intents.len() as u64)),
        creator: caller,
        handle: s.pages[page_idx_by_owner(s, caller)].handle,
        amount: amount,
        description: description,
        active: true,
        created_at: now,
        expires_at: (now + expires_in_seconds) as u128,
        usage_count: 0,
        max_usages: max_usages,
    }
}

/// The state after a successful creation: the fresh intent joins the store,
/// replacing any record that already carried the derived identifier.
pub open spec fn create_intent_post(
    s: ContractV,
    caller: AccountId,
    now: u64,
    amount: u128,
    description: Seq<u8>,
    expires_in_seconds: u64,
    max_usages: u64,
) -> ContractV {
    let nv = fresh_intent(s, caller, now, amount, description, expires_in_seconds, max_usages);
    if has_intent(s, nv.id) {
        ContractV { intents: s.intents.update(intent_idx(s, nv.id), nv), ..s }
    } else {
        ContractV { intents: s.intents.push(nv), ..s }
    }
}

/// Which check `pay_intent` fails on: a zero attached amount, an unknown
/// identifier, a cancelled intent, an expired intent (payment at the expiry
/// second itself still passes), an exhausted usage cap, an attached amount
/// that misses the declared one, an inactive creator page, or a credit that
/// would leave the accounting range — in that order.
pub open spec fn pay_err(s: ContractV, value: u128, now: u64, id: Seq<u8>) -> Option<
    OnClickContractError,
> {
    if value == 0 {
        Some(OnClickContractError::InvalidAmount)
    } else if !has_intent(s, id) {
        Some(OnClickContractError::PaymentIntentNotFound)
    } else {
        let nt = s.intents[intent_idx(s, id)];
        if !nt.active {
            Some(OnClickContractError::PaymentIntentInactive)
        } else if (now as u128) > nt.expires_at {
            Some(OnClickContractError::PaymentIntentExpired)
        } else if nt.max_usages != 0 && nt.usage_count >= nt.max_usages {
            Some(OnClickContractError::PaymentIntentMaxUsages)
        } else if value != nt.amount {
            Some(OnClickContractError::InvalidAmount)
        } else {
            let p = s.pages[page_idx_by_owner(s, nt.creator)];
            if !p.active {
                Some(OnClickContractError::PageNotActive)
            } else if p.raised + spec_net(value as int, s.fee_bps as int) > u128::MAX {
                Some(OnClickContractError::InvalidAmount)
            } else if s.fees_collected + spec_fee(value as int, s.fee_bps as int) > u128::MAX {
                Some(OnClickContractError::InvalidAmount)
            } else {
                None
            }
        }
    }
}

/// The intent store after one successful payment: a capped intent's usage
/// count grows by one; an unlimited one is unchanged.
pub open spec fn pay_bump(s: ContractV, id: Seq<u8>) -> ContractV {
    let k = intent_idx(s, id);
    let nt = s.intents[k];
    let used = if nt.max_usages != 0 {
        (nt.usage_count + 1) as u64
    } else {
        nt.usage_count
    };
    ContractV { intents: s.intents.update(k, IntentV { usage_count: used, ..nt }), ..s }
}

/// The state after a successful payment: the usage bump, then the same
/// settlement a donation performs, credited to the intent's creator page.
pub open spec fn pay_post(
    s: ContractV,
    caller: AccountId,
    value: u128,
    now: u64,
    id: Seq<u8>,
    message: Seq<u8>,
) -> ContractV {
    let i = page_idx_by_owner(s, s.intents[intent_idx(s, id)].creator);
    support_post(pay_bump(s, id), caller, value, now, i, message)
}

impl OnClickContract {
    /// Create a reusable payment request for the caller's page: anyone may
    /// later pay exactly `amount` against it until it expires, is cancelled,
    /// or reaches `max_usages` payments (zero meaning no cap). Returns the
    /// derived 32-byte identifier.
    pub fn create_payment_intent(
        &mut self,
        caller: AccountId,
        now: u64,
        amount: u128,
        description: Vec<u8>,
        expires_in_seconds: u64,
        max_usages: u64,
    ) -> (r: Result<Vec<u8>, OnClickContractError>)
        requires
            old(self).wf(),
        ensures
            final(self).wf(),
            match r {
                Ok(id) => create_intent_err(old(self)@, caller, amount, expires_in_seconds)
                    is None && id@ == fresh_intent(
                    old(self)@,
                    caller,
                    now,
                    amount,
                    description@,
                    expires_in_seconds,
                    max_usages,
                ).id && final(self)@ == create_intent_post(
                    old(self)@,
                    caller,
                    now,
                    amount,
                    description@,
                    expires_in_seconds,
                    max_usages,
                ),
                Err(e) => Some(e) == create_intent_err(
                    old(self)@,
                    caller,
                    amount,
                    expires_in_seconds,
                ) && final(self)@ == old(self)@,
            },
    {
        let i = match self.find_page_by_owner(caller) {
            None => { return Err(OnClickContractError::PageNotFound) },
            Some(i) => i,
        };
        if amount == 0 {
            return Err(OnClickContractError::InvalidAmount);
        }
        if expires_in_seconds == 0 {
            return Err(OnClickContractError::InvalidExpiration);
        }
        let ghost s0 = self@;
        let nonce: u64 = self.intents.len() as u64;
        let seed = encode_intent_seed(caller, now, amount, nonce);
        let id = keccak_bytes(&seed);
        let id_out = copy_bytes(&id);
        let handle = copy_bytes(&self.pages[i].handle);
        let expires_at: u128 = (now as u128) + (expires_in_seconds as u128);
        let intent = PaymentIntent {
            id,
            creator: caller,
            handle,
            amount,
            description,
            active: true,
            created_at: now,
            expires_at,
            usage_count: 0,
            max_usages,
        };
        let ghost nv = fresh_intent(
            s0,
            caller,
            now,
            amount,
            intent@.description,
            expires_in_seconds,
            max_usages,
        );
        proof {
            assert(intent@ =~= nv);
        }
        match self.find_intent(&intent.id) {
            Some(k) => {
                self.intents[k] = intent;
                proof {
                    assert(self@.intents =~= s0.intents.update(intent_idx(s0, nv.id), nv));
                    assert(self@ =~= create_intent_post(
                        s0,
                        caller,
                        now,
                        amount,
                        nv.description,
                        expires_in_seconds,
                        max_usages,
                    ));
                    lemma_wf_intent_update(s0, intent_idx(s0, nv.id), nv);
                }
            },
            None => {
                self.intents.push(intent);
                proof {
                    assert(self@.intents =~= s0.intents.push(nv));
                    assert(self@ =~= create_intent_post(
                        s0,
                        caller,
                        now,
                        amount,
                        nv.description,
                        expires_in_seconds,
                        max_usages,
                    ));
                    lemma_wf_intent_push(s0, nv);
                }
            },
        }
        Ok(id_out)
    }

    /// Pay the declared amount against the intent `intent_id`; any caller
    /// may. On success the returned settlement names the intent's creator as
    /// payee and the net amount the host owes them.
    pub fn pay_intent(
        &mut self,
        caller: AccountId,
        value: u128,
        now: u64,
        intent_id: &Vec<u8>,
        message: Vec<u8>,
    ) -> (r: Result<Settlement, OnClickContractError>)
        requires
            old(self).wf(),
        ensures
            final(self).wf(),
            match r {
                Ok(st) => pay_err(old(self)@, value, now, intent_id@) is None && st
                    == support_result(
                    old(self)@,
                    value,
                    page_idx_by_owner(
                        old(self)@,
                        old(self)@.intents[intent_idx(old(self)@, intent_id@)].creator,
                    ),
                ) && final(self)@ == pay_post(old(self)@, caller, value, now, intent_id@, message@),
                Err(e) => Some(e) == pay_err(old(self)@, value, now, intent_id@)
                    && final(self)@ == old(self)@,
            },
    {
        if value == 0 {
            return Err(OnClickContractError::InvalidAmount);
        }
        let k = match self.find_intent(intent_id) {
            None => { return Err(OnClickContractError::PaymentIntentNotFound) },
            Some(k) => k,
        };
        if !self.intents[k].active {
            return Err(OnClickContractError::PaymentIntentInactive);
        }
        if (now as u128) > self.intents[k].expires_at {
            return Err(OnClickContractError::PaymentIntentExpired);
        }
        let maxu = self.intents[k].max_usages;
        if maxu != 0 && self.intents[k].usage_count >= maxu {
            return Err(OnClickContractError::PaymentIntentMaxUsages);
        }
        if !(value == self.intents[k].amount) {
            return Err(OnClickContractError::InvalidAmount);
        }
        let creator = self.intents[k].creator;
        proof {
            assert(wf_intent(self@, self@.intents[k as int]));
        }
        let i = match self.find_page_by_owner(creator) {
            None => {
                proof {
                    assert(false);
                }
                return Err(OnClickContractError::PageNotFound);
            },
            Some(i) => i,
        };
        if !self.pages[i].active {
            return Err(OnClickContractError::PageNotActive);
        }
        let (fee, net) = split_fee(value, self.fee_bps);
        if net > u128::MAX - self.pages[i].raised {
            return Err(OnClickContractError::InvalidAmount);
        }
        if fee > u128::MAX - self.fees_collected {
            return Err(OnClickContractError::InvalidAmount);
        }
        let ghost s0 = self@;
        let ghost msg = message@;
        if maxu != 0 {
            let uc = self.intents[k].usage_count;
            self.intents[k].usage_count = uc + 1;
        }
        let ghost s1 = pay_bump(s0, intent_id@);
        proof {
            if maxu == 0 {
                assert(IntentV { usage_count: s0.intents[k as int].usage_count, ..s0.intents[k as int] }
                    == s0.intents[k as int]);
                assert(self@.intents =~= s0.intents.update(k as int, s0.intents[k as int]));
            }
            assert(self@.intents =~= s1.intents);
            assert(self@ =~= s1);
        }
        let tx_id = self.transactions.len();
        let payee = self.pages[i].owner;
        let role = self.pages[i].role;
        self.transactions.push(
            TxRecord {
                id: tx_id,
                from: caller,
                to: payee,
                amount: net,
                message,
                payee_role: role,
                product_id: None,
                timestamp: now,
                refunded: false,
            },
        );
        let n = self.transactions.len();
        proof {
            assert(self.pages[i as int].supporters < n <= usize::MAX);
        }
        let cur = self.pages[i].raised;
        self.pages[i].raised = cur + net;
        let sup = self.pages[i].supporters;
        self.pages[i].supporters = sup + 1;
        self.fees_collected = self.fees_collected + fee;
        proof {
            let ii = i as int;
            assert(self@.transactions =~= s1.transactions.push(
                appended_tx(s1, caller, s1.pages[ii].owner, net, msg, s1.pages[ii].role, None, now),
            ));
            assert(self@.pages =~= s1.pages.update(ii, credit_page(s1.pages[ii], net)));
            assert(self@ =~= support_post(s1, caller, value, now, ii, msg));
            assert(self@ =~= pay_post(s0, caller, value, now, intent_id@, msg));
            lemma_wf_pay(s0, caller, value, now, intent_id@, msg);
        }
        Ok(Settlement { tx_id, payee, net_amount: net, fee })
    }

    /// Deactivate the intent `intent_id`; only its creator may. Payments
    /// already recorded stand; no further ones are accepted.
    pub fn cancel_payment_intent(&mut self, caller: AccountId, intent_id: &Vec<u8>) -> (r: Result<
        (),
        OnClickContractError,
    >)
        requires
            old(self).wf(),
        ensures
            final(self).wf(),
            match r {
                Ok(_) => has_intent(old(self)@, intent_id@) && old(self)@.intents[intent_idx(
                    old(self)@,
                    intent_id@,
                )].creator == caller && final(self)@ == (ContractV {
                    intents: old(self)@.intents.update(
                        intent_idx(old(self)@, intent_id@),
                        IntentV {
                            active: false,
                            ..old(self)@.intents[intent_idx(old(self)@, intent_id@)]
                        },
                    ),
                    ..old(self)@
                }),
                Err(e) => final(self)@ == old(self)@ && (if !has_intent(old(self)@, intent_id@) {
                    e == OnClickContractError::PaymentIntentNotFound
                } else {
                    old(self)@.intents[intent_idx(old(self)@, intent_id@)].creator != caller && e
                        == OnClickContractError::NotPageOwner
                }),
            },
    {
        let k = match self.find_intent(intent_id) {
            None => { return Err(OnClickContractError::PaymentIntentNotFound) },
            Some(k) => k,
        };
        if !(self.intents[k].creator == caller) {
            return Err(OnClickContractError::NotPageOwner);
        }
        let ghost s0 = self@;
        let ghost nv = IntentV { active: false, ..s0.intents[k as int] };
        self.intents[k].active = false;
        proof {
            assert(wf_intent(s0, s0.intents[k as int]));
            assert(self@.intents =~= s0.intents.update(k as int, nv));
            assert(self@ =~= ContractV { intents: s0.intents.update(k as int, nv), ..s0 });
            lemma_wf_intent_update(s0, k as int, nv);
        }
        Ok(())
    }

    /// The full snapshot of the intent `intent_id`.
    pub fn get_payment_intent(&self, intent_id: &Vec<u8>) -> (r: Result<
        PaymentIntent,
        OnClickContractError,
    >)
        requires
            self.wf(),
        ensures
            match r {
                Ok(n) => has_intent(self@, intent_id@) && n@ == self@.intents[intent_idx(
                    self@,
                    intent_id@,
                )],
                Err(e) => e == OnClickContractError::PaymentIntentNotFound && !has_intent(
                    self@,
                    intent_id@,
                ),
            },
    {
        let k = match self.find_intent(intent_id) {
            None => { return Err(OnClickContractError::PaymentIntentNotFound) },
            Some(k) => k,
        };
        let n = &self.intents[k];
        let r = PaymentIntent {
            id: copy_bytes(&n.id),
            creator: n.creator,
            handle: copy_bytes(&n.handle),
            amount: n.amount,
            description: copy_bytes(&n.description),
            active: n.active,
            created_at: n.created_at,
            expires_at: n.expires_at,
            usage_count: n.usage_count,
            max_usages: n.max_usages,
        };
        proof {
            assert(r@ =~= self@.intents[k as int]);
        }
        Ok(r)
    }
}

/// The identifiers of the intents created under the handle `h`, in creation
/// order.
pub open spec fn intent_ids_for_handle(s: Seq<IntentV>, h: Seq<u8>) -> Seq<Seq<u8>>
    decreases s.len(),
{
    if s.len() == 0 {
        Seq::empty()
    } else {
        let rest = intent_ids_for_handle(s.drop_last(), h);
        if s.last().handle == h {
            rest.push(s.last().id)
        } else {
            rest
        }
    }
}

/// The identifiers of the intents created by `o`, in creation order.
pub open spec fn intent_ids_for_owner(s: Seq<IntentV>, o: AccountId) -> Seq<Seq<u8>>
    decreases s.len(),
{
    if s.len() == 0 {
        Seq::empty()
    } else {
        let rest = intent_ids_for_owner(s.drop_last(), o);
        if s.last().creator == o {
            rest.push(s.last().id)
        } else {
            rest
        }
    }
}

impl OnClickContract {
    /// The identifiers of all intents created under `handle`, in creation
    /// order.
    pub fn get_payment_intents_by_handle(&self, handle: &Vec<u8>) -> (r: Vec<Vec<u8>>)
        ensures
            r.deep_view() == intent_ids_for_handle(self@.intents, handle@),
    {
        let n = self.intents.len();
        let mut out: Vec<Vec<u8>> = Vec::new();
        let mut i: usize = 0;
        while i < n
            invariant
                n == self@.intents.len(),
                i <= n,
                out.deep_view() == intent_ids_for_handle(self@.intents.take(i as int), handle@),
            decreases n - i,
        {
            let ghost pre = out.deep_view();
            if bytes_eq(&self.intents[i].handle, handle) {
                out.push(copy_bytes(&self.intents[i].id));
                proof {
                    assert(out.deep_view() =~~= pre.push(self@.intents[i as int].id));
                }
            }
            proof {
                assert(self@.intents.take(i + 1).drop_last() =~= self@.intents.take(i as int));
                assert(self@.intents.take(i + 1).last() == self@.intents[i as int]);
            }
            i = i + 1;
        }
        proof {
            assert(self@.intents.take(n as int) =~= self@.intents);
        }
        out
    }

    /// The identifiers of all intents created by `user`, in creation order.
    pub fn get_payment_intents_by_address(&self, user: AccountId) -> (r: Vec<Vec<u8>>)
        ensures
            r.deep_view() == intent_ids_for_owner(self@.intents, user),
    {
        let n = self.intents.len();
        let mut out: Vec<Vec<u8>> = Vec::new();
        let mut i: usize = 0;
        while i < n
            invariant
                n == self@.intents.len(),
                i <= n,
                out.deep_view() == intent_ids_for_owner(self@.intents.take(i as int), user),
            decreases n - i,
        {
            let ghost pre = out.deep_view();
            if self.intents[i].creator == user {
                out.push(copy_bytes(&self.intents[i].id));
                proof {
                    assert(out.deep_view() =~~= pre.push(self@.intents[i as int].id));
                }
            }
            proof {
                assert(self@.intents.take(i + 1).drop_last() =~= self@.intents.take(i as int));
                assert(self@.intents.take(i + 1).last() == self@.intents[i as int]);
            }
            i = i + 1;
        }
        proof {
            assert(self@.intents.take(n as int) =~= self@.intents);
        }
        out
    }

    /// How many intents were created under `handle`.
    pub fn get_payment_intent_count_by_handle(&self, handle: &Vec<u8>) -> (r: usize)
        ensures
            r == intent_ids_for_handle(self@.intents, handle@).len(),
    {
        self.get_payment_intents_by_handle(handle).len()
    }

    /// How many intents were created by `user`.
    pub fn get_payment_intent_count_by_address(&self, user: AccountId) -> (r: usize)
        ensures
            r == intent_ids_for_owner(self@.intents, user).len(),
    {
        self.get_payment_intents_by_address(user).len()
    }
}

/// Appending a fresh intent whose identifier is not yet in the store keeps
/// the state well-formed.
pub proof fn lemma_wf_intent_push(s: ContractV, nv: IntentV)
    requires
        wf_state(s),
        nv.id.len() == 32,
        nv.usage_count == 0,
        has_page_owner(s, nv.creator),
        !has_intent(s, nv.id),
    ensures
        wf_state(ContractV { intents: s.intents.push(nv), ..s }),
{
    let s2 = ContractV { intents: s.intents.push(nv), ..s };
    let n = s.intents.len() as int;
    assert forall|a: int, b: int|
        0 <= a < b < s2.intents.len() implies (#[trigger] s2.intents[a]).id != (
    #[trigger] s2.intents[b]).id by {
        if b < n {
            assert(s.intents[a].id != s.intents[b].id);
        } else {
            assert(s2.intents[a] == s.intents[a]);
            if s.intents[a].id == nv.id {
                assert(has_intent(s, nv.id));
            }
        }
    }
    assert forall|a: int| 0 <= a < s2.intents.len() implies wf_intent(
        s2,
        #[trigger] s2.intents[a],
    ) by {
        if a < n {
            assert(wf_intent(s, s.intents[a]));
            let k = page_idx_by_owner(s, s.intents[a].creator);
            assert(s2.pages[k].owner == s.intents[a].creator);
            assert(has_page_owner(s2, s.intents[a].creator));
        } else {
            let k = page_idx_by_owner(s, nv.creator);
            assert(s2.pages[k].owner == nv.creator);
            assert(has_page_owner(s2, nv.creator));
        }
    }
}

/// Replacing an intent with one that keeps its identifier, respects its own
/// cap, stays within the transaction count, and names a registered creator
/// keeps the state well-formed.
pub proof fn lemma_wf_intent_update(s: ContractV, k: int, nv: IntentV)
    requires
        wf_state(s),
        0 <= k < s.intents.len(),
        nv.id == s.intents[k].id,
        nv.max_usages != 0 ==> nv.usage_count <= nv.max_usages,
        nv.usage_count <= s.transactions.len(),
        has_page_owner(s, nv.creator),
    ensures
        wf_state(ContractV { intents: s.intents.update(k, nv), ..s }),
{
    let s2 = ContractV { intents: s.intents.update(k, nv), ..s };
    assert forall|a: int, b: int|
        0 <= a < b < s2.intents.len() implies (#[trigger] s2.intents[a]).id != (
    #[trigger] s2.intents[b]).id by {
        assert(s.intents[a].id != s.intents[b].id);
    }
    assert forall|a: int| 0 <= a < s2.intents.len() implies wf_intent(
        s2,
        #[trigger] s2.intents[a],
    ) by {
        assert(wf_intent(s, s.intents[a]));
        if a == k {
            let j = page_idx_by_owner(s, nv.creator);
            assert(s2.pages[j].owner == nv.creator);
            assert(has_page_owner(s2, nv.creator));
        } else {
            let j = page_idx_by_owner(s, s.intents[a].creator);
            assert(s2.pages[j].owner == s.intents[a].creator);
            assert(has_page_owner(s2, s.intents[a].creator));
        }
    }
}

/// One successful intent payment keeps the state well-formed.
pub proof fn lemma_wf_pay(
    s: ContractV,
    caller: AccountId,
    value: u128,
    now: u64,
    id: Seq<u8>,
    message: Seq<u8>,
)
    requires
        wf_state(s),
        pay_err(s, value, now, id) is None,
        s.transactions.len() < usize::MAX,
    ensures
        wf_state(pay_post(s, caller, value, now, id, message)),
{
    let k = intent_idx(s, id);
    let nt = s.intents[k];
    assert(has_intent(s, id));
    assert(0 <= k < s.intents.len() && s.intents[k].id == id);
    assert(wf_intent(s, nt));
    let s1 = pay_bump(s, id);
    let used = if nt.max_usages != 0 {
        (nt.usage_count + 1) as u64
    } else {
        nt.usage_count
    };
    let i = page_idx_by_owner(s, nt.creator);
    assert(0 <= i < s.pages.len() && s.pages[i].owner == nt.creator);
    let s2 = pay_post(s, caller, value, now, id, message);
    assert(s2 == support_post(s1, caller, value, now, i, message));
    assert(s2.transactions.len() == s.transactions.len() + 1);
    assert forall|a: int, b: int|
        0 <= a < b < s2.pages.len() implies (#[trigger] s2.pages[a]).owner != (
    #[trigger] s2.pages[b]).owner && s2.pages[a].handle != s2.pages[b].handle by {
        assert(s.pages[a].owner != s.pages[b].owner && s.pages[a].handle != s.pages[b].handle);
    }
    assert forall|a: int| 0 <= a < s2.pages.len() implies (#[trigger] s2.pages[a]).handle.len() >= 3
        && s2.pages[a].supporters <= s2.transactions.len() by {
        assert(s.pages[a].handle.len() >= 3 && s.pages[a].supporters <= s.transactions.len());
    }
    assert forall|a: int| 0 <= a < s2.products.len() implies (#[trigger] s2.products[a]).id == a
        && s2.products[a].total_sold <= s2.transactions.len() by {
        assert(s.products[a].id == a && s.products[a].total_sold <= s.transactions.len());
    }
    assert forall|a: int| 0 <= a < s2.transactions.len() implies (#[trigger] s2.transactions[a]).id
        == a by {
        if a < s.transactions.len() {
            assert(s.transactions[a].id == a);
        }
    }
    assert forall|a: int, b: int|
        0 <= a < b < s2.intents.len() implies (#[trigger] s2.intents[a]).id != (
    #[trigger] s2.intents[b]).id by {
        assert(s.intents[a].id != s.intents[b].id);
    }
    assert forall|a: int| 0 <= a < s2.intents.len() implies wf_intent(
        s2,
        #[trigger] s2.intents[a],
    ) by {
        assert(wf_intent(s, s.intents[a]));
        if a == k {
            let j = page_idx_by_owner(s, nt.creator);
            assert(s2.pages[j].owner == nt.creator);
            assert(has_page_owner(s2, nt.creator));
        } else {
            let j = page_idx_by_owner(s, s.intents[a].creator);
            assert(s2.pages[j].owner == s.intents[a].creator);
            assert(has_page_owner(s2, s.intents[a].creator));
        }
    }
}

} // verus!
