use vstd::prelude::*;
use crate::account::AccountId;
use crate::errors::OnClickContractError;
use crate::intents::pay_err;
use crate::intents::pay_post;
use crate::ledger::ContractV;
use crate::ledger::has_intent;
use crate::ledger::has_page_handle;
use crate::ledger::intent_idx;
use crate::ledger::lemma_intent_idx;
use crate::ledger::page_idx_by_owner;
use crate::ledger::wf_state;
use crate::registry::register_err;
use crate::registry::register_post;

verus! {

/// Law: once a registration claims a handle, every later registration under
/// the same handle fails with `HandleAlreadyTaken` — whoever the second
/// caller is, the first caller included, and whatever role it asks for.
pub proof fn lemma_handle_uniqueness(
    s: ContractV,
    first_caller: AccountId,
    now: u64,
    handle: Seq<u8>,
    role_code: u8,
    name: Seq<u8>,
    metadata: Seq<u8>,
    second_caller: AccountId,
    second_role_code: u8,
)
    requires
        wf_state(s),
        register_err(s, first_caller, handle, role_code) is None,
    ensures
        register_err(
            register_post(s, first_caller, now, handle, role_code, name, metadata),
            second_caller,
            handle,
            second_role_code,
        ) == Some(OnClickContractError::HandleAlreadyTaken),
{
    let s2 = register_post(s, first_caller, now, handle, role_code, name, metadata);
    let n = s.pages.len() as int;
    assert(s2.pages[n].handle == handle);
    assert(has_page_handle(s2, handle));
}

/// Law: for a capped intent, a payment succeeds only while the usage count
/// is under the cap; each success raises the count by exactly one on the
/// same intent record; and once the count has reached the cap, a payment
/// that no earlier check turns away fails with `PaymentIntentMaxUsages`. So
/// an intent capped at N accepts exactly N payments before that error.
pub proof fn lemma_intent_usage_cap(
    s: ContractV,
    caller: AccountId,
    value: u128,
    now: u64,
    id: Seq<u8>,
    message: Seq<u8>,
)
    requires
        wf_state(s),
        has_intent(s, id),
        s.intents[intent_idx(s, id)].max_usages != 0,
    ensures
        pay_err(s, value, now, id) is None ==> s.intents[intent_idx(s, id)].usage_count
            < s.intents[intent_idx(s, id)].max_usages,
        pay_err(s, value, now, id) is None ==> {
            let s2 = pay_post(s, caller, value, now, id, message);
            &&& has_intent(s2, id)
            &&& intent_idx(s2, id) == intent_idx(s, id)
            &&& s2.intents[intent_idx(s2, id)].usage_count == s.intents[intent_idx(
                s,
                id,
            )].usage_count + 1
            &&& s2.intents[intent_idx(s2, id)].max_usages == s.intents[intent_idx(
                s,
                id,
            )].max_usages
        },
        value != 0 && s.intents[intent_idx(s, id)].active && (now as u128) <= s.intents[intent_idx(
            s,
            id,
        )].expires_at && s.intents[intent_idx(s, id)].usage_count >= s.intents[intent_idx(
            s,
            id,
        )].max_usages ==> pay_err(s, value, now, id) == Some(
            OnClickContractError::PaymentIntentMaxUsages,
        ),
        ({
            let nt = s.intents[intent_idx(s, id)];
            let p = s.pages[page_idx_by_owner(s, nt.creator)];
            &&& value == nt.amount
            &&& value != 0
            &&& nt.active
            &&& (now as u128) <= nt.expires_at
            &&& nt.usage_count < nt.max_usages
            &&& p.active
            &&& p.raised + crate::fees::spec_net(value as int, s.fee_bps as int) <= u128::MAX
            &&& s.fees_collected + crate::fees::spec_fee(value as int, s.fee_bps as int)
                <= u128::MAX
        }) ==> pay_err(s, value, now, id) is None,
{
    let k = intent_idx(s, id);
    assert(0 <= k < s.intents.len() && s.intents[k].id == id);
    if pay_err(s, value, now, id) is None {
        assert(crate::ledger::wf_intent(s, s.intents[k]));
        let s2 = pay_post(s, caller, value, now, id, message);
        assert(s2.intents[k].id == id);
        assert(s2.intents[k].usage_count == s.intents[k].usage_count + 1);
        assert(s2.intents[k].max_usages == s.intents[k].max_usages);
        assert(has_intent(s2, id));
        let j = intent_idx(s2, id);
        assert(0 <= j < s2.intents.len() && s2.intents[j].id == id);
        if j != k {
            assert(s.intents[j].id == id);
            lemma_intent_idx(s, id, j);
            assert(false);
        }
    }
}

/// Law: reads are idempotent. What `get_page_by_handle` and `get_product`
/// may return is pinned by their contracts to one value of the state alone
/// — the hypotheses below are those contracts' success clauses — so two
/// calls with no mutation between them return identical snapshots.
pub proof fn lemma_idempotent_reads(
    s: ContractV,
    handle: Seq<u8>,
    product_id: usize,
    p1: crate::records::PageV,
    p2: crate::records::PageV,
    q1: crate::records::ProductV,
    q2: crate::records::ProductV,
)
    requires
        has_page_handle(s, handle) ==> p1 == s.pages[crate::ledger::page_idx_by_handle(s, handle)]
            && p2 == s.pages[crate::ledger::page_idx_by_handle(s, handle)],
        product_id < s.products.len() ==> q1 == s.products[product_id as int] && q2
            == s.products[product_id as int],
    ensures
        has_page_handle(s, handle) ==> p1 == p2,
        product_id < s.products.len() ==> q1 == q2,
{
}

/// Law: an intent that every other check lets through accepts a payment at
/// its expiry second exactly, and rejects one a second later with
/// `PaymentIntentExpired`.
pub proof fn lemma_expiry_boundary(
    s: ContractV,
    value: u128,
    id: Seq<u8>,
    t_at: u64,
    t_after: u64,
)
    requires
        wf_state(s),
        has_intent(s, id),
        ({
            let nt = s.intents[intent_idx(s, id)];
            let p = s.pages[page_idx_by_owner(s, nt.creator)];
            &&& nt.active
            &&& value == nt.amount
            &&& value != 0
            &&& nt.max_usages == 0 || nt.usage_count < nt.max_usages
            &&& p.active
            &&& p.raised + crate::fees::spec_net(value as int, s.fee_bps as int) <= u128::MAX
            &&& s.fees_collected + crate::fees::spec_fee(value as int, s.fee_bps as int)
                <= u128::MAX
            &&& t_at as u128 == nt.expires_at
            &&& t_after as u128 == nt.expires_at + 1
        }),
    ensures
        pay_err(s, value, t_at, id) is None,
        pay_err(s, value, t_after, id) == Some(OnClickContractError::PaymentIntentExpired),
{
}

} // verus!
