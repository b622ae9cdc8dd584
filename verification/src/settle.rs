use vstd::prelude::*;
use crate::account::AccountId;
use crate::account::Role;
use crate::errors::OnClickContractError;
use crate::fees::spec_fee;
use crate::fees::spec_net;
use crate::fees::split_fee;
use crate::ledger::ContractV;
use crate::ledger::OnClickContract;
use crate::ledger::has_page_handle;
use crate::ledger::has_page_owner;
use crate::ledger::page_idx_by_handle;
use crate::ledger::wf_state;
use crate::ledger::wf_intent;
use crate::records::PageV;
use crate::records::ProductV;
use crate::records::Settlement;
use crate::records::TxRecord;
use crate::records::TxV;
use crate::registry::owned_page_err;

verus! {

/// A page credited with one settlement: the net amount joins its raised
/// total and its supporter count grows by one.
pub open spec fn credit_page(p: PageV, net: u128) -> PageV {
    PageV { raised: (p.raised + net) as u128, supporters: (p.supporters + 1) as u64, ..p }
}

/// The transaction record one settlement appends: the next ledger id, the
/// net amount, and a snapshot of the payee's role.
pub open spec fn appended_tx(
    s: ContractV,
    from: AccountId,
    to: AccountId,
    net: u128,
    message: Seq<u8>,
    payee_role: Role,
    product_id: Option<usize>,
    now: u64,
) -> TxV {
    TxV {
        id: s.transactions.len() as usize,
        from: from,
        to: to,
        amount: net,
        message: message,
        payee_role: payee_role,
        product_id: product_id,
        timestamp: now,
        refunded: false,
    }
}

/// Which check a donation or campaign contribution fails on: a zero amount,
/// an unknown handle, an inactive page (surfaced as the flow's own error), a
/// page outside the required role, or a credit that would leave the page's
/// raised total or the treasury outside the 128-bit accounting range.
pub open spec fn support_err(
    s: ContractV,
    value: u128,
    handle: Seq<u8>,
    required_role: Role,
    inactive_err: OnClickContractError,
) -> Option<OnClickContractError> {
    if value == 0 {
        Some(OnClickContractError::InvalidAmount)
    } else if !has_page_handle(s, handle) {
        Some(OnClickContractError::PageNotFound)
    } else {
        let p = s.pages[page_idx_by_handle(s, handle)];
        if !p.active {
            Some(inactive_err)
        } else if p.role != required_role {
            Some(OnClickContractError::InvalidRole)
        } else if p.raised + spec_net(value as int, s.fee_bps as int) > u128::MAX {
            Some(OnClickContractError::InvalidAmount)
        } else if s.fees_collected + spec_fee(value as int, s.fee_bps as int) > u128::MAX {
            Some(OnClickContractError::InvalidAmount)
        } else {
            None
        }
    }
}

/// The state after a successful donation, contribution, or intent payment to
/// the page at position `i`: the page is credited with the net amount, the
/// fee joins the treasury, and the transaction log grows by one record.
pub open spec fn support_post(
    s: ContractV,
    caller: AccountId,
    value: u128,
    now: u64,
    i: int,
    message: Seq<u8>,
) -> ContractV {
    let p = s.pages[i];
    let fee = spec_fee(value as int, s.fee_bps as int) as u128;
    let net = spec_net(value as int, s.fee_bps as int) as u128;
    ContractV {
        fees_collected: (s.fees_collected + fee) as u128,
        pages: s.pages.update(i, credit_page(p, net)),
        transactions: s.transactions.push(
            appended_tx(s, caller, p.owner, net, message, p.role, None, now),
        ),
        ..s
    }
}

/// What a successful settlement toward the page at position `i` reports: the
/// new transaction's id, the page owner as payee, and the exact fee split.
pub open spec fn support_result(s: ContractV, value: u128, i: int) -> Settlement {
    Settlement {
        tx_id: s.transactions.len() as usize,
        payee: s.pages[i].owner,
        net_amount: spec_net(value as int, s.fee_bps as int) as u128,
        fee: spec_fee(value as int, s.fee_bps as int) as u128,
    }
}

/// Which check a product purchase fails on: a zero amount, an unknown
/// handle, a page that is no Business, an unknown or foreign or inactive
/// product, an amount that misses the listed price exactly, or a fee accrual
/// outside the 128-bit accounting range.
pub open spec fn purchase_err(
    s: ContractV,
    value: u128,
    handle: Seq<u8>,
    product_id: usize,
) -> Option<OnClickContractError> {
    if value == 0 {
        Some(OnClickContractError::InvalidAmount)
    } else if !has_page_handle(s, handle) {
        Some(OnClickContractError::PageNotFound)
    } else {
        let b = s.pages[page_idx_by_handle(s, handle)];
        if b.role != Role::Business {
            Some(OnClickContractError::InvalidRole)
        } else if product_id >= s.products.len() {
            Some(OnClickContractError::ProductNotFound)
        } else if s.products[product_id as int].owner != b.owner {
            Some(OnClickContractError::ProductNotFound)
        } else if !s.products[product_id as int].active {
            Some(OnClickContractError::ProductNotActive)
        } else if value != s.products[product_id as int].price {
            Some(OnClickContractError::InvalidAmount)
        } else if s.fees_collected + spec_fee(value as int, s.fee_bps as int) > u128::MAX {
            Some(OnClickContractError::InvalidAmount)
        } else {
            None
        }
    }
}

/// The state after a successful purchase: the product's sales count grows by
/// one, the fee joins the treasury, and the transaction log records the net
/// amount against the product.
pub open spec fn purchase_post(
    s: ContractV,
    caller: AccountId,
    value: u128,
    now: u64,
    handle: Seq<u8>,
    product_id: usize,
) -> ContractV {
    let b = s.pages[page_idx_by_handle(s, handle)];
    let p = s.products[product_id as int];
    let fee = spec_fee(value as int, s.fee_bps as int) as u128;
    let net = spec_net(value as int, s.fee_bps as int) as u128;
    ContractV {
        fees_collected: (s.fees_collected + fee) as u128,
        products: s.products.update(
            product_id as int,
            ProductV { total_sold: (p.total_sold + 1) as u64, ..p },
        ),
        transactions: s.transactions.push(
            appended_tx(
                s,
                caller,
                b.owner,
                net,
                Seq::empty(),
                Role::Business,
                Some(product_id),
                now,
            ),
        ),
        ..s
    }
}

/// Which check a withdrawal fails on: handle resolution and ownership first,
/// then the balance — the request may not exceed the page's raised total.
pub open spec fn withdraw_err(
    s: ContractV,
    caller: AccountId,
    handle: Seq<u8>,
    amount: u128,
) -> Option<OnClickContractError> {
    if owned_page_err(s, caller, handle) is Some {
        owned_page_err(s, caller, handle)
    } else if amount > s.pages[page_idx_by_handle(s, handle)].raised {
        Some(OnClickContractError::InsufficientFunds)
    } else {
        None
    }
}

impl OnClickContract {
    /// Donate the attached `value` to the Creator page at `handle`. On
    /// success the returned settlement names the payee and the net amount
    /// the host owes them.
    pub fn make_donation(
        &mut self,
        caller: AccountId,
        value: u128,
        now: u64,
        handle: &Vec<u8>,
        message: Vec<u8>,
    ) -> (r: Result<Settlement, OnClickContractError>)
        requires
            old(self).wf(),
        ensures
            final(self).wf(),
            match r {
                Ok(st) => support_err(
                    old(self)@,
                    value,
                    handle@,
                    Role::Creator,
                    OnClickContractError::PageNotActive,
                ) is None && st == support_result(
                    old(self)@,
                    value,
                    page_idx_by_handle(old(self)@, handle@),
                ) && final(self)@ == support_post(
                    old(self)@,
                    caller,
                    value,
                    now,
                    page_idx_by_handle(old(self)@, handle@),
                    message@,
                ),
                Err(e) => Some(e) == support_err(
                    old(self)@,
                    value,
                    handle@,
                    Role::Creator,
                    OnClickContractError::PageNotActive,
                ) && final(self)@ == old(self)@,
            },
    {
        self.support_page(caller, value, now, handle, message, Role::Creator,
            OnClickContractError::PageNotActive)
    }

    /// Contribute the attached `value` to the Crowdfunder campaign at
    /// `handle`. On success the returned settlement names the payee and the
    /// net amount the host owes them.
    pub fn contribute_to_campaign(
        &mut self,
        caller: AccountId,
        value: u128,
        now: u64,
        handle: &Vec<u8>,
        message: Vec<u8>,
    ) -> (r: Result<Settlement, OnClickContractError>)
        requires
            old(self).wf(),
        ensures
            final(self).wf(),
            match r {
                Ok(st) => support_err(
                    old(self)@,
                    value,
                    handle@,
                    Role::Crowdfunder,
                    OnClickContractError::CampaignNotActive,
                ) is None && st == support_result(
                    old(self)@,
                    value,
                    page_idx_by_handle(old(self)@, handle@),
                ) && final(self)@ == support_post(
                    old(self)@,
                    caller,
                    value,
                    now,
                    page_idx_by_handle(old(self)@, handle@),
                    message@,
                ),
                Err(e) => Some(e) == support_err(
                    old(self)@,
                    value,
                    handle@,
                    Role::Crowdfunder,
                    OnClickContractError::CampaignNotActive,
                ) && final(self)@ == old(self)@,
            },
    {
        self.support_page(caller, value, now, handle, message, Role::Crowdfunder,
            OnClickContractError::CampaignNotActive)
    }

    /// The one settlement path donations and contributions share.
    fn support_page(
        &mut self,
        caller: AccountId,
        value: u128,
        now: u64,
        handle: &Vec<u8>,
        message: Vec<u8>,
        required_role: Role,
        inactive_err: OnClickContractError,
    ) -> (r: Result<Settlement, OnClickContractError>)
        requires
            old(self).wf(),
        ensures
            final(self).wf(),
            match r {
                Ok(st) => support_err(old(self)@, value, handle@, required_role, inactive_err)
                    is None && st == support_result(
                    old(self)@,
                    value,
                    page_idx_by_handle(old(self)@, handle@),
                ) && final(self)@ == support_post(
                    old(self)@,
                    caller,
                    value,
                    now,
                    page_idx_by_handle(old(self)@, handle@),
                    message@,
                ),
                Err(e) => Some(e) == support_err(
                    old(self)@,
                    value,
                    handle@,
                    required_role,
                    inactive_err,
                ) && final(self)@ == old(self)@,
            },
    {
        if value == 0 {
            return Err(OnClickContractError::InvalidAmount);
        }
        let i = match self.find_page_by_handle(handle) {
            None => { return Err(OnClickContractError::PageNotFound) },
            Some(i) => i,
        };
        if !self.pages[i].active {
            return Err(inactive_err);
        }
        if !(self.pages[i].role == required_role) {
            return Err(OnClickContractError::InvalidRole);
        }
        let (fee, net) = split_fee(value, self.fee_bps);
        if net > u128::MAX - self.pages[i].raised {
            return Err(OnClickContractError::InvalidAmount);
        }
        if fee > u128::MAX - self.fees_collected {
            return Err(OnClickContractError::InvalidAmount);
        }
        let ghost s0 = self@;
        let ghost msg = message@;
        let tx_id = self.transactions.len();
        let payee = self.pages[i].owner;
        let role = self.pages[i].role;
        self.transactions.push(
            TxRecord {
                id: tx_id,
                from: caller,
                to: payee,
                amount: net,
                message,
                payee_role: role,
                product_id: None,
                timestamp: now,
                refunded: false,
            },
        );
        let n = self.transactions.len();
        proof {
            assert(self.pages[i as int].supporters < n <= usize::MAX);
        }
        let cur = self.pages[i].raised;
        self.pages[i].raised = cur + net;
        let sup = self.pages[i].supporters;
        self.pages[i].supporters = sup + 1;
        self.fees_collected = self.fees_collected + fee;
        proof {
            let ii = i as int;
            assert(self@.transactions =~= s0.transactions.push(
                appended_tx(s0, caller, s0.pages[ii].owner, net, msg, s0.pages[ii].role, None, now),
            ));
            assert(self@.pages =~= s0.pages.update(ii, credit_page(s0.pages[ii], net)));
            assert(self@ =~= support_post(s0, caller, value, now, ii, msg));
            lemma_wf_support(s0, caller, value, now, ii, msg);
        }
        Ok(Settlement { tx_id, payee, net_amount: net, fee })
    }

    /// Buy the product `product_id` from the Business page at `handle`; the
    /// attached `value` must equal the listed price exactly. On success the
    /// returned settlement names the payee and the net amount the host owes
    /// them.
    pub fn purchase_product(
        &mut self,
        caller: AccountId,
        value: u128,
        now: u64,
        handle: &Vec<u8>,
        product_id: usize,
    ) -> (r: Result<Settlement, OnClickContractError>)
        requires
            old(self).wf(),
        ensures
            final(self).wf(),
            match r {
                Ok(st) => purchase_err(old(self)@, value, handle@, product_id) is None && st
                    == support_result(
                    old(self)@,
                    value,
                    page_idx_by_handle(old(self)@, handle@),
                ) && final(self)@ == purchase_post(
                    old(self)@,
                    caller,
                    value,
                    now,
                    handle@,
                    product_id,
                ),
                Err(e) => Some(e) == purchase_err(old(self)@, value, handle@, product_id) && final(self)@ == old(self)@,
            },
    {
        if value == 0 {
            return Err(OnClickContractError::InvalidAmount);
        }
        let i = match self.find_page_by_handle(handle) {
            None => { return Err(OnClickContractError::PageNotFound) },
            Some(i) => i,
        };
        if !(self.pages[i].role == Role::Business) {
            return Err(OnClickContractError::InvalidRole);
        }
        if product_id >= self.products.len() {
            return Err(OnClickContractError::ProductNotFound);
        }
        let payee = self.pages[i].owner;
        if !(self.products[product_id].owner == payee) {
            return Err(OnClickContractError::ProductNotFound);
        }
        if !self.products[product_id].active {
            return Err(OnClickContractError::ProductNotActive);
        }
        if !(value == self.products[product_id].price) {
            return Err(OnClickContractError::InvalidAmount);
        }
        let (fee, net) = split_fee(value, self.fee_bps);
        if fee > u128::MAX - self.fees_collected {
            return Err(OnClickContractError::InvalidAmount);
        }
        let ghost s0 = self@;
        let tx_id = self.transactions.len();
        self.transactions.push(
            TxRecord {
                id: tx_id,
                from: caller,
                to: payee,
                amount: net,
                message: Vec::new(),
                payee_role: Role::Business,
                product_id: Some(product_id),
                timestamp: now,
                refunded: false,
            },
        );
        let n = self.transactions.len();
        proof {
            assert(self.products[product_id as int].total_sold < n <= usize::MAX);
        }
        let sold = self.products[product_id].total_sold;
        self.products[product_id].total_sold = sold + 1;
        self.fees_collected = self.fees_collected + fee;
        proof {
            let pi = product_id as int;
            assert(self@.transactions =~= s0.transactions.push(
                appended_tx(
                    s0,
                    caller,
                    payee,
                    net,
                    Seq::empty(),
                    Role::Business,
                    Some(product_id),
                    now,
                ),
            ));
            assert(self@.products =~= s0.products.update(
                pi,
                ProductV { total_sold: (s0.products[pi].total_sold + 1) as u64, ..s0.products[pi] },
            ));
            assert(self@ =~= purchase_post(s0, caller, value, now, handle@, product_id));
            lemma_wf_purchase(s0, caller, value, now, handle@, product_id);
        }
        Ok(Settlement { tx_id, payee, net_amount: net, fee })
    }

    /// Withdraw `amount` from the raised total of the caller's page at
    /// `handle`; the host then owes the caller that gross amount, with no
    /// fee taken.
    pub fn withdraw_funds(
        &mut self,
        caller: AccountId,
        handle: &Vec<u8>,
        amount: u128,
    ) -> (r: Result<(), OnClickContractError>)
        requires
            old(self).wf(),
        ensures
            final(self).wf(),
            match r {
                Ok(_) => withdraw_err(old(self)@, caller, handle@, amount) is None && final(self)@
                    == (ContractV {
                    pages: old(self)@.pages.update(
                        page_idx_by_handle(old(self)@, handle@),
                        PageV {
                            raised: (old(self)@.pages[page_idx_by_handle(old(self)@, handle@)].raised
                                - amount) as u128,
                            ..old(self)@.pages[page_idx_by_handle(old(self)@, handle@)]
                        },
                    ),
                    ..old(self)@
                }),
                Err(e) => Some(e) == withdraw_err(old(self)@, caller, handle@, amount) && final(self)@ == old(self)@,
            },
    {
        let i = match self.find_page_by_handle(handle) {
            None => { return Err(OnClickContractError::PageNotFound) },
            Some(i) => i,
        };
        if !(self.pages[i].owner == caller) {
            return Err(OnClickContractError::NotPageOwner);
        }
        let raised = self.pages[i].raised;
        if amount > raised {
            return Err(OnClickContractError::InsufficientFunds);
        }
        let ghost s0 = self@;
        let ghost p2 = PageV { raised: (raised - amount) as u128, ..s0.pages[i as int] };
        self.pages[i].raised = raised - amount;
        proof {
            assert(self@.pages =~= s0.pages.update(i as int, p2));
            assert(self@ =~= ContractV { pages: s0.pages.update(i as int, p2), ..s0 });
            crate::registry::lemma_wf_page_update(s0, i as int, p2);
        }
        Ok(())
    }

    /// Set the platform fee rate in basis points; only the administrator
    /// may. A rate above 10000 basis points — more than 100% — is rejected,
    /// keeping every later settlement's fee within its gross amount.
    pub fn set_platform_fee(&mut self, caller: AccountId, fee_bps: u64) -> (r: Result<
        (),
        OnClickContractError,
    >)
        requires
            old(self).wf(),
        ensures
            final(self).wf(),
            match r {
                Ok(_) => caller == old(self)@.admin && fee_bps <= 10000 && final(self)@ == (
                ContractV { fee_bps: fee_bps, ..old(self)@ }),
                Err(e) => final(self)@ == old(self)@ && (if caller != old(self)@.admin {
                    e == OnClickContractError::NotPageOwner
                } else {
                    fee_bps > 10000 && e == OnClickContractError::InvalidAmount
                }),
            },
    {
        if !(caller == self.admin) {
            return Err(OnClickContractError::NotPageOwner);
        }
        if fee_bps > 10000 {
            return Err(OnClickContractError::InvalidAmount);
        }
        let ghost s0 = self@;
        self.fee_bps = fee_bps;
        proof {
            assert(self@ =~= ContractV { fee_bps: fee_bps, ..s0 });
            lemma_wf_config(s0, fee_bps, s0.fees_collected);
        }
        Ok(())
    }

    /// Withdraw the whole accumulated treasury; only the administrator may.
    /// The treasury resets to zero and the host owes the administrator the
    /// returned amount in the same call.
    pub fn withdraw_platform_fees(&mut self, caller: AccountId) -> (r: Result<
        u128,
        OnClickContractError,
    >)
        requires
            old(self).wf(),
        ensures
            final(self).wf(),
            match r {
                Ok(amt) => caller == old(self)@.admin && amt == old(self)@.fees_collected && final(self)@ == (ContractV { fees_collected: 0, ..old(self)@ }),
                Err(e) => caller != old(self)@.admin && e == OnClickContractError::NotPageOwner
                    && final(self)@ == old(self)@,
            },
    {
        if !(caller == self.admin) {
            return Err(OnClickContractError::NotPageOwner);
        }
        let ghost s0 = self@;
        let amt = self.fees_collected;
        self.fees_collected = 0;
        proof {
            assert(self@ =~= ContractV { fees_collected: 0, ..s0 });
            lemma_wf_config(s0, s0.fee_bps, 0);
        }
        Ok(amt)
    }
}

/// Changing only the fee rate (within bounds) or the treasury keeps the
/// state well-formed.
pub proof fn lemma_wf_config(s: ContractV, fee_bps: u64, fees_collected: u128)
    requires
        wf_state(s),
        fee_bps <= 10000,
    ensures
        wf_state(ContractV { fee_bps: fee_bps, fees_collected: fees_collected, ..s }),
{
    let s2 = ContractV { fee_bps: fee_bps, fees_collected: fees_collected, ..s };
    assert forall|a: int| 0 <= a < s2.intents.len() implies wf_intent(
        s2,
        #[trigger] s2.intents[a],
    ) by {
        assert(wf_intent(s, s.intents[a]));
        let k = crate::ledger::page_idx_by_owner(s, s.intents[a].creator);
        assert(s2.pages[k].owner == s.intents[a].creator);
        assert(has_page_owner(s2, s.intents[a].creator));
    }
}

/// Crediting the page at `i` and appending the matching transaction keeps
/// the state well-formed.
pub proof fn lemma_wf_support(
    s: ContractV,
    caller: AccountId,
    value: u128,
    now: u64,
    i: int,
    message: Seq<u8>,
)
    requires
        wf_state(s),
        0 <= i < s.pages.len(),
        s.pages[i].raised + spec_net(value as int, s.fee_bps as int) <= u128::MAX,
        s.fees_collected + spec_fee(value as int, s.fee_bps as int) <= u128::MAX,
        s.transactions.len() < usize::MAX,
    ensures
        wf_state(support_post(s, caller, value, now, i, message)),
{
    let s2 = support_post(s, caller, value, now, i, message);
    assert(s2.transactions.len() == s.transactions.len() + 1);
    assert forall|a: int, b: int|
        0 <= a < b < s2.pages.len() implies (#[trigger] s2.pages[a]).owner != (
    #[trigger] s2.pages[b]).owner && s2.pages[a].handle != s2.pages[b].handle by {
        assert(s.pages[a].owner != s.pages[b].owner && s.pages[a].handle != s.pages[b].handle);
    }
    assert forall|a: int| 0 <= a < s2.pages.len() implies (#[trigger] s2.pages[a]).handle.len() >= 3
        && s2.pages[a].supporters <= s2.transactions.len() by {
        assert(s.pages[a].handle.len() >= 3 && s.pages[a].supporters <= s.transactions.len());
    }
    assert forall|a: int| 0 <= a < s2.products.len() implies (#[trigger] s2.products[a]).id == a
        && s2.products[a].total_sold <= s2.transactions.len() by {
        assert(s.products[a].id == a && s.products[a].total_sold <= s.transactions.len());
    }
    assert forall|a: int| 0 <= a < s2.transactions.len() implies (#[trigger] s2.transactions[a]).id
        == a by {
        if a < s.transactions.len() {
            assert(s.transactions[a].id == a);
        }
    }
    assert forall|a: int| 0 <= a < s2.intents.len() implies wf_intent(
        s2,
        #[trigger] s2.intents[a],
    ) by {
        assert(wf_intent(s, s.intents[a]));
        let k = crate::ledger::page_idx_by_owner(s, s.intents[a].creator);
        assert(s2.pages[k].owner == s.intents[a].creator);
        assert(has_page_owner(s2, s.intents[a].creator));
    }
}

/// Recording one sale of the product at `pi` and appending the matching
/// transaction keeps the state well-formed.
pub proof fn lemma_wf_purchase(
    s: ContractV,
    caller: AccountId,
    value: u128,
    now: u64,
    handle: Seq<u8>,
    product_id: usize,
)
    requires
        wf_state(s),
        0 <= product_id < s.products.len(),
        0 <= page_idx_by_handle(s, handle) < s.pages.len(),
        s.fees_collected + spec_fee(value as int, s.fee_bps as int) <= u128::MAX,
        s.transactions.len() < usize::MAX,
    ensures
        wf_state(purchase_post(s, caller, value, now, handle, product_id)),
{
    let s2 = purchase_post(s, caller, value, now, handle, product_id);
    assert(s2.transactions.len() == s.transactions.len() + 1);
    assert forall|a: int, b: int|
        0 <= a < b < s2.pages.len() implies (#[trigger] s2.pages[a]).owner != (
    #[trigger] s2.pages[b]).owner && s2.pages[a].handle != s2.pages[b].handle by {
        assert(s.pages[a].owner != s.pages[b].owner && s.pages[a].handle != s.pages[b].handle);
    }
    assert forall|a: int| 0 <= a < s2.pages.len() implies (#[trigger] s2.pages[a]).handle.len() >= 3
        && s2.pages[a].supporters <= s2.transactions.len() by {
        assert(s.pages[a].handle.len() >= 3 && s.pages[a].supporters <= s.transactions.len());
    }
    assert forall|a: int| 0 <= a < s2.products.len() implies (#[trigger] s2.products[a]).id == a
        && s2.products[a].total_sold <= s2.transactions.len() by {
        assert(s.products[a].id == a && s.products[a].total_sold <= s.transactions.len());
    }
    assert forall|a: int| 0 <= a < s2.transactions.len() implies (#[trigger] s2.transactions[a]).id
        == a by {
        if a < s.transactions.len() {
            assert(s.transactions[a].id == a);
        }
    }
    assert forall|a: int| 0 <= a < s2.intents.len() implies wf_intent(
        s2,
        #[trigger] s2.intents[a],
    ) by {
        assert(wf_intent(s, s.intents[a]));
        let k = crate::ledger::page_idx_by_owner(s, s.intents[a].creator);
        assert(s2.pages[k].owner == s.intents[a].creator);
        assert(has_page_owner(s2, s.intents[a].creator));
    }
}

} // verus!
