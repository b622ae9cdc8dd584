use vstd::prelude::*;
use crate::account::AccountId;
use crate::account::Role;
use crate::account::role_of;
use crate::errors::OnClickContractError;
use crate::ledger::ContractV;
use crate::ledger::OnClickContract;
use crate::ledger::has_page_handle;
use crate::ledger::has_page_owner;
use crate::ledger::page_idx_by_handle;
use crate::ledger::wf_state;
use crate::records::Page;
use crate::records::PageV;
use crate::encoding::copy_bytes;

verus! {

/// The role a valid role code stands for; meaningful only for codes 0 to 2.
pub open spec fn role_of_code(code: u8) -> Role {
    if code == 1 {
        Role::Business
    } else if code == 2 {
        Role::Crowdfunder
    } else {
        Role::Creator
    }
}

/// Which check `register_user` fails on, if any: a handle under three bytes,
/// a handle already claimed, a caller that already owns a page, or a role
/// code above 2 — in that order.
pub open spec fn register_err(
    s: ContractV,
    caller: AccountId,
    handle: Seq<u8>,
    role_code: u8,
) -> Option<OnClickContractError> {
    if handle.len() < 3 {
        Some(OnClickContractError::InvalidHandle)
    } else if has_page_handle(s, handle) {
        Some(OnClickContractError::HandleAlreadyTaken)
    } else if has_page_owner(s, caller) {
        Some(OnClickContractError::HandleAlreadyTaken)
    } else if role_code > 2 {
        Some(OnClickContractError::InvalidRole)
    } else {
        None
    }
}

/// The page a successful registration appends: owned by the caller, claiming
/// the handle, in the given role, with empty counters and the active flag set.
pub open spec fn fresh_page(
    caller: AccountId,
    now: u64,
    handle: Seq<u8>,
    role_code: u8,
    name: Seq<u8>,
    metadata: Seq<u8>,
) -> PageV {
    PageV {
        owner: caller,
        handle: handle,
        role: role_of_code(role_code),
        name: name,
        metadata: metadata,
        goal: 0,
        raised: 0,
        supporters: 0,
        active: true,
        created_at: now,
    }
}

/// The state after a successful registration.
pub open spec fn register_post(
    s: ContractV,
    caller: AccountId,
    now: u64,
    handle: Seq<u8>,
    role_code: u8,
    name: Seq<u8>,
    metadata: Seq<u8>,
) -> ContractV {
    ContractV { pages: s.pages.push(fresh_page(caller, now, handle, role_code, name, metadata)), ..s }
}

/// Which check `update_page_info` or `set_funding_goal` fails on while
/// resolving a handle to a page the caller owns.
pub open spec fn owned_page_err(
    s: ContractV,
    caller: AccountId,
    handle: Seq<u8>,
) -> Option<OnClickContractError> {
    if !has_page_handle(s, handle) {
        Some(OnClickContractError::PageNotFound)
    } else if s.pages[page_idx_by_handle(s, handle)].owner != caller {
        Some(OnClickContractError::NotPageOwner)
    } else {
        None
    }
}

/// Which check `set_funding_goal` fails on: handle resolution and ownership
/// first, then the role gate — only Creator and Crowdfunder pages hold goals.
pub open spec fn goal_err(
    s: ContractV,
    caller: AccountId,
    handle: Seq<u8>,
) -> Option<OnClickContractError> {
    if owned_page_err(s, caller, handle) is Some {
        owned_page_err(s, caller, handle)
    } else if s.pages[page_idx_by_handle(s, handle)].role == Role::Business {
        Some(OnClickContractError::InvalidRole)
    } else {
        None
    }
}

impl OnClickContract {
    /// Register the caller under a fresh handle and create its page. Returns
    /// the value of the global page counter as a registration token; the page
    /// itself is keyed by the caller identity and by the handle.
    pub fn register_user(
        &mut self,
        caller: AccountId,
        now: u64,
        handle: Vec<u8>,
        role_code: u8,
        name: Vec<u8>,
        metadata: Vec<u8>,
    ) -> (r: Result<usize, OnClickContractError>)
        requires
            old(self).wf(),
        ensures
            final(self).wf(),
            match r {
                Ok(id) => register_err(old(self)@, caller, handle@, role_code) is None && id
                    == old(self)@.pages.len() && final(self)@ == register_post(
                    old(self)@,
                    caller,
                    now,
                    handle@,
                    role_code,
                    name@,
                    metadata@,
                ),
                Err(e) => Some(e) == register_err(old(self)@, caller, handle@, role_code)
                    && final(self)@ == old(self)@,
            },
    {
        if handle.len() < 3 {
            return Err(OnClickContractError::InvalidHandle);
        }
        if self.find_page_by_handle(&handle).is_some() {
            return Err(OnClickContractError::HandleAlreadyTaken);
        }
        if self.find_page_by_owner(caller).is_some() {
            return Err(OnClickContractError::HandleAlreadyTaken);
        }
        let role = match role_of(role_code) {
            None => { return Err(OnClickContractError::InvalidRole) },
            Some(ro) => ro,
        };
        let id = self.pages.len();
        let page = Page {
            owner: caller,
            handle,
            role,
            name,
            metadata,
            goal: 0,
            raised: 0,
            supporters: 0,
            active: true,
            created_at: now,
        };
        self.pages.push(page);
        proof {
            let s0 = old(self)@;
            let p = fresh_page(caller, now, page@.handle, role_code, page@.name, page@.metadata);
            assert(page@ == p);
            assert(self@.pages =~= s0.pages.push(p));
            assert(self@ =~= register_post(
                s0,
                caller,
                now,
                page@.handle,
                role_code,
                page@.name,
                page@.metadata,
            ));
            lemma_wf_register(s0, p);
        }
        Ok(id)
    }

    /// Update the display name and metadata reference of the page at
    /// `handle`; only its owner may.
    pub fn update_page_info(
        &mut self,
        caller: AccountId,
        handle: &Vec<u8>,
        name: Vec<u8>,
        metadata: Vec<u8>,
    ) -> (r: Result<(), OnClickContractError>)
        requires
            old(self).wf(),
        ensures
            final(self).wf(),
            match r {
                Ok(_) => owned_page_err(old(self)@, caller, handle@) is None && final(self)@ == (
                ContractV {
                    pages: old(self)@.pages.update(
                        page_idx_by_handle(old(self)@, handle@),
                        PageV {
                            name: name@,
                            metadata: metadata@,
                            ..old(self)@.pages[page_idx_by_handle(old(self)@, handle@)]
                        },
                    ),
                    ..old(self)@
                }),
                Err(e) => Some(e) == owned_page_err(old(self)@, caller, handle@) && final(self)@
                    == old(self)@,
            },
    {
        let i = match self.find_page_by_handle(handle) {
            None => { return Err(OnClickContractError::PageNotFound) },
            Some(i) => i,
        };
        if !(self.pages[i].owner == caller) {
            return Err(OnClickContractError::NotPageOwner);
        }
        let ghost s0 = self@;
        let ghost p2 = PageV { name: name@, metadata: metadata@, ..s0.pages[i as int] };
        self.pages[i].name = name;
        self.pages[i].metadata = metadata;
        proof {
            assert(self@.pages =~= s0.pages.update(i as int, p2));
            assert(self@ =~= ContractV { pages: s0.pages.update(i as int, p2), ..s0 });
            lemma_wf_page_update(s0, i as int, p2);
        }
        Ok(())
    }

    /// Set the funding goal of the page at `handle`; only its owner may, and
    /// only Creator and Crowdfunder pages carry goals.
    pub fn set_funding_goal(&mut self, caller: AccountId, handle: &Vec<u8>, goal: u128) -> (r:
        Result<(), OnClickContractError>)
        requires
            old(self).wf(),
        ensures
            final(self).wf(),
            match r {
                Ok(_) => goal_err(old(self)@, caller, handle@) is None && final(self)@ == (
                ContractV {
                    pages: old(self)@.pages.update(
                        page_idx_by_handle(old(self)@, handle@),
                        PageV {
                            goal: goal,
                            ..old(self)@.pages[page_idx_by_handle(old(self)@, handle@)]
                        },
                    ),
                    ..old(self)@
                }),
                Err(e) => Some(e) == goal_err(old(self)@, caller, handle@)
                    && final(self)@ == old(self)@,
            },
    {
        let i = match self.find_page_by_handle(handle) {
            None => { return Err(OnClickContractError::PageNotFound) },
            Some(i) => i,
        };
        if !(self.pages[i].owner == caller) {
            return Err(OnClickContractError::NotPageOwner);
        }
        if self.pages[i].role == Role::Business {
            return Err(OnClickContractError::InvalidRole);
        }
        let ghost s0 = self@;
        let ghost p2 = PageV { goal: goal, ..s0.pages[i as int] };
        self.pages[i].goal = goal;
        proof {
            assert(self@.pages =~= s0.pages.update(i as int, p2));
            assert(self@ =~= ContractV { pages: s0.pages.update(i as int, p2), ..s0 });
            lemma_wf_page_update(s0, i as int, p2);
        }
        Ok(())
    }

    /// The full snapshot of the page at `handle`.
    pub fn get_page_by_handle(&self, handle: &Vec<u8>) -> (r: Result<Page, OnClickContractError>)
        requires
            self.wf(),
        ensures
            match r {
                Ok(p) => has_page_handle(self@, handle@) && p@ == self@.pages[page_idx_by_handle(
                    self@,
                    handle@,
                )],
                Err(e) => e == OnClickContractError::PageNotFound && !has_page_handle(
                    self@,
                    handle@,
                ),
            },
    {
        let i = match self.find_page_by_handle(handle) {
            None => { return Err(OnClickContractError::PageNotFound) },
            Some(i) => i,
        };
        Ok(self.snapshot_page(i))
    }

    /// The full snapshot of the page owned by `user`.
    pub fn get_page_by_address(&self, user: AccountId) -> (r: Result<Page, OnClickContractError>)
        requires
            self.wf(),
        ensures
            match r {
                Ok(p) => has_page_owner(self@, user) && p@ == self@.pages[crate::ledger::page_idx_by_owner(
                    self@,
                    user,
                )],
                Err(e) => e == OnClickContractError::PageNotFound && !has_page_owner(self@, user),
            },
    {
        let i = match self.find_page_by_owner(user) {
            None => { return Err(OnClickContractError::PageNotFound) },
            Some(i) => i,
        };
        Ok(self.snapshot_page(i))
    }

    /// The amount currently withdrawable from the page at `handle`.
    pub fn get_page_balance(&self, handle: &Vec<u8>) -> (r: Result<u128, OnClickContractError>)
        requires
            self.wf(),
        ensures
            match r {
                Ok(b) => has_page_handle(self@, handle@) && b == self@.pages[page_idx_by_handle(
                    self@,
                    handle@,
                )].raised,
                Err(e) => e == OnClickContractError::PageNotFound && !has_page_handle(
                    self@,
                    handle@,
                ),
            },
    {
        match self.find_page_by_handle(handle) {
            None => Err(OnClickContractError::PageNotFound),
            Some(i) => Ok(self.pages[i].raised),
        }
    }

    /// An owned copy of the page at position `i`.
    fn snapshot_page(&self, i: usize) -> (r: Page)
        requires
            i < self@.pages.len(),
        ensures
            r@ == self@.pages[i as int],
    {
        let p = &self.pages[i];
        let r = Page {
            owner: p.owner,
            handle: copy_bytes(&p.handle),
            role: p.role,
            name: copy_bytes(&p.name),
            metadata: copy_bytes(&p.metadata),
            goal: p.goal,
            raised: p.raised,
            supporters: p.supporters,
            active: p.active,
            created_at: p.created_at,
        };
        proof {
            assert(r@ =~= self@.pages[i as int]);
        }
        r
    }
}

/// Appending a fresh page whose handle and owner are both unclaimed keeps the
/// state well-formed.
pub proof fn lemma_wf_register(s: ContractV, p: PageV)
    requires
        wf_state(s),
        !has_page_handle(s, p.handle),
        !has_page_owner(s, p.owner),
        p.handle.len() >= 3,
        p.supporters == 0,
    ensures
        wf_state(ContractV { pages: s.pages.push(p), ..s }),
{
    let s2 = ContractV { pages: s.pages.push(p), ..s };
    let n = s.pages.len() as int;
    assert forall|i: int, j: int|
        0 <= i < j < s2.pages.len() implies (#[trigger] s2.pages[i]).owner != (
    #[trigger] s2.pages[j]).owner && s2.pages[i].handle != s2.pages[j].handle by {
        if j < n {
            assert(s.pages[i].owner != s.pages[j].owner && s.pages[i].handle != s.pages[j].handle);
        } else {
            assert(s2.pages[j] == p);
            assert(s2.pages[i] == s.pages[i]);
            if s.pages[i].owner == p.owner {
                assert(has_page_owner(s, p.owner));
            }
            if s.pages[i].handle == p.handle {
                assert(has_page_handle(s, p.handle));
            }
        }
    }
    assert forall|i: int| 0 <= i < s2.intents.len() implies crate::ledger::wf_intent(
        s2,
        #[trigger] s2.intents[i],
    ) by {
        assert(crate::ledger::wf_intent(s, s.intents[i]));
        let k = crate::ledger::page_idx_by_owner(s, s.intents[i].creator);
        assert(s2.pages[k].owner == s.intents[i].creator);
        assert(has_page_owner(s2, s.intents[i].creator));
    }
}

/// Replacing a page with one that keeps its owner, handle, and supporter
/// count keeps the state well-formed.
pub proof fn lemma_wf_page_update(s: ContractV, i: int, p: PageV)
    requires
        wf_state(s),
        0 <= i < s.pages.len(),
        p.owner == s.pages[i].owner,
        p.handle == s.pages[i].handle,
        p.supporters == s.pages[i].supporters,
    ensures
        wf_state(ContractV { pages: s.pages.update(i, p), ..s }),
{
    let s2 = ContractV { pages: s.pages.update(i, p), ..s };
    assert forall|a: int, b: int|
        0 <= a < b < s2.pages.len() implies (#[trigger] s2.pages[a]).owner != (
    #[trigger] s2.pages[b]).owner && s2.pages[a].handle != s2.pages[b].handle by {
        assert(s.pages[a].owner != s.pages[b].owner && s.pages[a].handle != s.pages[b].handle);
    }
    assert forall|a: int| 0 <= a < s2.pages.len() implies (#[trigger] s2.pages[a]).handle.len() >= 3
        && s2.pages[a].supporters <= s2.transactions.len() by {
        assert(s.pages[a].handle.len() >= 3 && s.pages[a].supporters <= s.transactions.len());
    }
    assert forall|a: int| 0 <= a < s2.intents.len() implies crate::ledger::wf_intent(
        s2,
        #[trigger] s2.intents[a],
    ) by {
        assert(crate::ledger::wf_intent(s, s.intents[a]));
        let k = crate::ledger::page_idx_by_owner(s, s.intents[a].creator);
        assert(s2.pages[k].owner == s.intents[a].creator);
        assert(has_page_owner(s2, s.intents[a].creator));
    }
}

} // verus!
