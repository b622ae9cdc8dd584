use vstd::prelude::*;
use crate::account::AccountId;
use crate::account::Role;
use crate::errors::OnClickContractError;
use crate::ledger::ContractV;
use crate::ledger::OnClickContract;
use crate::ledger::has_page_owner;
use crate::ledger::page_idx_by_handle;
use crate::ledger::wf_state;
use crate::ledger::wf_intent;
use crate::records::Product;
use crate::records::ProductV;
use crate::registry::owned_page_err;
use crate::encoding::copy_bytes;

verus! {

/// Which check `create_product` fails on: handle resolution and ownership
/// first, then the role gate — only a Business page sells products.
pub open spec fn create_product_err(
    s: ContractV,
    caller: AccountId,
    handle: Seq<u8>,
) -> Option<OnClickContractError> {
    if owned_page_err(s, caller, handle) is Some {
        owned_page_err(s, caller, handle)
    } else if s.pages[page_idx_by_handle(s, handle)].role != Role::Business {
        Some(OnClickContractError::InvalidRole)
    } else {
        None
    }
}

/// The product a successful creation appends: the next id, owned by the
/// resolved page's owner, active, with nothing sold yet.
pub open spec fn fresh_product(
    s: ContractV,
    handle: Seq<u8>,
    now: u64,
    name: Seq<u8>,
    price: u128,
    metadata: Seq<u8>,
) -> ProductV {
    ProductV {
        id: s.products.len() as usize,
        owner: s.pages[page_idx_by_handle(s, handle)].owner,
        name: name,
        price: price,
        metadata: metadata,
        active: true,
        total_sold: 0,
        created_at: now,
    }
}

/// Which check `update_product` or `delete_product` fails on: handle
/// resolution and ownership first, then the product — it must exist and
/// belong to the resolved page's owner.
pub open spec fn product_mod_err(
    s: ContractV,
    caller: AccountId,
    handle: Seq<u8>,
    product_id: usize,
) -> Option<OnClickContractError> {
    if owned_page_err(s, caller, handle) is Some {
        owned_page_err(s, caller, handle)
    } else if product_id >= s.products.len() || s.products[product_id as int].owner != s.pages[
        page_idx_by_handle(s, handle)
    ].owner {
        Some(OnClickContractError::ProductNotFound)
    } else {
        None
    }
}

impl OnClickContract {
    /// Add a product to the caller's Business page at `handle`; returns the
    /// fresh product id.
    pub fn create_product(
        &mut self,
        caller: AccountId,
        now: u64,
        handle: &Vec<u8>,
        name: Vec<u8>,
        price: u128,
        metadata: Vec<u8>,
    ) -> (r: Result<usize, OnClickContractError>)
        requires
            old(self).wf(),
        ensures
            final(self).wf(),
            match r {
                Ok(id) => create_product_err(old(self)@, caller, handle@) is None && id
                    == old(self)@.products.len() && final(self)@ == (ContractV {
                    products: old(self)@.products.push(
                        fresh_product(old(self)@, handle@, now, name@, price, metadata@),
                    ),
                    ..old(self)@
                }),
                Err(e) => Some(e) == create_product_err(old(self)@, caller, handle@)
                    && final(self)@ == old(self)@,
            },
    {
        let i = match self.find_page_by_handle(handle) {
            None => { return Err(OnClickContractError::PageNotFound) },
            Some(i) => i,
        };
        if !(self.pages[i].owner == caller) {
            return Err(OnClickContractError::NotPageOwner);
        }
        if !(self.pages[i].role == Role::Business) {
            return Err(OnClickContractError::InvalidRole);
        }
        let ghost s0 = self@;
        let id = self.products.len();
        let product = Product {
            id,
            owner: caller,
            name,
            price,
            metadata,
            active: true,
            total_sold: 0,
            created_at: now,
        };
        self.products.push(product);
        proof {
            assert(self@.products =~= s0.products.push(
                fresh_product(s0, handle@, now, product@.name, price, product@.metadata),
            ));
            assert(self@ =~= ContractV {
                products: s0.products.push(
                    fresh_product(s0, handle@, now, product@.name, price, product@.metadata),
                ),
                ..s0
            });
            lemma_wf_product_push(s0, fresh_product(s0, handle@, now, product@.name, price, product@.metadata));
        }
        Ok(id)
    }

    /// Update the name, price, and metadata reference of a product of the
    /// caller's page at `handle`.
    pub fn update_product(
        &mut self,
        caller: AccountId,
        handle: &Vec<u8>,
        product_id: usize,
        name: Vec<u8>,
        price: u128,
        metadata: Vec<u8>,
    ) -> (r: Result<(), OnClickContractError>)
        requires
            old(self).wf(),
        ensures
            final(self).wf(),
            match r {
                Ok(_) => product_mod_err(old(self)@, caller, handle@, product_id) is None
                    && final(self)@ == (ContractV {
                    products: old(self)@.products.update(
                        product_id as int,
                        ProductV {
                            name: name@,
                            price: price,
                            metadata: metadata@,
                            ..old(self)@.products[product_id as int]
                        },
                    ),
                    ..old(self)@
                }),
                Err(e) => Some(e) == product_mod_err(old(self)@, caller, handle@, product_id)
                    && final(self)@ == old(self)@,
            },
    {
        let i = match self.find_page_by_handle(handle) {
            None => { return Err(OnClickContractError::PageNotFound) },
            Some(i) => i,
        };
        if !(self.pages[i].owner == caller) {
            return Err(OnClickContractError::NotPageOwner);
        }
        if product_id >= self.products.len() {
            return Err(OnClickContractError::ProductNotFound);
        }
        if !(self.products[product_id].owner == caller) {
            return Err(OnClickContractError::ProductNotFound);
        }
        let ghost s0 = self@;
        let ghost p2 = ProductV {
            name: name@,
            price: price,
            metadata: metadata@,
            ..s0.products[product_id as int]
        };
        self.products[product_id].name = name;
        self.products[product_id].price = price;
        self.products[product_id].metadata = metadata;
        proof {
            assert(self@.products =~= s0.products.update(product_id as int, p2));
            assert(self@ =~= ContractV {
                products: s0.products.update(product_id as int, p2),
                ..s0
            });
            lemma_wf_product_update(s0, product_id as int, p2);
        }
        Ok(())
    }

    /// Deactivate a product of the caller's page at `handle`. The record and
    /// its id remain; only the active flag clears.
    pub fn delete_product(&mut self, caller: AccountId, handle: &Vec<u8>, product_id: usize) -> (r:
        Result<(), OnClickContractError>)
        requires
            old(self).wf(),
        ensures
            final(self).wf(),
            match r {
                Ok(_) => product_mod_err(old(self)@, caller, handle@, product_id) is None
                    && final(self)@ == (ContractV {
                    products: old(self)@.products.update(
                        product_id as int,
                        ProductV { active: false, ..old(self)@.products[product_id as int] },
                    ),
                    ..old(self)@
                }),
                Err(e) => Some(e) == product_mod_err(old(self)@, caller, handle@, product_id)
                    && final(self)@ == old(self)@,
            },
    {
        let i = match self.find_page_by_handle(handle) {
            None => { return Err(OnClickContractError::PageNotFound) },
            Some(i) => i,
        };
        if !(self.pages[i].owner == caller) {
            return Err(OnClickContractError::NotPageOwner);
        }
        if product_id >= self.products.len() {
            return Err(OnClickContractError::ProductNotFound);
        }
        if !(self.products[product_id].owner == caller) {
            return Err(OnClickContractError::ProductNotFound);
        }
        let ghost s0 = self@;
        let ghost p2 = ProductV { active: false, ..s0.products[product_id as int] };
        self.products[product_id].active = false;
        proof {
            assert(self@.products =~= s0.products.update(product_id as int, p2));
            assert(self@ =~= ContractV {
                products: s0.products.update(product_id as int, p2),
                ..s0
            });
            lemma_wf_product_update(s0, product_id as int, p2);
        }
        Ok(())
    }

    /// The full snapshot of the product with id `product_id`.
    pub fn get_product(&self, product_id: usize) -> (r: Result<Product, OnClickContractError>)
        requires
            self.wf(),
        ensures
            match r {
                Ok(p) => product_id < self@.products.len() && p@ == self@.products[product_id as int],
                Err(e) => e == OnClickContractError::ProductNotFound && product_id
                    >= self@.products.len(),
            },
    {
        if product_id >= self.products.len() {
            return Err(OnClickContractError::ProductNotFound);
        }
        let p = &self.products[product_id];
        let r = Product {
            id: p.id,
            owner: p.owner,
            name: copy_bytes(&p.name),
            price: p.price,
            metadata: copy_bytes(&p.metadata),
            active: p.active,
            total_sold: p.total_sold,
            created_at: p.created_at,
        };
        proof {
            assert(r@ =~= self@.products[product_id as int]);
        }
        Ok(r)
    }
}

/// Appending a product that carries the next id and no sales keeps the state
/// well-formed.
pub proof fn lemma_wf_product_push(s: ContractV, p: ProductV)
    requires
        wf_state(s),
        p.id == s.products.len(),
        p.total_sold == 0,
    ensures
        wf_state(ContractV { products: s.products.push(p), ..s }),
{
    let s2 = ContractV { products: s.products.push(p), ..s };
    assert forall|a: int| 0 <= a < s2.products.len() implies (#[trigger] s2.products[a]).id == a
        && s2.products[a].total_sold <= s2.transactions.len() by {
        if a < s.products.len() {
            assert(s.products[a].id == a && s.products[a].total_sold <= s.transactions.len());
        }
    }
    assert forall|a: int| 0 <= a < s2.intents.len() implies wf_intent(
        s2,
        #[trigger] s2.intents[a],
    ) by {
        assert(wf_intent(s, s.intents[a]));
        let k = crate::ledger::page_idx_by_owner(s, s.intents[a].creator);
        assert(s2.pages[k].owner == s.intents[a].creator);
        assert(has_page_owner(s2, s.intents[a].creator));
    }
}

/// Replacing a product with one that keeps its id and sales count keeps the
/// state well-formed.
pub proof fn lemma_wf_product_update(s: ContractV, pi: int, p: ProductV)
    requires
        wf_state(s),
        0 <= pi < s.products.len(),
        p.id == s.products[pi].id,
        p.total_sold == s.products[pi].total_sold,
    ensures
        wf_state(ContractV { products: s.products.update(pi, p), ..s }),
{
    let s2 = ContractV { products: s.products.update(pi, p), ..s };
    assert forall|a: int| 0 <= a < s2.products.len() implies (#[trigger] s2.products[a]).id == a
        && s2.products[a].total_sold <= s2.transactions.len() by {
        assert(s.products[a].id == a && s.products[a].total_sold <= s.transactions.len());
    }
    assert forall|a: int| 0 <= a < s2.intents.len() implies wf_intent(
        s2,
        #[trigger] s2.intents[a],
    ) by {
        assert(wf_intent(s, s.intents[a]));
        let k = crate::ledger::page_idx_by_owner(s, s.intents[a].creator);
        assert(s2.pages[k].owner == s.intents[a].creator);
        assert(has_page_owner(s2, s.intents[a].creator));
    }
}

} // verus!
