use vstd::prelude::*;
use crate::account::AccountId;
use crate::records::IntentV;
use crate::records::Page;
use crate::records::PageV;
use crate::records::PaymentIntent;
use crate::records::Product;
use crate::records::ProductV;
use crate::records::TxRecord;
use crate::records::TxV;
use crate::encoding::bytes_eq;

verus! {

/// The whole ledger: platform configuration and treasury, the page registry,
/// the product catalog, the append-only transaction log, and the payment
/// intents. One value of this type is the single consistent state that every
/// host call reads and mutates atomically.
#[derive(Clone)]
pub struct OnClickContract {
    pub admin: AccountId,
    pub fee_bps: u64,
    pub fees_collected: u128,
    pub pages: Vec<Page>,
    pub products: Vec<Product>,
    pub transactions: Vec<TxRecord>,
    pub intents: Vec<PaymentIntent>,
}

/// The mathematical value of the ledger.
#[verifier::ext_equal]
pub ghost struct ContractV {
    pub admin: AccountId,
    pub fee_bps: u64,
    pub fees_collected: u128,
    pub pages: Seq<PageV>,
    pub products: Seq<ProductV>,
    pub transactions: Seq<TxV>,
    pub intents: Seq<IntentV>,
}

impl View for OnClickContract {
    type V = ContractV;

    open spec fn view(&self) -> ContractV {
        ContractV {
            admin: self.admin,
            fee_bps: self.fee_bps,
            fees_collected: self.fees_collected,
            pages: self.pages@.map_values(|p: Page| p@),
            products: self.products@.map_values(|p: Product| p@),
            transactions: self.transactions@.map_values(|t: TxRecord| t@),
            intents: self.intents@.map_values(|n: PaymentIntent| n@),
        }
    }
}

/// Whether some page is owned by `o`.
pub open spec fn has_page_owner(s: ContractV, o: AccountId) -> bool {
    exists|i: int| 0 <= i < s.pages.len() && (#[trigger] s.pages[i]).owner == o
}

/// The index of the page owned by `o` (meaningful when `has_page_owner`).
pub open spec fn page_idx_by_owner(s: ContractV, o: AccountId) -> int {
    choose|i: int| 0 <= i < s.pages.len() && (#[trigger] s.pages[i]).owner == o
}

/// Whether some page has claimed the handle `h`.
pub open spec fn has_page_handle(s: ContractV, h: Seq<u8>) -> bool {
    exists|i: int| 0 <= i < s.pages.len() && (#[trigger] s.pages[i]).handle == h
}

/// The index of the page that claimed `h` (meaningful when `has_page_handle`).
pub open spec fn page_idx_by_handle(s: ContractV, h: Seq<u8>) -> int {
    choose|i: int| 0 <= i < s.pages.len() && (#[trigger] s.pages[i]).handle == h
}

/// Whether some payment intent carries the identifier `id`.
pub open spec fn has_intent(s: ContractV, id: Seq<u8>) -> bool {
    exists|i: int| 0 <= i < s.intents.len() && (#[trigger] s.intents[i]).id == id
}

/// The index of the intent with identifier `id` (meaningful when `has_intent`).
pub open spec fn intent_idx(s: ContractV, id: Seq<u8>) -> int {
    choose|i: int| 0 <= i < s.intents.len() && (#[trigger] s.intents[i]).id == id
}

/// What must hold of one payment intent within a well-formed state.
pub open spec fn wf_intent(s: ContractV, n: IntentV) -> bool {
    &&& n.id.len() == 32
    &&& n.max_usages != 0 ==> n.usage_count <= n.max_usages
    &&& n.usage_count <= s.transactions.len()
    &&& has_page_owner(s, n.creator)
}

/// The ledger invariant: the fee rate stays within 10000 basis points; each
/// identity owns at most one page and each handle is claimed at most once;
/// handles are at least three bytes; product and transaction ids equal their
/// position in their store, so an id is assigned once and never reused;
/// intent identifiers are unique, every intent's creator still has a page,
/// and a capped intent never exceeds its cap. The counters bounded by the
/// transaction count each grow by one exactly when a transaction is appended.
pub open spec fn wf_state(s: ContractV) -> bool {
    &&& s.fee_bps <= 10000
    &&& forall|i: int, j: int|
        #![trigger s.pages[i], s.pages[j]]
        0 <= i < j < s.pages.len() ==> s.pages[i].owner != s.pages[j].owner && s.pages[i].handle
            != s.pages[j].handle
    &&& forall|i: int|
        #![trigger s.pages[i]]
        0 <= i < s.pages.len() ==> s.pages[i].handle.len() >= 3 && s.pages[i].supporters
            <= s.transactions.len()
    &&& forall|i: int|
        #![trigger s.products[i]]
        0 <= i < s.products.len() ==> s.products[i].id == i && s.products[i].total_sold
            <= s.transactions.len()
    &&& forall|i: int| #![trigger s.transactions[i]]
        0 <= i < s.transactions.len() ==> s.transactions[i].id == i
    &&& forall|i: int| #![trigger s.intents[i]]
        0 <= i < s.intents.len() ==> wf_intent(s, s.intents[i])
    &&& forall|i: int, j: int|
        #![trigger s.intents[i], s.intents[j]]
        0 <= i < j < s.intents.len() ==> s.intents[i].id != s.intents[j].id
}

impl OnClickContract {
    /// The ledger invariant, of this value.
    pub open spec fn wf(&self) -> bool {
        wf_state(self@)
    }

    /// A fresh ledger: the given administrator, no fee, an empty treasury,
    /// and no pages, products, transactions, or intents.
    pub fn new(admin: AccountId) -> (r: OnClickContract)
        ensures
            r.wf(),
            r@.admin == admin,
            r@.fee_bps == 0,
            r@.fees_collected == 0,
            r@.pages.len() == 0,
            r@.products.len() == 0,
            r@.transactions.len() == 0,
            r@.intents.len() == 0,
    {
        OnClickContract {
            admin,
            fee_bps: 0,
            fees_collected: 0,
            pages: Vec::new(),
            products: Vec::new(),
            transactions: Vec::new(),
            intents: Vec::new(),
        }
    }

    /// The value the global page counter would hand to the next registration.
    pub fn get_next_id(&self) -> (r: usize)
        ensures
            r == self@.pages.len(),
    {
        self.pages.len()
    }

    /// Find the position of the page owned by `o`.
    pub(crate) fn find_page_by_owner(&self, o: AccountId) -> (r: Option<usize>)
        requires
            self.wf(),
        ensures
            match r {
                Some(i) => has_page_owner(self@, o) && page_idx_by_owner(self@, o) == i as int
                    && i < self@.pages.len() && self@.pages[i as int].owner == o,
                None => !has_page_owner(self@, o),
            },
    {
        let n = self.pages.len();
        let mut i: usize = 0;
        while i < n
            invariant
                self.wf(),
                n == self@.pages.len(),
                i <= n,
                forall|j: int| 0 <= j < i ==> (#[trigger] self@.pages[j]).owner != o,
            decreases n - i,
        {
            if self.pages[i].owner == o {
                proof {
                    lemma_page_idx_by_owner(self@, o, i as int);
                }
                return Some(i);
            }
            i = i + 1;
        }
        proof {
            if has_page_owner(self@, o) {
                let k = page_idx_by_owner(self@, o);
                assert(self@.pages[k].owner == o);
                assert(false);
            }
        }
        None
    }

    /// Find the position of the page that claimed the handle `h`.
    pub(crate) fn find_page_by_handle(&self, h: &Vec<u8>) -> (r: Option<usize>)
        requires
            self.wf(),
        ensures
            match r {
                Some(i) => has_page_handle(self@, h@) && page_idx_by_handle(self@, h@) == i as int
                    && i < self@.pages.len() && self@.pages[i as int].handle == h@,
                None => !has_page_handle(self@, h@),
            },
    {
        let n = self.pages.len();
        let mut i: usize = 0;
        while i < n
            invariant
                self.wf(),
                n == self@.pages.len(),
                i <= n,
                forall|j: int| 0 <= j < i ==> (#[trigger] self@.pages[j]).handle != h@,
            decreases n - i,
        {
            if bytes_eq(&self.pages[i].handle, h) {
                proof {
                    lemma_page_idx_by_handle(self@, h@, i as int);
                }
                return Some(i);
            }
            i = i + 1;
        }
        proof {
            if has_page_handle(self@, h@) {
                let k = page_idx_by_handle(self@, h@);
                assert(self@.pages[k].handle == h@);
                assert(false);
            }
        }
        None
    }

    /// Find the position of the payment intent with identifier `id`.
    pub(crate) fn find_intent(&self, id: &Vec<u8>) -> (r: Option<usize>)
        requires
            self.wf(),
        ensures
            match r {
                Some(i) => has_intent(self@, id@) && intent_idx(self@, id@) == i as int && i
                    < self@.intents.len() && self@.intents[i as int].id == id@,
                None => !has_intent(self@, id@),
            },
    {
        let n = self.intents.len();
        let mut i: usize = 0;
        while i < n
            invariant
                self.wf(),
                n == self@.intents.len(),
                i <= n,
                forall|j: int| 0 <= j < i ==> (#[trigger] self@.intents[j]).id != id@,
            decreases n - i,
        {
            if bytes_eq(&self.intents[i].id, id) {
                proof {
                    lemma_intent_idx(self@, id@, i as int);
                }
                return Some(i);
            }
            i = i + 1;
        }
        proof {
            if has_intent(self@, id@) {
                let k = intent_idx(self@, id@);
                assert(self@.intents[k].id == id@);
                assert(false);
            }
        }
        None
    }

    /// Whether `handle` is still free to claim. A pure read with no effect.
    pub fn check_handle_availability(&self, handle: &Vec<u8>) -> (r: bool)
        requires
            self.wf(),
        ensures
            r == !has_page_handle(self@, handle@),
    {
        match self.find_page_by_handle(handle) {
            Some(_) => false,
            None => true,
        }
    }
}

/// In a well-formed state the page index chosen for an owner is the one
/// position holding that owner's page.
pub proof fn lemma_page_idx_by_owner(s: ContractV, o: AccountId, i: int)
    requires
        wf_state(s),
        0 <= i < s.pages.len(),
        s.pages[i].owner == o,
    ensures
        has_page_owner(s, o),
        page_idx_by_owner(s, o) == i,
{
    assert(has_page_owner(s, o));
    let j = page_idx_by_owner(s, o);
    assert(0 <= j < s.pages.len() && s.pages[j].owner == o);
    if i < j {
        assert(s.pages[i].owner != s.pages[j].owner);
    } else if j < i {
        assert(s.pages[j].owner != s.pages[i].owner);
    }
}

/// In a well-formed state the page index chosen for a handle is the one
/// position holding the page that claimed it.
pub proof fn lemma_page_idx_by_handle(s: ContractV, h: Seq<u8>, i: int)
    requires
        wf_state(s),
        0 <= i < s.pages.len(),
        s.pages[i].handle == h,
    ensures
        has_page_handle(s, h),
        page_idx_by_handle(s, h) == i,
{
    assert(has_page_handle(s, h));
    let j = page_idx_by_handle(s, h);
    assert(0 <= j < s.pages.len() && s.pages[j].handle == h);
    if i < j {
        assert(s.pages[i].handle != s.pages[j].handle);
    } else if j < i {
        assert(s.pages[j].handle != s.pages[i].handle);
    }
}

/// In a well-formed state the intent index chosen for an identifier is the
/// one position holding the intent that carries it.
pub proof fn lemma_intent_idx(s: ContractV, id: Seq<u8>, i: int)
    requires
        wf_state(s),
        0 <= i < s.intents.len(),
        s.intents[i].id == id,
    ensures
        has_intent(s, id),
        intent_idx(s, id) == i,
{
    assert(has_intent(s, id));
    let j = intent_idx(s, id);
    assert(0 <= j < s.intents.len() && s.intents[j].id == id);
    if i < j {
        assert(s.intents[i].id != s.intents[j].id);
    } else if j < i {
        assert(s.intents[j].id != s.intents[i].id);
    }
}

} // verus!
