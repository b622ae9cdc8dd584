use vstd::prelude::*;
use crate::account::AccountId;
use crate::account::Role;

verus! {

/// A participant's public profile and funding summary, keyed by its owner and
/// reachable by its unique handle. Pages are deactivated, never removed.
#[derive(Clone, Debug)]
pub struct Page {
    pub owner: AccountId,
    pub handle: Vec<u8>,
    pub role: Role,
    pub name: Vec<u8>,
    pub metadata: Vec<u8>,
    pub goal: u128,
    pub raised: u128,
    pub supporters: u64,
    pub active: bool,
    pub created_at: u64,
}

/// The mathematical value of a `Page`.
#[verifier::ext_equal]
pub ghost struct PageV {
    pub owner: AccountId,
    pub handle: Seq<u8>,
    pub role: Role,
    pub name: Seq<u8>,
    pub metadata: Seq<u8>,
    pub goal: u128,
    pub raised: u128,
    pub supporters: u64,
    pub active: bool,
    pub created_at: u64,
}

impl View for Page {
    type V = PageV;

    open spec fn view(&self) -> PageV {
        PageV {
            owner: self.owner,
            handle: self.handle@,
            role: self.role,
            name: self.name@,
            metadata: self.metadata@,
            goal: self.goal,
            raised: self.raised,
            supporters: self.supporters,
            active: self.active,
            created_at: self.created_at,
        }
    }
}

/// A sellable item of a Business page. Its id is assigned once from a global
/// counter and never reused; deletion only clears the active flag.
#[derive(Clone, Debug)]
pub struct Product {
    pub id: usize,
    pub owner: AccountId,
    pub name: Vec<u8>,
    pub price: u128,
    pub metadata: Vec<u8>,
    pub active: bool,
    pub total_sold: u64,
    pub created_at: u64,
}

/// The mathematical value of a `Product`.
#[verifier::ext_equal]
pub ghost struct ProductV {
    pub id: usize,
    pub owner: AccountId,
    pub name: Seq<u8>,
    pub price: u128,
    pub metadata: Seq<u8>,
    pub active: bool,
    pub total_sold: u64,
    pub created_at: u64,
}

impl View for Product {
    type V = ProductV;

    open spec fn view(&self) -> ProductV {
        ProductV {
            id: self.id,
            owner: self.owner,
            name: self.name@,
            price: self.price,
            metadata: self.metadata@,
            active: self.active,
            total_sold: self.total_sold,
            created_at: self.created_at,
        }
    }
}

/// One settled value transfer in the append-only ledger. The amount recorded
/// is the net amount after the platform fee was deducted.
#[derive(Clone, Debug)]
pub struct TxRecord {
    pub id: usize,
    pub from: AccountId,
    pub to: AccountId,
    pub amount: u128,
    pub message: Vec<u8>,
    pub payee_role: Role,
    pub product_id: Option<usize>,
    pub timestamp: u64,
    pub refunded: bool,
}

/// The mathematical value of a `TxRecord`.
#[verifier::ext_equal]
pub ghost struct TxV {
    pub id: usize,
    pub from: AccountId,
    pub to: AccountId,
    pub amount: u128,
    pub message: Seq<u8>,
    pub payee_role: Role,
    pub product_id: Option<usize>,
    pub timestamp: u64,
    pub refunded: bool,
}

impl View for TxRecord {
    type V = TxV;

    open spec fn view(&self) -> TxV {
        TxV {
            id: self.id,
            from: self.from,
            to: self.to,
            amount: self.amount,
            message: self.message@,
            payee_role: self.payee_role,
            product_id: self.product_id,
            timestamp: self.timestamp,
            refunded: self.refunded,
        }
    }
}

/// A reusable payment request: anyone may pay it while it is active, not
/// expired, and under its usage cap (`max_usages` of zero means unlimited).
/// Its 32-byte identifier is derived by the keccak-256 digest at creation.
#[derive(Clone, Debug)]
pub struct PaymentIntent {
    pub id: Vec<u8>,
    pub creator: AccountId,
    pub handle: Vec<u8>,
    pub amount: u128,
    pub description: Vec<u8>,
    pub active: bool,
    pub created_at: u64,
    pub expires_at: u128,
    pub usage_count: u64,
    pub max_usages: u64,
}

/// The mathematical value of a `PaymentIntent`.
#[verifier::ext_equal]
pub ghost struct IntentV {
    pub id: Seq<u8>,
    pub creator: AccountId,
    pub handle: Seq<u8>,
    pub amount: u128,
    pub description: Seq<u8>,
    pub active: bool,
    pub created_at: u64,
    pub expires_at: u128,
    pub usage_count: u64,
    pub max_usages: u64,
}

impl View for PaymentIntent {
    type V = IntentV;

    open spec fn view(&self) -> IntentV {
        IntentV {
            id: self.id@,
            creator: self.creator,
            handle: self.handle@,
            amount: self.amount,
            description: self.description@,
            active: self.active,
            created_at: self.created_at,
            expires_at: self.expires_at,
            usage_count: self.usage_count,
            max_usages: self.max_usages,
        }
    }
}

/// What one settlement did: the ledger id of the appended transaction, the
/// payee owed the transfer, and the exact fee/net split of the gross amount.
/// The host performs the `net_amount` transfer to `payee`; the fee stays in
/// the platform treasury.
#[derive(Clone, Copy, PartialEq, Eq, Structural, Debug)]
pub struct Settlement {
    pub tx_id: usize,
    pub payee: AccountId,
    pub net_amount: u128,
    pub fee: u128,
}

} // verus!
