use vstd::prelude::*;
use crate::account::AccountId;

verus! {

/// The result of the keccak-256 digest on a byte sequence: a function of the
/// input bytes alone, left unstated beyond that.
pub uninterp spec fn keccak_of(bytes: Seq<u8>) -> Seq<u8>;

/// Relies on `stylus_sdk::crypto::keccak`: the keccak-256 digest of the input
/// bytes, 32 bytes long, depending on the input bytes alone.
#[verifier::external_body]
pub(crate) fn keccak_bytes(bytes: &Vec<u8>) -> (r: Vec<u8>)
    ensures
        r@ == keccak_of(bytes@),
        r@.len() == 32,
{
    stylus_sdk::crypto::keccak(bytes.as_slice()).0.to_vec()
}

/// Whether two byte strings hold the same bytes.
pub fn bytes_eq(a: &Vec<u8>, b: &Vec<u8>) -> (r: bool)
    ensures
        r == (a@ == b@),
{
    if a.len() != b.len() {
        return false;
    }
    let n = a.len();
    let mut i: usize = 0;
    while i < n
        invariant
            n == a@.len() == b@.len(),
            i <= n,
            forall|j: int| 0 <= j < i ==> a@[j] == b@[j],
        decreases n - i,
    {
        if a[i] != b[i] {
            return false;
        }
        i = i + 1;
    }
    proof {
        assert(a@ =~= b@);
    }
    true
}

/// A fresh copy of a byte string.
pub fn copy_bytes(a: &Vec<u8>) -> (r: Vec<u8>)
    ensures
        r@ == a@,
{
    let n = a.len();
    let mut out: Vec<u8> = Vec::new();
    let mut i: usize = 0;
    while i < n
        invariant
            n == a@.len(),
            i <= n,
            out@ == a@.subrange(0, i as int),
        decreases n - i,
    {
        out.push(a[i]);
        proof {
            assert(out@ =~= a@.subrange(0, i + 1));
        }
        i = i + 1;
    }
    proof {
        assert(out@ =~= a@);
    }
    out
}

/// The `n`-byte little-endian rendering of a value (modulo 256^n).
pub open spec fn le_bytes(v: nat, n: nat) -> Seq<u8>
    decreases n,
{
    if n == 0 {
        Seq::empty()
    } else {
        seq![(v % 256) as u8] + le_bytes(v / 256, (n - 1) as nat)
    }
}

/// Append the `n`-byte little-endian rendering of `v` to `out`.
pub fn push_le_bytes(out: &mut Vec<u8>, v: u128, n: usize)
    ensures
        final(out)@ == old(out)@ + le_bytes(v as nat, n as nat),
{
    let mut cur: u128 = v;
    let mut i: usize = 0;
    while i < n
        invariant
            i <= n,
            out@ + le_bytes(cur as nat, (n - i) as nat) == old(out)@ + le_bytes(
                v as nat,
                n as nat,
            ),
        decreases n - i,
    {
        let b: u8 = (cur % 256) as u8;
        out.push(b);
        proof {
            assert(le_bytes(cur as nat, (n - i) as nat) == seq![b] + le_bytes(
                (cur / 256) as nat,
                (n - i - 1) as nat,
            ));
            assert(out@ + le_bytes((cur / 256) as nat, (n - i - 1) as nat) =~= old(out)@
                + le_bytes(v as nat, n as nat));
        }
        cur = cur / 256;
        i = i + 1;
    }
    proof {
        assert(le_bytes(cur as nat, 0) =~= Seq::<u8>::empty());
        assert(out@ =~= out@ + Seq::<u8>::empty());
    }
}

/// The preimage hashed to derive a payment-intent identifier: the creator
/// identity, the creation time, the requested amount, and a nonce that makes
/// simultaneous equal requests by one creator distinct.
pub open spec fn intent_seed(creator: AccountId, now: u64, amount: u128, nonce: u64) -> Seq<u8> {
    le_bytes(creator.hi as nat, 4) + le_bytes(creator.lo as nat, 16) + le_bytes(now as nat, 8)
        + le_bytes(amount as nat, 16) + le_bytes(nonce as nat, 8)
}

/// Build the payment-intent preimage as `intent_seed` says.
pub fn encode_intent_seed(creator: AccountId, now: u64, amount: u128, nonce: u64) -> (r: Vec<u8>)
    ensures
        r@ == intent_seed(creator, now, amount, nonce),
{
    let mut out: Vec<u8> = Vec::new();
    push_le_bytes(&mut out, creator.hi as u128, 4);
    push_le_bytes(&mut out, creator.lo, 16);
    push_le_bytes(&mut out, now as u128, 8);
    push_le_bytes(&mut out, amount, 16);
    push_le_bytes(&mut out, nonce as u128, 8);
    proof {
        assert(out@ =~= intent_seed(creator, now, amount, nonce));
    }
    out
}

} // verus!
