use onclick_contract::AccountId;
use onclick_contract::OnClickContract;
use onclick_contract::OnClickContractError;

fn acct(n: u32) -> AccountId {
    AccountId { hi: n, lo: n as u128 }
}

fn with_creator() -> (OnClickContract, AccountId) {
    let mut c = OnClickContract::new(acct(1));
    let alice = acct(10);
    c.register_user(alice, 100, b"alice".to_vec(), 0, b"A".to_vec(), Vec::new()).unwrap();
    (c, alice)
}

#[test]
fn create_intent_and_read_back() {
    let (mut c, alice) = with_creator();
    let id = c.create_payment_intent(alice, 100, 250, b"coffee".to_vec(), 3600, 5).unwrap();
    // The identifier is a 32-byte digest, not the preimage handed in.
    assert_eq!(id.len(), 32);
    let n = c.get_payment_intent(&id).unwrap();
    assert_eq!(n.creator, alice);
    assert_eq!(n.handle, b"alice".to_vec());
    assert_eq!(n.amount, 250);
    assert_eq!(n.description, b"coffee".to_vec());
    assert!(n.active);
    assert_eq!(n.created_at, 100);
    assert_eq!(n.expires_at, 3700);
    assert_eq!(n.usage_count, 0);
    assert_eq!(n.max_usages, 5);
}

#[test]
fn create_intent_validations() {
    let (mut c, alice) = with_creator();
    let r = c.create_payment_intent(acct(99), 100, 250, Vec::new(), 3600, 0);
    assert_eq!(r.unwrap_err(), OnClickContractError::PageNotFound);
    let r = c.create_payment_intent(alice, 100, 0, Vec::new(), 3600, 0);
    assert_eq!(r.unwrap_err(), OnClickContractError::InvalidAmount);
    let r = c.create_payment_intent(alice, 100, 250, Vec::new(), 0, 0);
    assert_eq!(r.unwrap_err(), OnClickContractError::InvalidExpiration);
}

#[test]
fn intent_ids_differ_per_creation() {
    let (mut c, alice) = with_creator();
    // Same creator, time, and amount: the nonce alone keeps the identifiers
    // apart.
    let id1 = c.create_payment_intent(alice, 100, 250, Vec::new(), 3600, 0).unwrap();
    let id2 = c.create_payment_intent(alice, 100, 250, Vec::new(), 3600, 0).unwrap();
    assert_ne!(id1, id2);
    assert_eq!(c.get_payment_intent_count_by_address(alice), 2);
}

#[test]
fn pay_intent_settles_to_creator() {
    let (mut c, alice) = with_creator();
    c.set_platform_fee(acct(1), 250).unwrap();
    let id = c.create_payment_intent(alice, 100, 1000, Vec::new(), 3600, 0).unwrap();
    let st = c.pay_intent(acct(20), 1000, 200, &id, b"msg".to_vec()).unwrap();
    assert_eq!(st.fee, 25);
    assert_eq!(st.net_amount, 975);
    assert_eq!(st.payee, alice);
    let p = c.get_page_by_handle(&b"alice".to_vec()).unwrap();
    assert_eq!(p.raised, 975);
    assert_eq!(p.supporters, 1);
    assert_eq!(c.fees_collected, 25);
    // An unlimited intent records no usage.
    assert_eq!(c.get_payment_intent(&id).unwrap().usage_count, 0);
    // The amount must match the declaration exactly.
    let r = c.pay_intent(acct(20), 999, 200, &id, Vec::new());
    assert_eq!(r.unwrap_err(), OnClickContractError::InvalidAmount);
}

#[test]
fn intent_usage_cap() {
    let (mut c, alice) = with_creator();
    let id = c.create_payment_intent(alice, 100, 50, Vec::new(), 3600, 2).unwrap();
    c.pay_intent(acct(20), 50, 101, &id, Vec::new()).unwrap();
    assert_eq!(c.get_payment_intent(&id).unwrap().usage_count, 1);
    c.pay_intent(acct(21), 50, 102, &id, Vec::new()).unwrap();
    assert_eq!(c.get_payment_intent(&id).unwrap().usage_count, 2);
    let r = c.pay_intent(acct(22), 50, 103, &id, Vec::new());
    assert_eq!(r.unwrap_err(), OnClickContractError::PaymentIntentMaxUsages);
    // The count stands where the cap stopped it.
    assert_eq!(c.get_payment_intent(&id).unwrap().usage_count, 2);
}

#[test]
fn intent_expiry_boundary() {
    let (mut c, alice) = with_creator();
    // Created at 100, expires 3600 later: payable at 3700 exactly, not 3701.
    let id = c.create_payment_intent(alice, 100, 50, Vec::new(), 3600, 0).unwrap();
    c.pay_intent(acct(20), 50, 3700, &id, Vec::new()).unwrap();
    let r = c.pay_intent(acct(20), 50, 3701, &id, Vec::new());
    assert_eq!(r.unwrap_err(), OnClickContractError::PaymentIntentExpired);
}

#[test]
fn cancel_intent() {
    let (mut c, alice) = with_creator();
    let id = c.create_payment_intent(alice, 100, 50, Vec::new(), 3600, 0).unwrap();
    let r = c.cancel_payment_intent(acct(20), &id);
    assert_eq!(r.unwrap_err(), OnClickContractError::NotPageOwner);
    c.cancel_payment_intent(alice, &id).unwrap();
    assert!(!c.get_payment_intent(&id).unwrap().active);
    let r = c.pay_intent(acct(20), 50, 101, &id, Vec::new());
    assert_eq!(r.unwrap_err(), OnClickContractError::PaymentIntentInactive);
}

#[test]
fn unknown_intent_ids() {
    let (mut c, _alice) = with_creator();
    let bogus = vec![7u8; 32];
    assert_eq!(
        c.get_payment_intent(&bogus).unwrap_err(),
        OnClickContractError::PaymentIntentNotFound
    );
    let r = c.pay_intent(acct(20), 50, 0, &bogus, Vec::new());
    assert_eq!(r.unwrap_err(), OnClickContractError::PaymentIntentNotFound);
    let r = c.cancel_payment_intent(acct(20), &bogus);
    assert_eq!(r.unwrap_err(), OnClickContractError::PaymentIntentNotFound);
}

#[test]
fn intent_listing_by_handle_and_address() {
    let (mut c, alice) = with_creator();
    let bob = acct(30);
    c.register_user(bob, 0, b"bobby".to_vec(), 1, b"B".to_vec(), Vec::new()).unwrap();
    let id1 = c.create_payment_intent(alice, 100, 10, Vec::new(), 10, 0).unwrap();
    let id2 = c.create_payment_intent(bob, 100, 20, Vec::new(), 10, 0).unwrap();
    let id3 = c.create_payment_intent(alice, 101, 30, Vec::new(), 10, 0).unwrap();
    let mine = c.get_payment_intents_by_handle(&b"alice".to_vec());
    assert_eq!(mine, vec![id1.clone(), id3.clone()]);
    let theirs = c.get_payment_intents_by_address(bob);
    assert_eq!(theirs, vec![id2.clone()]);
    assert_eq!(c.get_payment_intent_count_by_handle(&b"alice".to_vec()), 2);
    assert_eq!(c.get_payment_intent_count_by_handle(&b"bobby".to_vec()), 1);
    assert_eq!(c.get_payment_intent_count_by_address(alice), 2);
    assert_eq!(c.get_payment_intent_count_by_handle(&b"ghost".to_vec()), 0);
}
