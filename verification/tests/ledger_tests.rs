use onclick_contract::AccountId;
use onclick_contract::OnClickContract;
use onclick_contract::OnClickContractError;

fn acct(n: u32) -> AccountId {
    AccountId { hi: n, lo: n as u128 }
}

fn fresh() -> OnClickContract {
    OnClickContract::new(acct(1))
}

#[test]
fn register_and_lookup() {
    let mut c = fresh();
    let alice = acct(10);
    let id = c
        .register_user(alice, 100, b"alice".to_vec(), 0, b"Alice".to_vec(), b"meta".to_vec())
        .unwrap();
    assert_eq!(id, 0);
    assert_eq!(c.get_next_id(), 1);
    let p = c.get_page_by_handle(&b"alice".to_vec()).unwrap();
    assert_eq!(p.owner, alice);
    assert_eq!(p.handle, b"alice".to_vec());
    assert_eq!(p.name, b"Alice".to_vec());
    assert_eq!(p.raised, 0);
    assert_eq!(p.supporters, 0);
    assert!(p.active);
    assert_eq!(p.created_at, 100);
    let q = c.get_page_by_address(alice).unwrap();
    assert_eq!(q.handle, b"alice".to_vec());
}

#[test]
fn register_rejects_short_handle() {
    let mut c = fresh();
    let r = c.register_user(acct(10), 0, b"al".to_vec(), 0, b"A".to_vec(), Vec::new());
    assert_eq!(r.unwrap_err(), OnClickContractError::InvalidHandle);
}

#[test]
fn register_rejects_bad_role() {
    let mut c = fresh();
    let r = c.register_user(acct(10), 0, b"alice".to_vec(), 3, b"A".to_vec(), Vec::new());
    assert_eq!(r.unwrap_err(), OnClickContractError::InvalidRole);
}

#[test]
fn handle_uniqueness() {
    let mut c = fresh();
    c.register_user(acct(10), 0, b"alice".to_vec(), 0, b"A".to_vec(), Vec::new()).unwrap();
    // A different caller cannot take the handle...
    let r = c.register_user(acct(11), 1, b"alice".to_vec(), 1, b"B".to_vec(), Vec::new());
    assert_eq!(r.unwrap_err(), OnClickContractError::HandleAlreadyTaken);
    // ...and neither can the same caller again.
    let r = c.register_user(acct(10), 2, b"alice".to_vec(), 0, b"A".to_vec(), Vec::new());
    assert_eq!(r.unwrap_err(), OnClickContractError::HandleAlreadyTaken);
    // One page per identity, whatever the handle.
    let r = c.register_user(acct(10), 3, b"other".to_vec(), 0, b"A".to_vec(), Vec::new());
    assert_eq!(r.unwrap_err(), OnClickContractError::HandleAlreadyTaken);
    assert!(!c.check_handle_availability(&b"alice".to_vec()));
    assert!(c.check_handle_availability(&b"bob".to_vec()));
}

#[test]
fn idempotent_reads() {
    let mut c = fresh();
    c.register_user(acct(10), 7, b"alice".to_vec(), 0, b"A".to_vec(), b"m".to_vec()).unwrap();
    let p1 = c.get_page_by_handle(&b"alice".to_vec()).unwrap();
    let p2 = c.get_page_by_handle(&b"alice".to_vec()).unwrap();
    assert_eq!(p1.owner, p2.owner);
    assert_eq!(p1.handle, p2.handle);
    assert_eq!(p1.name, p2.name);
    assert_eq!(p1.metadata, p2.metadata);
    assert_eq!(p1.raised, p2.raised);
    assert_eq!(p1.supporters, p2.supporters);
    assert_eq!(p1.goal, p2.goal);
    assert_eq!(p1.active, p2.active);
    assert_eq!(p1.created_at, p2.created_at);
}

#[test]
fn donation_scenario() {
    // Creator registers "alice"; a donor sends 1000 at 250 basis points:
    // fee 25, net 975.
    let mut c = fresh();
    let alice = acct(10);
    c.register_user(alice, 0, b"alice".to_vec(), 0, b"A".to_vec(), Vec::new()).unwrap();
    c.set_platform_fee(acct(1), 250).unwrap();
    let st = c.make_donation(acct(20), 1000, 5, &b"alice".to_vec(), b"hi".to_vec()).unwrap();
    assert_eq!(st.fee, 25);
    assert_eq!(st.net_amount, 975);
    assert_eq!(st.payee, alice);
    assert_eq!(st.tx_id, 0);
    let p = c.get_page_by_handle(&b"alice".to_vec()).unwrap();
    assert_eq!(p.raised, 975);
    assert_eq!(p.supporters, 1);
    assert_eq!(c.get_page_balance(&b"alice".to_vec()).unwrap(), 975);
    assert_eq!(c.fees_collected, 25);
    assert_eq!(c.transactions.len(), 1);
    assert_eq!(c.transactions[0].amount, 975);
}

#[test]
fn donation_requires_creator_page() {
    let mut c = fresh();
    c.register_user(acct(10), 0, b"shop1".to_vec(), 1, b"S".to_vec(), Vec::new()).unwrap();
    let r = c.make_donation(acct(20), 100, 0, &b"shop1".to_vec(), Vec::new());
    assert_eq!(r.unwrap_err(), OnClickContractError::InvalidRole);
    let r = c.make_donation(acct(20), 100, 0, &b"ghost".to_vec(), Vec::new());
    assert_eq!(r.unwrap_err(), OnClickContractError::PageNotFound);
    let r = c.make_donation(acct(20), 0, 0, &b"shop1".to_vec(), Vec::new());
    assert_eq!(r.unwrap_err(), OnClickContractError::InvalidAmount);
}

#[test]
fn fee_split_exact_values() {
    // floor(999 * 9999 / 10000) = 998 -> net 1; zero rate takes nothing.
    let mut c = fresh();
    c.register_user(acct(10), 0, b"alice".to_vec(), 0, b"A".to_vec(), Vec::new()).unwrap();
    c.set_platform_fee(acct(1), 9999).unwrap();
    let st = c.make_donation(acct(20), 999, 0, &b"alice".to_vec(), Vec::new()).unwrap();
    assert_eq!(st.fee, 998);
    assert_eq!(st.net_amount, 1);
    assert_eq!(st.fee + st.net_amount, 999);
    c.set_platform_fee(acct(1), 0).unwrap();
    let st = c.make_donation(acct(20), 12345, 0, &b"alice".to_vec(), Vec::new()).unwrap();
    assert_eq!(st.fee, 0);
    assert_eq!(st.net_amount, 12345);
}

#[test]
fn purchase_scenario() {
    // Business registers "shop", lists a 500-priced product; 499 misses the
    // price, 500 settles and sells one.
    let mut c = fresh();
    let shop = acct(30);
    c.register_user(shop, 0, b"shop".to_vec(), 1, b"Shop".to_vec(), Vec::new()).unwrap();
    let pid = c
        .create_product(shop, 1, &b"shop".to_vec(), b"mug".to_vec(), 500, b"m".to_vec())
        .unwrap();
    assert_eq!(pid, 0);
    let r = c.purchase_product(acct(40), 499, 2, &b"shop".to_vec(), pid);
    assert_eq!(r.unwrap_err(), OnClickContractError::InvalidAmount);
    let st = c.purchase_product(acct(40), 500, 2, &b"shop".to_vec(), pid).unwrap();
    assert_eq!(st.net_amount, 500);
    assert_eq!(st.fee, 0);
    let p = c.get_product(pid).unwrap();
    assert_eq!(p.total_sold, 1);
    assert_eq!(p.price, 500);
    assert_eq!(p.owner, shop);
    assert_eq!(c.transactions.len(), 1);
    assert_eq!(c.transactions[0].product_id, Some(pid));
}

#[test]
fn product_lifecycle() {
    let mut c = fresh();
    let shop = acct(30);
    c.register_user(shop, 0, b"shop".to_vec(), 1, b"S".to_vec(), Vec::new()).unwrap();
    let pid = c
        .create_product(shop, 0, &b"shop".to_vec(), b"mug".to_vec(), 500, Vec::new())
        .unwrap();
    c.update_product(shop, &b"shop".to_vec(), pid, b"cup".to_vec(), 600, b"x".to_vec()).unwrap();
    let p = c.get_product(pid).unwrap();
    assert_eq!(p.name, b"cup".to_vec());
    assert_eq!(p.price, 600);
    // Repeated reads return the same snapshot.
    let q = c.get_product(pid).unwrap();
    assert_eq!(q.name, p.name);
    assert_eq!(q.price, p.price);
    assert_eq!(q.active, p.active);
    c.delete_product(shop, &b"shop".to_vec(), pid).unwrap();
    let p = c.get_product(pid).unwrap();
    assert!(!p.active);
    let r = c.purchase_product(acct(40), 600, 1, &b"shop".to_vec(), pid);
    assert_eq!(r.unwrap_err(), OnClickContractError::ProductNotActive);
    assert_eq!(c.get_product(9).unwrap_err(), OnClickContractError::ProductNotFound);
    let r = c.update_product(acct(40), &b"shop".to_vec(), pid, Vec::new(), 1, Vec::new());
    assert_eq!(r.unwrap_err(), OnClickContractError::NotPageOwner);
}

#[test]
fn only_business_creates_products() {
    let mut c = fresh();
    c.register_user(acct(10), 0, b"alice".to_vec(), 0, b"A".to_vec(), Vec::new()).unwrap();
    let r = c.create_product(acct(10), 0, &b"alice".to_vec(), b"x".to_vec(), 1, Vec::new());
    assert_eq!(r.unwrap_err(), OnClickContractError::InvalidRole);
}

#[test]
fn contribution_scenario() {
    let mut c = fresh();
    let fund = acct(50);
    c.register_user(fund, 0, b"fund".to_vec(), 2, b"F".to_vec(), Vec::new()).unwrap();
    c.set_platform_fee(acct(1), 1000).unwrap();
    let st = c.contribute_to_campaign(acct(60), 200, 3, &b"fund".to_vec(), Vec::new()).unwrap();
    assert_eq!(st.fee, 20);
    assert_eq!(st.net_amount, 180);
    let p = c.get_page_by_handle(&b"fund".to_vec()).unwrap();
    assert_eq!(p.raised, 180);
    assert_eq!(p.supporters, 1);
    // A Creator page is no campaign.
    c.register_user(acct(10), 0, b"alice".to_vec(), 0, b"A".to_vec(), Vec::new()).unwrap();
    let r = c.contribute_to_campaign(acct(60), 200, 3, &b"alice".to_vec(), Vec::new());
    assert_eq!(r.unwrap_err(), OnClickContractError::InvalidRole);
}

#[test]
fn withdraw_funds_and_balance() {
    let mut c = fresh();
    let alice = acct(10);
    c.register_user(alice, 0, b"alice".to_vec(), 0, b"A".to_vec(), Vec::new()).unwrap();
    c.make_donation(acct(20), 1000, 0, &b"alice".to_vec(), Vec::new()).unwrap();
    let r = c.withdraw_funds(alice, &b"alice".to_vec(), 1001);
    assert_eq!(r.unwrap_err(), OnClickContractError::InsufficientFunds);
    let r = c.withdraw_funds(acct(20), &b"alice".to_vec(), 10);
    assert_eq!(r.unwrap_err(), OnClickContractError::NotPageOwner);
    c.withdraw_funds(alice, &b"alice".to_vec(), 400).unwrap();
    assert_eq!(c.get_page_balance(&b"alice".to_vec()).unwrap(), 600);
}

#[test]
fn funding_goal_role_gate() {
    let mut c = fresh();
    c.register_user(acct(10), 0, b"alice".to_vec(), 0, b"A".to_vec(), Vec::new()).unwrap();
    c.register_user(acct(30), 0, b"shop".to_vec(), 1, b"S".to_vec(), Vec::new()).unwrap();
    c.set_funding_goal(acct(10), &b"alice".to_vec(), 5000).unwrap();
    assert_eq!(c.get_page_by_handle(&b"alice".to_vec()).unwrap().goal, 5000);
    let r = c.set_funding_goal(acct(30), &b"shop".to_vec(), 5000);
    assert_eq!(r.unwrap_err(), OnClickContractError::InvalidRole);
    let r = c.set_funding_goal(acct(30), &b"alice".to_vec(), 5000);
    assert_eq!(r.unwrap_err(), OnClickContractError::NotPageOwner);
    let r = c.set_funding_goal(acct(10), &b"none!".to_vec(), 5000);
    assert_eq!(r.unwrap_err(), OnClickContractError::PageNotFound);
}

#[test]
fn update_page_info_fields() {
    let mut c = fresh();
    c.register_user(acct(10), 0, b"alice".to_vec(), 0, b"A".to_vec(), b"m1".to_vec()).unwrap();
    c.update_page_info(acct(10), &b"alice".to_vec(), b"Alice2".to_vec(), b"m2".to_vec()).unwrap();
    let p = c.get_page_by_handle(&b"alice".to_vec()).unwrap();
    assert_eq!(p.name, b"Alice2".to_vec());
    assert_eq!(p.metadata, b"m2".to_vec());
    assert_eq!(p.handle, b"alice".to_vec());
}

#[test]
fn platform_fee_admin_gate() {
    let mut c = fresh();
    let r = c.set_platform_fee(acct(99), 100);
    assert_eq!(r.unwrap_err(), OnClickContractError::NotPageOwner);
    let r = c.set_platform_fee(acct(1), 10001);
    assert_eq!(r.unwrap_err(), OnClickContractError::InvalidAmount);
    c.set_platform_fee(acct(1), 10000).unwrap();
    assert_eq!(c.fee_bps, 10000);
}

#[test]
fn platform_fee_withdrawal_resets() {
    let mut c = fresh();
    c.register_user(acct(10), 0, b"alice".to_vec(), 0, b"A".to_vec(), Vec::new()).unwrap();
    c.set_platform_fee(acct(1), 250).unwrap();
    c.make_donation(acct(20), 1000, 0, &b"alice".to_vec(), Vec::new()).unwrap();
    assert_eq!(c.fees_collected, 25);
    let r = c.withdraw_platform_fees(acct(2));
    assert_eq!(r.unwrap_err(), OnClickContractError::NotPageOwner);
    let amt = c.withdraw_platform_fees(acct(1)).unwrap();
    assert_eq!(amt, 25);
    assert_eq!(c.fees_collected, 0);
    // Settled pages are untouched by the treasury withdrawal.
    assert_eq!(c.get_page_balance(&b"alice".to_vec()).unwrap(), 975);
}

#[test]
fn donation_at_accounting_range_edge() {
    let mut c = fresh();
    let alice = acct(10);
    c.register_user(alice, 0, b"alice".to_vec(), 0, b"A".to_vec(), Vec::new()).unwrap();
    // The largest representable amount settles at a zero fee rate...
    c.make_donation(acct(20), u128::MAX, 0, &b"alice".to_vec(), Vec::new()).unwrap();
    assert_eq!(c.get_page_balance(&b"alice".to_vec()).unwrap(), u128::MAX);
    // ...and any further credit would leave the range and is rejected whole.
    let before_supporters = c.get_page_by_handle(&b"alice".to_vec()).unwrap().supporters;
    let r = c.make_donation(acct(20), 1, 1, &b"alice".to_vec(), Vec::new());
    assert_eq!(r.unwrap_err(), OnClickContractError::InvalidAmount);
    let p = c.get_page_by_handle(&b"alice".to_vec()).unwrap();
    assert_eq!(p.supporters, before_supporters);
    assert_eq!(p.raised, u128::MAX);
    assert_eq!(c.transactions.len(), 1);
}

#[test]
fn withdraw_zero_is_allowed() {
    let mut c = fresh();
    let alice = acct(10);
    c.register_user(alice, 0, b"alice".to_vec(), 0, b"A".to_vec(), Vec::new()).unwrap();
    c.withdraw_funds(alice, &b"alice".to_vec(), 0).unwrap();
    assert_eq!(c.get_page_balance(&b"alice".to_vec()).unwrap(), 0);
}

#[test]
fn ledger_ids_increase() {
    let mut c = fresh();
    c.register_user(acct(10), 0, b"alice".to_vec(), 0, b"A".to_vec(), Vec::new()).unwrap();
    let s1 = c.make_donation(acct(20), 10, 0, &b"alice".to_vec(), Vec::new()).unwrap();
    let s2 = c.make_donation(acct(20), 10, 1, &b"alice".to_vec(), Vec::new()).unwrap();
    let s3 = c.make_donation(acct(21), 10, 2, &b"alice".to_vec(), Vec::new()).unwrap();
    assert_eq!(s1.tx_id, 0);
    assert_eq!(s2.tx_id, 1);
    assert_eq!(s3.tx_id, 2);
    assert_eq!(c.transactions[2].from, acct(21));
    let p = c.get_page_by_handle(&b"alice".to_vec()).unwrap();
    assert_eq!(p.supporters, 3);
    assert_eq!(p.raised, 30);
}
