use nft_ledger::accounting::{settle_storage, Settlement, STORAGE_COST_PER_BYTE};
use nft_ledger::errors::LedgerError;
use nft_ledger::ledger::Ledger;
use nft_ledger::metadata::TokenMetadata;

fn s(x: &str) -> String {
    x.to_owned()
}

fn meta() -> Option<TokenMetadata> {
    Some(TokenMetadata {
        title: Some(s("a title")),
        description: None,
        media: None,
        issued_at: None,
        extra: None,
    })
}

#[test]
fn mint_records_owner_and_supply() {
    let mut l = Ledger::empty();
    assert_eq!(l.total_supply(), 0);
    let t = l.mint_token(s("t1"), s("alice"), meta()).unwrap();
    assert_eq!(t.token_id, s("t1"));
    assert_eq!(t.owner_id, s("alice"));
    assert_eq!(l.total_supply(), 1);
    assert_eq!(l.supply_for_owner(&s("alice")), 1);
    assert_eq!(l.supply_for_owner(&s("bob")), 0);
}

#[test]
fn mint_duplicate_id_is_rejected() {
    let mut l = Ledger::empty();
    l.mint_token(s("t1"), s("alice"), meta()).unwrap();
    let r = l.mint_token(s("t1"), s("bob"), meta());
    assert_eq!(r.unwrap_err(), LedgerError::DuplicateTokenId);
    assert_eq!(l.total_supply(), 1);
    assert_eq!(l.supply_for_owner(&s("bob")), 0);
}

#[test]
fn transfer_moves_ownership_and_clears_approvals() {
    let mut l = Ledger::empty();
    l.mint_token(s("t1"), s("alice"), meta()).unwrap();
    let id = l.approve_token(&s("t1"), &s("carol"), &s("alice")).unwrap();
    assert!(l.is_approved(&s("t1"), &s("carol"), Some(id)));
    let prev = l.transfer_token(&s("t1"), &s("alice"), &s("bob"), None).unwrap();
    assert_eq!(prev, s("alice"));
    assert_eq!(l.supply_for_owner(&s("alice")), 0);
    assert_eq!(l.supply_for_owner(&s("bob")), 1);
    assert!(!l.is_approved(&s("t1"), &s("carol"), None));
}

#[test]
fn transfer_by_unauthorized_sender_changes_nothing() {
    let mut l = Ledger::empty();
    l.mint_token(s("t1"), s("alice"), meta()).unwrap();
    let before_owner = l.get_token(&s("t1")).unwrap().owner_id;
    let r = l.transfer_token(&s("t1"), &s("mallory"), &s("bob"), None);
    assert_eq!(r.unwrap_err(), LedgerError::NotAuthorized);
    assert_eq!(l.get_token(&s("t1")).unwrap().owner_id, before_owner);
    assert_eq!(l.total_supply(), 1);
    assert_eq!(l.supply_for_owner(&s("bob")), 0);
}

#[test]
fn transfer_with_wrong_approval_id_is_rejected() {
    let mut l = Ledger::empty();
    l.mint_token(s("t1"), s("alice"), meta()).unwrap();
    let id = l.approve_token(&s("t1"), &s("carol"), &s("alice")).unwrap();
    let r = l.transfer_token(&s("t1"), &s("carol"), &s("bob"), Some(id + 1));
    assert_eq!(r.unwrap_err(), LedgerError::NotAuthorized);
    let prev = l.transfer_token(&s("t1"), &s("carol"), &s("bob"), Some(id)).unwrap();
    assert_eq!(prev, s("alice"));
}

#[test]
fn transfer_to_current_owner_is_rejected() {
    let mut l = Ledger::empty();
    l.mint_token(s("t1"), s("alice"), meta()).unwrap();
    let r = l.transfer_token(&s("t1"), &s("alice"), &s("alice"), None);
    assert_eq!(r.unwrap_err(), LedgerError::SameOwner);
}

#[test]
fn transfer_of_unknown_token_is_rejected() {
    let mut l = Ledger::empty();
    let r = l.transfer_token(&s("nope"), &s("alice"), &s("bob"), None);
    assert_eq!(r.unwrap_err(), LedgerError::TokenNotFound);
}

#[test]
fn reapproval_refreshes_id_and_invalidates_old_one() {
    let mut l = Ledger::empty();
    l.mint_token(s("t1"), s("alice"), meta()).unwrap();
    let id1 = l.approve_token(&s("t1"), &s("carol"), &s("alice")).unwrap();
    let id2 = l.approve_token(&s("t1"), &s("carol"), &s("alice")).unwrap();
    assert_ne!(id1, id2);
    assert!(!l.is_approved(&s("t1"), &s("carol"), Some(id1)));
    assert!(l.is_approved(&s("t1"), &s("carol"), Some(id2)));
}

#[test]
fn approving_another_account_keeps_the_first() {
    let mut l = Ledger::empty();
    l.mint_token(s("t1"), s("alice"), meta()).unwrap();
    let id1 = l.approve_token(&s("t1"), &s("carol"), &s("alice")).unwrap();
    let id2 = l.approve_token(&s("t1"), &s("dave"), &s("alice")).unwrap();
    assert_ne!(id1, id2);
    assert!(l.is_approved(&s("t1"), &s("carol"), Some(id1)));
    assert!(l.is_approved(&s("t1"), &s("dave"), Some(id2)));
}

#[test]
fn approve_by_non_owner_is_rejected() {
    let mut l = Ledger::empty();
    l.mint_token(s("t1"), s("alice"), meta()).unwrap();
    let r = l.approve_token(&s("t1"), &s("carol"), &s("mallory"));
    assert_eq!(r.unwrap_err(), LedgerError::NotAuthorized);
    assert!(!l.is_approved(&s("t1"), &s("carol"), None));
}

#[test]
fn revoke_removes_one_approval_and_absent_is_no_op() {
    let mut l = Ledger::empty();
    l.mint_token(s("t1"), s("alice"), meta()).unwrap();
    l.approve_token(&s("t1"), &s("carol"), &s("alice")).unwrap();
    l.approve_token(&s("t1"), &s("dave"), &s("alice")).unwrap();
    let removed = l.revoke_token(&s("t1"), &s("carol"), &s("alice")).unwrap();
    assert!(removed);
    assert!(!l.is_approved(&s("t1"), &s("carol"), None));
    assert!(l.is_approved(&s("t1"), &s("dave"), None));
    let removed_again = l.revoke_token(&s("t1"), &s("carol"), &s("alice")).unwrap();
    assert!(!removed_again);
}

#[test]
fn revoke_all_clears_every_approval() {
    let mut l = Ledger::empty();
    l.mint_token(s("t1"), s("alice"), meta()).unwrap();
    l.approve_token(&s("t1"), &s("carol"), &s("alice")).unwrap();
    l.approve_token(&s("t1"), &s("dave"), &s("alice")).unwrap();
    l.revoke_all_token(&s("t1"), &s("alice")).unwrap();
    assert!(!l.is_approved(&s("t1"), &s("carol"), None));
    assert!(!l.is_approved(&s("t1"), &s("dave"), None));
}

#[test]
fn mint_then_burn_restores_supply() {
    let mut l = Ledger::empty();
    l.mint_token(s("t1"), s("alice"), meta()).unwrap();
    let before_total = l.total_supply();
    let before_alice = l.supply_for_owner(&s("alice"));
    let before_usage = l.measure_storage();
    l.mint_token(s("t2"), s("alice"), meta()).unwrap();
    let burned = l.burn_token(&s("t2"), &s("alice")).unwrap();
    assert_eq!(burned.token_id, s("t2"));
    assert_eq!(l.total_supply(), before_total);
    assert_eq!(l.supply_for_owner(&s("alice")), before_alice);
    assert_eq!(l.measure_storage(), before_usage);
}

#[test]
fn burn_by_non_owner_is_rejected() {
    let mut l = Ledger::empty();
    l.mint_token(s("t1"), s("alice"), meta()).unwrap();
    let r = l.burn_token(&s("t1"), &s("mallory"));
    assert_eq!(r.unwrap_err(), LedgerError::NotAuthorized);
    assert_eq!(l.total_supply(), 1);
}

#[test]
fn enumeration_pages_in_mint_order() {
    let mut l = Ledger::empty();
    l.mint_token(s("t1"), s("alice"), None).unwrap();
    l.mint_token(s("t2"), s("bob"), None).unwrap();
    l.mint_token(s("t3"), s("alice"), None).unwrap();
    let page = l.list_tokens(0, 2);
    assert_eq!(page.len(), 2);
    assert_eq!(page[0].token_id, s("t1"));
    assert_eq!(page[1].token_id, s("t2"));
    let page2 = l.list_tokens(2, 10);
    assert_eq!(page2.len(), 1);
    assert_eq!(page2[0].token_id, s("t3"));
    let empty = l.list_tokens(3, 10);
    assert_eq!(empty.len(), 0);
}

#[test]
fn enumeration_per_owner_pages_that_owner_only() {
    let mut l = Ledger::empty();
    l.mint_token(s("t1"), s("alice"), None).unwrap();
    l.mint_token(s("t2"), s("bob"), None).unwrap();
    l.mint_token(s("t3"), s("alice"), None).unwrap();
    let page = l.list_tokens_for_owner(&s("alice"), 0, 10);
    assert_eq!(page.len(), 2);
    assert_eq!(page[0].token_id, s("t1"));
    assert_eq!(page[1].token_id, s("t3"));
    let page2 = l.list_tokens_for_owner(&s("alice"), 1, 10);
    assert_eq!(page2.len(), 1);
    assert_eq!(page2[0].token_id, s("t3"));
    let none_owned = l.list_tokens_for_owner(&s("carol"), 0, 10);
    assert_eq!(none_owned.len(), 0);
}

#[test]
fn settle_charges_growth_exactly_and_refunds_excess() {
    let required = 2 * STORAGE_COST_PER_BYTE;
    let r = settle_storage(0, 2, required + 7).unwrap();
    assert_eq!(
        r,
        Settlement { charged: required, refund: 7 }
    );
}

#[test]
fn settle_rejects_underfunded_growth() {
    let required = 2 * STORAGE_COST_PER_BYTE;
    let r = settle_storage(0, 2, required - 1);
    assert_eq!(r.unwrap_err(), LedgerError::InsufficientDeposit);
}

#[test]
fn settle_refunds_shrinkage_on_top_of_the_deposit() {
    let r = settle_storage(3, 1, 5).unwrap();
    assert_eq!(
        r,
        Settlement { charged: 0, refund: 5 + 2 * STORAGE_COST_PER_BYTE }
    );
}

#[test]
fn storage_measure_counts_records_and_approvals() {
    let mut l = Ledger::empty();
    assert_eq!(l.measure_storage(), 0);
    l.mint_token(s("t1"), s("alice"), None).unwrap();
    // one record: 64 base + 2 id characters + 5 owner characters
    assert_eq!(l.measure_storage(), 71);
    l.approve_token(&s("t1"), &s("carol"), &s("alice")).unwrap();
    // one approval: 5 account characters + 8
    assert_eq!(l.measure_storage(), 84);
}
