use nft_ledger::accounting::STORAGE_COST_PER_BYTE;
use nft_ledger::contract::{AckOutcome, Contract};
use nft_ledger::errors::LedgerError;
use nft_ledger::metadata::TokenMetadata;
use nft_ledger::policy::Status;

fn s(x: &str) -> String {
    x.to_owned()
}

fn bare_meta() -> TokenMetadata {
    TokenMetadata { title: None, description: None, media: None, issued_at: None, extra: None }
}

/// The contract account; calls by it are the owner's self-service path.
fn con() -> String {
    s("collection.test")
}

fn fresh() -> Contract {
    Contract::new_default_meta(con())
}

/// Enough payment for any small record in these tests.
fn plenty() -> u128 {
    1_000 * STORAGE_COST_PER_BYTE
}

#[test]
fn default_metadata_names_the_collection() {
    let c = Contract::new_default_meta(s("collection.test"));
    let m = c.nft_metadata();
    assert_eq!(m.spec_version, s("nft-1.0.0"));
    assert_eq!(m.name, s("QSTN NFT"));
    assert_eq!(m.symbol, s("QSTN"));
    assert!(m.icon.is_some());
    assert!(m.base_uri.is_none());
}

#[test]
fn policy_starts_closed_and_non_owner_mint_is_disabled() {
    let mut c = fresh();
    assert_eq!(c.clone().get_nft_approval_status(), Status::Closed);
    let r = c.nft_mint(s("t1"), s("alice"), bare_meta(), &s("alice"), &con(), plenty());
    assert_eq!(r.unwrap_err(), LedgerError::MintingDisabled);
    assert_eq!(c.nft_total_supply(), 0);
}

#[test]
fn whitelisted_policy_admits_exactly_the_whitelist() {
    let mut c = fresh();
    c.change_nft_approval_status(s("whitelist"), &con(), &con()).unwrap();
    c.add_whitelist_account(s("bob"), &con(), &con(), plenty()).unwrap();
    let ok = c.nft_mint(s("t2"), s("bob"), bare_meta(), &s("bob"), &con(), plenty());
    assert!(ok.is_ok());
    assert_eq!(c.nft_supply_for_owner(&s("bob")), 1);
    let r = c.nft_mint(s("t3"), s("carol"), bare_meta(), &s("carol"), &con(), plenty());
    assert_eq!(r.unwrap_err(), LedgerError::NotWhitelisted);
}

#[test]
fn open_policy_admits_anybody_and_contract_account_always_may() {
    let mut c = fresh();
    // the contract's own account may mint even under the default policy
    c.nft_mint(s("t0"), s("alice"), bare_meta(), &con(), &con(), plenty()).unwrap();
    c.change_nft_approval_status(s("all"), &con(), &con()).unwrap();
    c.nft_mint(s("t1"), s("carol"), bare_meta(), &s("carol"), &con(), plenty()).unwrap();
    assert_eq!(c.nft_total_supply(), 2);
}

#[test]
fn policy_change_rejects_unknown_value_and_foreign_caller() {
    let mut c = fresh();
    let r = c.change_nft_approval_status(s("sometimes"), &con(), &con());
    assert_eq!(r.unwrap_err(), LedgerError::InvalidPolicyValue);
    let r2 = c.change_nft_approval_status(s("all"), &s("mallory"), &con());
    assert_eq!(r2.unwrap_err(), LedgerError::NotAuthorized);
    assert_eq!(c.clone().get_nft_approval_status(), Status::Closed);
}

#[test]
fn whitelist_admits_duplicates_and_remove_takes_the_first() {
    let mut c = fresh();
    c.add_whitelist_account(s("bob"), &con(), &con(), plenty()).unwrap();
    c.add_whitelist_account(s("bob"), &con(), &con(), plenty()).unwrap();
    c.remove_whitelist_account(&s("bob"), &con(), &con(), 0).unwrap();
    let left = c.clone().get_whitelist_accounts();
    assert_eq!(left.len(), 1);
    assert_eq!(left[0], s("bob"));
    c.remove_whitelist_account(&s("carol"), &con(), &con(), 0).unwrap();
    assert_eq!(c.clone().get_whitelist_accounts().len(), 1);
}

#[test]
fn whitelist_changes_by_foreign_caller_are_rejected() {
    let mut c = fresh();
    let r = c.add_whitelist_account(s("bob"), &s("mallory"), &con(), plenty());
    assert_eq!(r.unwrap_err(), LedgerError::NotAuthorized);
    let r2 = c.remove_whitelist_account(&s("bob"), &s("mallory"), &con(), 0);
    assert_eq!(r2.unwrap_err(), LedgerError::NotAuthorized);
}

#[test]
fn underfunded_mint_fails_and_changes_nothing() {
    let mut c = fresh();
    // record: 64 base + 2 id + 5 owner characters
    let required = 71 * STORAGE_COST_PER_BYTE;
    let before_usage = c.storage_usage();
    let r = c.nft_mint(s("t1"), s("alice"), bare_meta(), &con(), &con(), required - 1);
    assert_eq!(r.unwrap_err(), LedgerError::InsufficientDeposit);
    assert_eq!(c.nft_total_supply(), 0);
    assert_eq!(c.storage_usage(), before_usage);
}

#[test]
fn funded_mint_charges_exactly_and_refunds_the_rest() {
    let mut c = fresh();
    let required = 71 * STORAGE_COST_PER_BYTE;
    let (t, settlement) =
        c.nft_mint(s("t1"), s("alice"), bare_meta(), &con(), &con(), required + 5).unwrap();
    assert_eq!(t.owner_id, s("alice"));
    assert_eq!(settlement.charged, required);
    assert_eq!(settlement.refund, 5);
    assert_eq!(c.storage_usage(), 71);
}

#[test]
fn transfer_call_rejection_reverts_to_previous_owner() {
    let mut c = fresh();
    c.nft_mint(s("t1"), s("alice"), bare_meta(), &con(), &con(), plenty()).unwrap();
    let (pending, _) =
        c.nft_transfer_call(&s("bob"), &s("t1"), None, None, &s("alice"), 0).unwrap();
    // committed eagerly: bob holds the token while the call is suspended
    assert_eq!(c.nft_token(&s("t1")).unwrap().owner_id, s("bob"));
    let kept = c.nft_resolve_transfer(pending, AckOutcome::Rejected);
    assert!(!kept);
    assert_eq!(c.nft_token(&s("t1")).unwrap().owner_id, s("alice"));
    let bobs = c.nft_tokens_for_owner(&s("bob"), 0, 10);
    assert_eq!(bobs.len(), 0);
}

#[test]
fn transfer_call_acceptance_finalizes_and_a_repeat_is_unauthorized() {
    let mut c = fresh();
    c.nft_mint(s("t1"), s("alice"), bare_meta(), &con(), &con(), plenty()).unwrap();
    let (pending, _) =
        c.nft_transfer_call(&s("bob"), &s("t1"), None, None, &s("alice"), 0).unwrap();
    let kept = c.nft_resolve_transfer(pending, AckOutcome::Accepted);
    assert!(kept);
    assert_eq!(c.nft_token(&s("t1")).unwrap().owner_id, s("bob"));
    let r = c.nft_transfer_call(&s("bob"), &s("t1"), None, None, &s("alice"), 0);
    assert_eq!(r.unwrap_err(), LedgerError::NotAuthorized);
}

#[test]
fn revert_restores_cleared_approvals() {
    let mut c = fresh();
    c.nft_mint(s("t1"), s("alice"), bare_meta(), &con(), &con(), plenty()).unwrap();
    let (id, _) = c.nft_approve(&s("t1"), &s("carol"), &s("alice"), plenty()).unwrap();
    let (pending, _) =
        c.nft_transfer_call(&s("bob"), &s("t1"), None, None, &s("alice"), 0).unwrap();
    assert!(!c.nft_is_approved(&s("t1"), &s("carol"), Some(id)));
    c.nft_resolve_transfer(pending, AckOutcome::Rejected);
    assert!(c.nft_is_approved(&s("t1"), &s("carol"), Some(id)));
}

#[test]
fn stale_resolve_leaves_a_later_transfer_intact() {
    let mut c = fresh();
    c.nft_mint(s("t1"), s("alice"), bare_meta(), &con(), &con(), plenty()).unwrap();
    let (pending, _) =
        c.nft_transfer_call(&s("bob"), &s("t1"), None, None, &s("alice"), 0).unwrap();
    // bob passes the token on before the acknowledgment resolves
    c.nft_transfer(&s("carol"), &s("t1"), None, None, &s("bob"), 0).unwrap();
    let kept = c.nft_resolve_transfer(pending, AckOutcome::Rejected);
    assert!(!kept);
    assert_eq!(c.nft_token(&s("t1")).unwrap().owner_id, s("carol"));
}

#[test]
fn approve_entry_point_charges_growth_once() {
    let mut c = fresh();
    c.nft_mint(s("t1"), s("alice"), bare_meta(), &con(), &con(), plenty()).unwrap();
    // first approval grows storage: 5 account characters + 8
    let required = 13 * STORAGE_COST_PER_BYTE;
    let under = c.nft_approve(&s("t1"), &s("carol"), &s("alice"), required - 1);
    assert_eq!(under.unwrap_err(), LedgerError::InsufficientDeposit);
    let (id1, st1) = c.nft_approve(&s("t1"), &s("carol"), &s("alice"), required + 2).unwrap();
    assert_eq!(st1.charged, required);
    assert_eq!(st1.refund, 2);
    // refreshing it grows nothing
    let (id2, st2) = c.nft_approve(&s("t1"), &s("carol"), &s("alice"), 0).unwrap();
    assert_eq!(st2.charged, 0);
    assert_ne!(id1, id2);
}

#[test]
fn revoke_entry_point_refunds_released_storage() {
    let mut c = fresh();
    c.nft_mint(s("t1"), s("alice"), bare_meta(), &con(), &con(), plenty()).unwrap();
    c.nft_approve(&s("t1"), &s("carol"), &s("alice"), plenty()).unwrap();
    let (removed, st) = c.nft_revoke(&s("t1"), &s("carol"), &s("alice"), 3).unwrap();
    assert!(removed);
    assert_eq!(st.refund, 3 + 13 * STORAGE_COST_PER_BYTE);
    let (removed_again, st2) = c.nft_revoke(&s("t1"), &s("carol"), &s("alice"), 3).unwrap();
    assert!(!removed_again);
    assert_eq!(st2.refund, 3);
}

#[test]
fn burn_entry_point_refunds_the_record() {
    let mut c = fresh();
    c.nft_mint(s("t1"), s("alice"), bare_meta(), &con(), &con(), plenty()).unwrap();
    let before = c.storage_usage();
    assert_eq!(before, 71);
    let (t, st) = c.nft_burn(&s("t1"), &s("alice"), 0).unwrap();
    assert_eq!(t.token_id, s("t1"));
    assert_eq!(st.refund, 71 * STORAGE_COST_PER_BYTE);
    assert_eq!(c.storage_usage(), 0);
    assert_eq!(c.nft_total_supply(), 0);
}

#[test]
fn approved_account_can_transfer_through_the_entry_point() {
    let mut c = fresh();
    c.nft_mint(s("t1"), s("alice"), bare_meta(), &con(), &con(), plenty()).unwrap();
    let (id, _) = c.nft_approve(&s("t1"), &s("carol"), &s("alice"), plenty()).unwrap();
    let (prev, _) = c.nft_transfer(&s("bob"), &s("t1"), Some(id), None, &s("carol"), 0).unwrap();
    assert_eq!(prev, s("alice"));
    assert_eq!(c.nft_token(&s("t1")).unwrap().owner_id, s("bob"));
}

#[test]
fn approval_ids_stay_fresh_across_a_revert() {
    let mut c = fresh();
    c.nft_mint(s("t1"), s("alice"), bare_meta(), &con(), &con(), plenty()).unwrap();
    let (id_before, _) = c.nft_approve(&s("t1"), &s("carol"), &s("alice"), plenty()).unwrap();
    let (pending, _) =
        c.nft_transfer_call(&s("bob"), &s("t1"), None, None, &s("alice"), 0).unwrap();
    c.nft_resolve_transfer(pending, AckOutcome::Rejected);
    // carol's restored approval still matches, and a new approval for dave
    // gets an id never issued before for this token
    assert!(c.nft_is_approved(&s("t1"), &s("carol"), Some(id_before)));
    let (id_after, _) = c.nft_approve(&s("t1"), &s("dave"), &s("alice"), plenty()).unwrap();
    assert!(id_after > id_before);
}

#[test]
fn approvals_on_a_missing_token_are_token_not_found() {
    let mut c = fresh();
    let r = c.nft_approve(&s("ghost"), &s("carol"), &s("alice"), plenty());
    assert_eq!(r.unwrap_err(), LedgerError::TokenNotFound);
    let r2 = c.nft_revoke(&s("ghost"), &s("carol"), &s("alice"), 0);
    assert_eq!(r2.unwrap_err(), LedgerError::TokenNotFound);
    let r3 = c.nft_revoke_all(&s("ghost"), &s("alice"), 0);
    assert_eq!(r3.unwrap_err(), LedgerError::TokenNotFound);
    let r4 = c.nft_burn(&s("ghost"), &s("alice"), 0);
    assert_eq!(r4.unwrap_err(), LedgerError::TokenNotFound);
}

#[test]
fn paging_with_zero_limit_or_past_the_end_is_empty() {
    let mut c = fresh();
    c.nft_mint(s("t1"), s("alice"), bare_meta(), &con(), &con(), plenty()).unwrap();
    assert_eq!(c.nft_tokens(0, 0).len(), 0);
    assert_eq!(c.nft_tokens(1, 5).len(), 0);
    assert_eq!(c.nft_tokens_for_owner(&s("alice"), 1, 5).len(), 0);
    assert_eq!(c.nft_tokens_for_owner(&s("alice"), 0, 0).len(), 0);
}
