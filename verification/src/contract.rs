use vstd::prelude::*;

use crate::accounting::{settle_storage, spec_settle, Settlement, STORAGE_COST_PER_BYTE};
use crate::errors::LedgerError;
use crate::ledger::{
    ledger_size, owner_count, owner_positions, spec_has_token, spec_transfer_auth, token_index,
    token_matches, Ledger,
};
use crate::metadata::{ContractMetadata, TokenMetadata};
use crate::policy::{mint_allowed, parse_status, spec_mint_allowed, spec_parse_status, Status};
use crate::token::{
    approval_id_of, approvals_size, dup_approvals, measure_approvals, spec_is_approved,
    unique_accounts, unique_approval_ids, Approval, Token, TokenRecord,
};

verus! {

/// The whole contract state: the token ledger, the account that owns the
/// contract, the collection's metadata, and the mint gate.
#[derive(Clone, Debug)]
pub struct Contract {
    pub tokens: Ledger,
    pub owner_id: String,
    pub metadata: ContractMetadata,
    pub mint_approval_status: Status,
    pub whitelist_accounts: Vec<String>,
}

/// The durable record a suspended transfer leaves behind so the resolve
/// phase can compensate: which token moved, who asked, who held it, who
/// received it, and the approvals the move cleared.
#[derive(Clone, Debug)]
pub struct PendingTransfer {
    pub token_id: String,
    pub sender_id: String,
    pub previous_owner_id: String,
    pub receiver_id: String,
    pub memo: Option<String>,
    pub previous_approvals: Vec<Approval>,
}

/// What the receiver's acknowledgment call came back as. Rejection, timeout,
/// an error, and a receiver without the acknowledgment entry point all count
/// as `Rejected`.
#[derive(Clone, Copy, Debug, PartialEq, Eq, Structural)]
pub enum AckOutcome {
    Accepted,
    Rejected,
}

/// Everything of the contract but the token store is unchanged.
pub open spec fn same_but_tokens(a: Contract, b: Contract) -> bool {
    &&& a.owner_id == b.owner_id
    &&& a.metadata == b.metadata
    &&& a.mint_approval_status == b.mint_approval_status
    &&& a.whitelist_accounts == b.whitelist_accounts
}

/// Everything of the contract but the whitelist is unchanged.
pub open spec fn same_but_whitelist(a: Contract, b: Contract) -> bool {
    &&& a.tokens == b.tokens
    &&& a.owner_id == b.owner_id
    &&& a.metadata == b.metadata
    &&& a.mint_approval_status == b.mint_approval_status
}

/// The approval counter a revert leaves behind: the old counter, bumped just
/// past any restored approval id, so that no id is ever issued twice.
pub open spec fn spec_bump_counter(s: Seq<Approval>, cur: u64) -> u64
    decreases s.len(),
{
    if s.len() == 0 {
        cur
    } else {
        let rest = spec_bump_counter(s.drop_last(), cur);
        if s.last().approval_id >= rest {
            (s.last().approval_id + 1) as u64
        } else {
            rest
        }
    }
}

/// The persisted size of the whitelist: each entry's characters.
pub open spec fn whitelist_size(s: Seq<String>) -> nat
    decreases s.len(),
{
    if s.len() == 0 {
        0
    } else {
        whitelist_size(s.drop_last()) + s.last()@.len()
    }
}

/// A prefix of the whitelist never takes more space than the whole.
pub proof fn lemma_whitelist_size_prefix(s: Seq<String>, n: int)
    requires
        0 <= n <= s.len(),
    ensures
        whitelist_size(s.take(n)) <= whitelist_size(s),
    decreases s.len() - n,
{
    if n < s.len() {
        assert(s.take(n + 1).drop_last() =~= s.take(n));
        assert(s.take(n + 1).last() == s[n]);
        lemma_whitelist_size_prefix(s, n + 1);
    } else {
        assert(s.take(n) =~= s);
    }
}

/// The storage a fresh token record of these parts will persist.
pub open spec fn mint_record_size(
    token_id: Seq<char>,
    receiver: Seq<char>,
    meta: TokenMetadata,
) -> nat {
    64 + token_id.len() + receiver.len() + meta.size()
}

impl Contract {
    /// A well-formed contract: its ledger is well-formed.
    pub open spec fn wf(self) -> bool {
        self.tokens.wf()
    }

    /// The persisted size of the whole contract state, as the storage
    /// accountant bills it: the token store plus the whitelist.
    pub open spec fn storage_size(self) -> nat {
        ledger_size(self.tokens.tokens@) + whitelist_size(self.whitelist_accounts@)
    }

    /// Measures the persisted size of the whole contract state.
    pub fn storage_usage(&self) -> (r: usize)
        requires
            self.storage_size() <= usize::MAX,
        ensures
            r == self.storage_size(),
    {
        let token_bytes = self.tokens.measure_storage();
        let n = self.whitelist_accounts.len();
        let mut wl_bytes: usize = 0;
        let mut i: usize = 0;
        proof {
            assert(self.whitelist_accounts@.take(0) =~= Seq::<String>::empty());
        }
        while i < n
            invariant
                n == self.whitelist_accounts@.len(),
                i <= n,
                whitelist_size(self.whitelist_accounts@) <= usize::MAX,
                wl_bytes == whitelist_size(self.whitelist_accounts@.take(i as int)),
            decreases n - i,
        {
            proof {
                assert(self.whitelist_accounts@.take(i + 1).drop_last()
                    =~= self.whitelist_accounts@.take(i as int));
                assert(self.whitelist_accounts@.take(i + 1).last()
                    == self.whitelist_accounts@[i as int]);
                lemma_whitelist_size_prefix(self.whitelist_accounts@, i + 1);
            }
            let entry_len = self.whitelist_accounts[i].as_str().unicode_len();
            wl_bytes = wl_bytes + entry_len;
            i = i + 1;
        }
        proof {
            assert(self.whitelist_accounts@.take(n as int) =~= self.whitelist_accounts@);
        }
        token_bytes + wl_bytes
    }

    /// Initializes the contract: `owner_id` owns it, the collection carries
    /// `metadata`, the ledger is empty, the mint gate starts `Closed` with an
    /// empty whitelist.
    pub fn new(owner_id: String, metadata: ContractMetadata) -> (r: Self)
        ensures
            r.wf(),
            r.tokens.tokens@ == Seq::<TokenRecord>::empty(),
            r.owner_id == owner_id,
            r.metadata == metadata,
            r.mint_approval_status == Status::Closed,
            r.whitelist_accounts@ == Seq::<String>::empty(),
    {
        Contract {
            tokens: Ledger::empty(),
            owner_id,
            metadata,
            mint_approval_status: Status::Closed,
            whitelist_accounts: Vec::new(),
        }
    }

    /// Initializes the contract with the collection's stock metadata.
    pub fn new_default_meta(owner_id: String) -> (r: Self)
        ensures
            r.wf(),
            r.tokens.tokens@ == Seq::<TokenRecord>::empty(),
            r.owner_id == owner_id,
            r.mint_approval_status == Status::Closed,
            r.whitelist_accounts@ == Seq::<String>::empty(),
            r.metadata.spec_version@ == "nft-1.0.0"@,
            r.metadata.name@ == "QSTN NFT"@,
            r.metadata.symbol@ == "QSTN"@,
            r.metadata.icon is Some,
            r.metadata.base_uri is None,
            r.metadata.reference is None,
            r.metadata.reference_hash is None,
    {
        let icon: String =
            "data:image/svg+xml,%3Csvg xmlns='http://www.w3.org/2000/svg' viewBox='0 0 288 288'%3E%3Cg id='l' data-name='l'%3E%3Cpath d='M187.58,79.81l-30.1,44.69a3.2,3.2,0,0,0,4.75,4.2L191.86,103a1.2,1.2,0,0,1,2,.91v80.46a1.2,1.2,0,0,1-2.12.77L102.18,77.93A15.35,15.35,0,0,0,90.47,72.5H87.34A15.34,15.34,0,0,0,72,87.84V201.16A15.34,15.34,0,0,0,87.34,216.5h0a15.35,15.35,0,0,0,13.08-7.31l30.1-44.69a3.2,3.2,0,0,0-4.75-4.2L96.14,186a1.2,1.2,0,0,1-2-.91V104.61a1.2,1.2,0,0,1,2.12-.77l89.55,107.23a15.35,15.35,0,0,0,11.71,5.43h3.13A15.34,15.34,0,0,0,216,201.16V87.84A15.34,15.34,0,0,0,200.66,72.5h0A15.35,15.35,0,0,0,187.58,79.81Z'/%3E%3C/g%3E%3C/svg%3E".to_owned();
        let metadata = ContractMetadata {
            spec_version: "nft-1.0.0".to_owned(),
            name: "QSTN NFT".to_owned(),
            symbol: "QSTN".to_owned(),
            icon: Option::Some(icon),
            base_uri: Option::None,
            reference: Option::None,
            reference_hash: Option::None,
        };
        Contract::new(owner_id, metadata)
    }

    /// The collection's metadata.
    pub fn nft_metadata(&self) -> (r: ContractMetadata)
        ensures
            r == self.metadata,
    {
        self.metadata.duplicate()
    }

    /// The current mint policy.
    pub fn get_nft_approval_status(self) -> (r: Status)
        ensures
            r == self.mint_approval_status,
    {
        self.mint_approval_status
    }

    /// The whitelist, in insertion order, duplicates included.
    pub fn get_whitelist_accounts(self) -> (r: Vec<String>)
        ensures
            r == self.whitelist_accounts,
    {
        self.whitelist_accounts
    }

    /// Switches the mint policy to the one `approval_status` names. Only the
    /// contract's own account may, and an unknown name is rejected with the
    /// state unchanged.
    pub fn change_nft_approval_status(
        &mut self,
        approval_status: String,
        predecessor_account_id: &String,
        current_account_id: &String,
    ) -> (r: Result<(), LedgerError>)
        ensures
            predecessor_account_id@ != current_account_id@ ==> (r == Err::<(), LedgerError>(
                LedgerError::NotAuthorized,
            ) && *final(self) == *old(self)),
            predecessor_account_id@ == current_account_id@ ==> match spec_parse_status(
                approval_status@,
            ) {
                Ok(st) => ({
                    &&& r == Ok::<(), LedgerError>(())
                    &&& final(self).mint_approval_status == st
                    &&& final(self).tokens == old(self).tokens
                    &&& final(self).owner_id == old(self).owner_id
                    &&& final(self).metadata == old(self).metadata
                    &&& final(self).whitelist_accounts == old(self).whitelist_accounts
                }),
                Err(e) => r == Err::<(), LedgerError>(e) && *final(self) == *old(self),
            },
    {
        if !(*current_account_id == *predecessor_account_id) {
            return Err(LedgerError::NotAuthorized);
        }
        match parse_status(&approval_status) {
            Ok(st) => {
                self.mint_approval_status = st;
                Ok(())
            },
            Err(e) => Err(e),
        }
    }

    /// Puts `whitelist_account` on the whitelist. Only the contract's own
    /// account may; a duplicate entry is admitted unchecked. The caller pays
    /// for the entry's storage and gets the rest of the deposit back.
    pub fn add_whitelist_account(
        &mut self,
        whitelist_account: String,
        predecessor_account_id: &String,
        current_account_id: &String,
        attached_deposit: u128,
    ) -> (r: Result<(bool, Settlement), LedgerError>)
        requires
            whitelist_account@.len() * STORAGE_COST_PER_BYTE <= u128::MAX,
        ensures
            predecessor_account_id@ != current_account_id@ ==> (r == Err::<
                (bool, Settlement),
                LedgerError,
            >(LedgerError::NotAuthorized) && *final(self) == *old(self)),
            predecessor_account_id@ == current_account_id@ ==> match spec_settle(
                0,
                whitelist_account@.len(),
                attached_deposit as nat,
            ) {
                Ok(st) => ({
                    &&& r == Ok::<(bool, Settlement), LedgerError>((true, st))
                    &&& final(self).whitelist_accounts@ == old(self).whitelist_accounts@.push(
                        whitelist_account,
                    )
                    &&& same_but_whitelist(*final(self), *old(self))
                }),
                Err(e) => r == Err::<(bool, Settlement), LedgerError>(e) && *final(self) == *old(
                    self,
                ),
            },
    {
        if !(*current_account_id == *predecessor_account_id) {
            return Err(LedgerError::NotAuthorized);
        }
        let entry_len = whitelist_account.as_str().unicode_len();
        let settlement = match settle_storage(0, entry_len, attached_deposit) {
            Ok(st) => st,
            Err(e) => {
                return Err(e);
            },
        };
        self.whitelist_accounts.push(whitelist_account);
        Ok((true, settlement))
    }

    /// Mints a new token with id `token_id` owned by `receiver_id`, gated by
    /// the mint policy: the contract's own account always may; otherwise the
    /// policy and the whitelist decide. The caller pays for the new record's
    /// storage in full or the call fails with nothing changed; any excess
    /// payment is refunded.
    pub fn nft_mint(
        &mut self,
        token_id: String,
        receiver_id: String,
        token_metadata: TokenMetadata,
        predecessor_account_id: &String,
        current_account_id: &String,
        attached_deposit: u128,
    ) -> (r: Result<(Token, Settlement), LedgerError>)
        requires
            old(self).wf(),
            mint_record_size(token_id@, receiver_id@, token_metadata) <= usize::MAX,
            mint_record_size(token_id@, receiver_id@, token_metadata) * STORAGE_COST_PER_BYTE
                <= u128::MAX,
        ensures
            final(self).wf(),
            ({
                let gate = spec_mint_allowed(
                    old(self).mint_approval_status,
                    old(self).whitelist_accounts@,
                    predecessor_account_id@,
                    current_account_id@,
                );
                let size = mint_record_size(token_id@, receiver_id@, token_metadata);
                let already = spec_has_token(old(self).tokens.tokens@, token_id@);
                &&& (gate matches Err(e) ==> (r == Err::<(Token, Settlement), LedgerError>(e)
                    && *final(self) == *old(self)))
                &&& (gate is Ok && already) ==> (r == Err::<(Token, Settlement), LedgerError>(
                    LedgerError::DuplicateTokenId,
                ) && *final(self) == *old(self))
                &&& (gate is Ok && !already && attached_deposit < size * STORAGE_COST_PER_BYTE)
                    ==> (r == Err::<(Token, Settlement), LedgerError>(
                    LedgerError::InsufficientDeposit,
                ) && *final(self) == *old(self))
                &&& (gate is Ok && !already && attached_deposit >= size * STORAGE_COST_PER_BYTE)
                    ==> ({
                    let n = old(self).tokens.tokens@.len() as int;
                    &&& final(self).tokens.tokens@.len() == n + 1
                    &&& final(self).tokens.tokens@[n].token_id == token_id
                    &&& final(self).tokens.tokens@[n].owner_id == receiver_id
                    &&& final(self).tokens.tokens@[n].metadata == Option::Some(token_metadata)
                    &&& final(self).tokens.tokens@[n].approved_account_ids@ == Seq::<
                        Approval,
                    >::empty()
                    &&& final(self).tokens.tokens@[n].next_approval_id == 0
                    &&& forall|i: int|
                        0 <= i < n ==> final(self).tokens.tokens@[i] == old(
                            self,
                        ).tokens.tokens@[i]
                    &&& same_but_tokens(*final(self), *old(self))
                    &&& (r matches Ok(p) && p.0.token_id == token_id && p.0.owner_id
                        == receiver_id && p.0.metadata == Option::Some(token_metadata)
                        && p.0.approved_account_ids@ == Seq::<Approval>::empty() && p.1
                        == (Settlement {
                        charged: (size * STORAGE_COST_PER_BYTE) as u128,
                        refund: (attached_deposit - size * STORAGE_COST_PER_BYTE) as u128,
                    }))
                })
            }),
    {
        match mint_allowed(
            self.mint_approval_status,
            &self.whitelist_accounts,
            predecessor_account_id,
            current_account_id,
        ) {
            Err(e) => {
                return Err(e);
            },
            Ok(_) => {},
        }
        if let Option::Some(_) = self.tokens.find_index(&token_id) {
            return Err(LedgerError::DuplicateTokenId);
        }
        let id_len = token_id.as_str().unicode_len();
        let owner_len = receiver_id.as_str().unicode_len();
        let meta_len = token_metadata.measure();
        let rec_size = 64 + id_len + owner_len + meta_len;
        let settlement = match settle_storage(0, rec_size, attached_deposit) {
            Ok(st) => st,
            Err(e) => {
                return Err(e);
            },
        };
        match self.tokens.mint_token(token_id, receiver_id, Option::Some(token_metadata)) {
            Ok(t) => Ok((t, settlement)),
            Err(_) => {
                proof {
                    assert(false);
                }
                Err(LedgerError::DuplicateTokenId)
            },
        }
    }

    /// How many tokens are live.
    pub fn nft_total_supply(&self) -> (r: usize)
        ensures
            r == self.tokens.tokens@.len(),
    {
        self.tokens.total_supply()
    }

    /// How many live tokens `owner` holds.
    pub fn nft_supply_for_owner(&self, owner: &String) -> (r: usize)
        ensures
            r == owner_count(self.tokens.tokens@, owner@),
    {
        self.tokens.supply_for_owner(owner)
    }

    /// The query view of the named token, if it is live.
    pub fn nft_token(&self, token_id: &String) -> (r: Option<Token>)
        requires
            self.wf(),
        ensures
            match r {
                Option::Some(t) => spec_has_token(self.tokens.tokens@, token_id@)
                    && token_matches(
                    t,
                    self.tokens.tokens@[token_index(self.tokens.tokens@, token_id@)],
                ),
                Option::None => !spec_has_token(self.tokens.tokens@, token_id@),
            },
    {
        self.tokens.get_token(token_id)
    }

    /// One page of the enumeration of all live tokens.
    pub fn nft_tokens(&self, from_index: usize, limit: usize) -> (r: Vec<Token>)
        ensures
            r@.len() == (if from_index < self.tokens.tokens@.len() {
                if limit < self.tokens.tokens@.len() - from_index {
                    limit as int
                } else {
                    self.tokens.tokens@.len() - from_index
                }
            } else {
                0
            }),
            forall|k: int|
                0 <= k < r@.len() ==> token_matches(r@[k], self.tokens.tokens@[from_index + k]),
    {
        self.tokens.list_tokens(from_index, limit)
    }

    /// One page of the enumeration of `owner`'s tokens.
    pub fn nft_tokens_for_owner(&self, owner: &String, from_index: usize, limit: usize) -> (r:
        Vec<Token>)
        ensures
            ({
                let pos = owner_positions(self.tokens.tokens@, owner@);
                &&& r@.len() == (if from_index < pos.len() {
                    if limit < pos.len() - from_index {
                        limit as int
                    } else {
                        pos.len() - from_index
                    }
                } else {
                    0
                })
                &&& forall|k: int|
                    0 <= k < r@.len() ==> token_matches(
                        r@[k],
                        self.tokens.tokens@[pos[from_index + k]],
                    )
            }),
    {
        self.tokens.list_tokens_for_owner(owner, from_index, limit)
    }

    /// Whether `account_id` holds a valid approval for the token matching
    /// `approval_id` exactly; false for an unknown token.
    pub fn nft_is_approved(
        &self,
        token_id: &String,
        account_id: &String,
        approval_id: Option<u64>,
    ) -> (r: bool)
        requires
            self.wf(),
        ensures
            r == (spec_has_token(self.tokens.tokens@, token_id@) && spec_is_approved(
                self.tokens.tokens@[token_index(
                    self.tokens.tokens@,
                    token_id@,
                )].approved_account_ids@,
                account_id@,
                approval_id,
            )),
    {
        self.tokens.is_approved(token_id, account_id, approval_id)
    }

    /// Moves the token to `receiver_id` on behalf of the calling account,
    /// which must own it or hold a matching approval; a move to the current
    /// owner is rejected. The move clears the token's approvals and the
    /// storage they held is refunded with the whole deposit; the previous
    /// owner is returned.
    pub fn nft_transfer(
        &mut self,
        receiver_id: &String,
        token_id: &String,
        approval_id: Option<u64>,
        _memo: Option<String>,
        predecessor_account_id: &String,
        attached_deposit: u128,
    ) -> (r: Result<(String, Settlement), LedgerError>)
        requires
            old(self).wf(),
            forall|i: int|
                0 <= i < old(self).tokens.tokens@.len() && old(self).tokens.tokens@[i].token_id@
                    == token_id@ ==> approvals_size(
                    old(self).tokens.tokens@[i].approved_account_ids@,
                ) <= usize::MAX && attached_deposit + approvals_size(
                    old(self).tokens.tokens@[i].approved_account_ids@,
                ) * STORAGE_COST_PER_BYTE <= u128::MAX,
        ensures
            final(self).wf(),
            !spec_has_token(old(self).tokens.tokens@, token_id@) ==> (r == Err::<
                (String, Settlement),
                LedgerError,
            >(LedgerError::TokenNotFound) && *final(self) == *old(self)),
            spec_has_token(old(self).tokens.tokens@, token_id@) ==> ({
                let i = token_index(old(self).tokens.tokens@, token_id@);
                let tok = old(self).tokens.tokens@[i];
                &&& !spec_transfer_auth(tok, predecessor_account_id@, approval_id) ==> (r
                    == Err::<(String, Settlement), LedgerError>(LedgerError::NotAuthorized)
                    && *final(self) == *old(self))
                &&& (spec_transfer_auth(tok, predecessor_account_id@, approval_id)
                    && tok.owner_id@ == receiver_id@) ==> (r == Err::<
                    (String, Settlement),
                    LedgerError,
                >(LedgerError::SameOwner) && *final(self) == *old(self))
                &&& (spec_transfer_auth(tok, predecessor_account_id@, approval_id)
                    && tok.owner_id@ != receiver_id@) ==> ({
                    &&& final(self).tokens.tokens@.len() == old(self).tokens.tokens@.len()
                    &&& final(self).tokens.tokens@[i].token_id == tok.token_id
                    &&& final(self).tokens.tokens@[i].owner_id == *receiver_id
                    &&& final(self).tokens.tokens@[i].metadata == tok.metadata
                    &&& final(self).tokens.tokens@[i].approved_account_ids@ == Seq::<
                        Approval,
                    >::empty()
                    &&& final(self).tokens.tokens@[i].next_approval_id == tok.next_approval_id
                    &&& forall|j: int|
                        0 <= j < old(self).tokens.tokens@.len() && j != i ==> final(self).tokens.tokens@[j] == old(self).tokens.tokens@[j]
                    &&& same_but_tokens(*final(self), *old(self))
                    &&& (r matches Ok(p) && p.0 == tok.owner_id && p.1 == (Settlement {
                        charged: 0,
                        refund: (attached_deposit + approvals_size(tok.approved_account_ids@)
                            * STORAGE_COST_PER_BYTE) as u128,
                    }))
                })
            }),
    {
        let i = match self.tokens.find_index(token_id) {
            Option::Some(i) => i,
            Option::None => {
                return Err(LedgerError::TokenNotFound);
            },
        };
        let released = measure_approvals(&self.tokens.tokens[i].approved_account_ids);
        let prev = match self.tokens.transfer_token(
            token_id,
            predecessor_account_id,
            receiver_id,
            approval_id,
        ) {
            Ok(p) => p,
            Err(e) => {
                return Err(e);
            },
        };
        let settlement = match settle_storage(released, 0, attached_deposit) {
            Ok(st) => st,
            Err(e) => {
                proof {
                    assert(false);
                }
                return Err(e);
            },
        };
        Ok((prev, settlement))
    }

    /// The commit phase of a transfer that awaits the receiver's
    /// acknowledgment: the ownership change happens now, exactly as in
    /// `nft_transfer`, and the returned record carries everything the
    /// resolve phase needs to compensate if the receiver rejects. The host
    /// makes the acknowledgment call and later hands its outcome, exactly
    /// once, to `nft_resolve_transfer` together with this record.
    pub fn nft_transfer_call(
        &mut self,
        receiver_id: &String,
        token_id: &String,
        approval_id: Option<u64>,
        memo: Option<String>,
        predecessor_account_id: &String,
        attached_deposit: u128,
    ) -> (r: Result<(PendingTransfer, Settlement), LedgerError>)
        requires
            old(self).wf(),
            forall|i: int|
                0 <= i < old(self).tokens.tokens@.len() && old(self).tokens.tokens@[i].token_id@
                    == token_id@ ==> approvals_size(
                    old(self).tokens.tokens@[i].approved_account_ids@,
                ) <= usize::MAX && attached_deposit + approvals_size(
                    old(self).tokens.tokens@[i].approved_account_ids@,
                ) * STORAGE_COST_PER_BYTE <= u128::MAX,
        ensures
            final(self).wf(),
            !spec_has_token(old(self).tokens.tokens@, token_id@) ==> (r == Err::<
                (PendingTransfer, Settlement),
                LedgerError,
            >(LedgerError::TokenNotFound) && *final(self) == *old(self)),
            spec_has_token(old(self).tokens.tokens@, token_id@) ==> ({
                let i = token_index(old(self).tokens.tokens@, token_id@);
                let tok = old(self).tokens.tokens@[i];
                &&& !spec_transfer_auth(tok, predecessor_account_id@, approval_id) ==> (r
                    == Err::<(PendingTransfer, Settlement), LedgerError>(
                    LedgerError::NotAuthorized,
                ) && *final(self) == *old(self))
                &&& (spec_transfer_auth(tok, predecessor_account_id@, approval_id)
                    && tok.owner_id@ == receiver_id@) ==> (r == Err::<
                    (PendingTransfer, Settlement),
                    LedgerError,
                >(LedgerError::SameOwner) && *final(self) == *old(self))
                &&& (spec_transfer_auth(tok, predecessor_account_id@, approval_id)
                    && tok.owner_id@ != receiver_id@) ==> ({
                    &&& final(self).tokens.tokens@.len() == old(self).tokens.tokens@.len()
                    &&& final(self).tokens.tokens@[i].token_id == tok.token_id
                    &&& final(self).tokens.tokens@[i].owner_id == *receiver_id
                    &&& final(self).tokens.tokens@[i].metadata == tok.metadata
                    &&& final(self).tokens.tokens@[i].approved_account_ids@ == Seq::<
                        Approval,
                    >::empty()
                    &&& final(self).tokens.tokens@[i].next_approval_id == tok.next_approval_id
                    &&& forall|j: int|
                        0 <= j < old(self).tokens.tokens@.len() && j != i ==> final(self).tokens.tokens@[j] == old(self).tokens.tokens@[j]
                    &&& same_but_tokens(*final(self), *old(self))
                    &&& (r matches Ok(p) && p.0.token_id == *token_id && p.0.sender_id
                        == *predecessor_account_id && p.0.previous_owner_id == tok.owner_id
                        && p.0.receiver_id == *receiver_id && p.0.memo == memo
                        && p.0.previous_approvals@
                        == tok.approved_account_ids@ && p.1 == (Settlement {
                        charged: 0,
                        refund: (attached_deposit + approvals_size(tok.approved_account_ids@)
                            * STORAGE_COST_PER_BYTE) as u128,
                    }))
                })
            }),
    {
        let i = match self.tokens.find_index(token_id) {
            Option::Some(i) => i,
            Option::None => {
                return Err(LedgerError::TokenNotFound);
            },
        };
        let previous_approvals = dup_approvals(&self.tokens.tokens[i].approved_account_ids);
        let released = measure_approvals(&self.tokens.tokens[i].approved_account_ids);
        let prev = match self.tokens.transfer_token(
            token_id,
            predecessor_account_id,
            receiver_id,
            approval_id,
        ) {
            Ok(p) => p,
            Err(e) => {
                return Err(e);
            },
        };
        let settlement = match settle_storage(released, 0, attached_deposit) {
            Ok(st) => st,
            Err(e) => {
                proof {
                    assert(false);
                }
                return Err(e);
            },
        };
        let pending = PendingTransfer {
            token_id: token_id.clone(),
            sender_id: predecessor_account_id.clone(),
            previous_owner_id: prev,
            receiver_id: receiver_id.clone(),
            memo,
            previous_approvals,
        };
        Ok((pending, settlement))
    }

    /// The resolve phase of a suspended transfer. `Accepted` finalizes the
    /// commit as it stands. `Rejected` (which also stands for a timeout, an
    /// error, or a receiver without the entry point) reverts it — but only
    /// if the receiver still holds the token; if some later call has moved
    /// or burned it in the meantime, the later state is left intact. The
    /// revert restores the previous owner and the cleared approvals and
    /// keeps the approval counter from ever going back. Returns whether the
    /// token ended up with the receiver.
    pub fn nft_resolve_transfer(&mut self, pending: PendingTransfer, outcome: AckOutcome) -> (r:
        bool)
        requires
            old(self).wf(),
            unique_accounts(pending.previous_approvals@),
            unique_approval_ids(pending.previous_approvals@),
            forall|k: int|
                0 <= k < pending.previous_approvals@.len()
                    ==> pending.previous_approvals@[k].approval_id < u64::MAX,
        ensures
            final(self).wf(),
            same_but_tokens(*final(self), *old(self)),
            ({
                let pre = old(self).tokens.tokens@;
                let with_receiver = spec_has_token(pre, pending.token_id@) && pre[token_index(
                    pre,
                    pending.token_id@,
                )].owner_id@ == pending.receiver_id@;
                &&& r == (outcome == AckOutcome::Accepted && with_receiver)
                &&& (outcome == AckOutcome::Accepted || !with_receiver) ==> *final(self) == *old(
                    self,
                )
                &&& (outcome == AckOutcome::Rejected && with_receiver) ==> ({
                    let i = token_index(pre, pending.token_id@);
                    &&& final(self).tokens.tokens@.len() == pre.len()
                    &&& final(self).tokens.tokens@[i].token_id == pre[i].token_id
                    &&& final(self).tokens.tokens@[i].owner_id == pending.previous_owner_id
                    &&& final(self).tokens.tokens@[i].metadata == pre[i].metadata
                    &&& final(self).tokens.tokens@[i].approved_account_ids
                        == pending.previous_approvals
                    &&& final(self).tokens.tokens@[i].next_approval_id == spec_bump_counter(
                        pending.previous_approvals@,
                        pre[i].next_approval_id,
                    )
                    &&& forall|j: int|
                        0 <= j < pre.len() && j != i ==> final(self).tokens.tokens@[j] == pre[j]
                })
            }),
    {
        match outcome {
            AckOutcome::Accepted => {
                match self.tokens.find_index(&pending.token_id) {
                    Option::None => false,
                    Option::Some(i) => self.tokens.tokens[i].owner_id == pending.receiver_id,
                }
            },
            AckOutcome::Rejected => {
                let i = match self.tokens.find_index(&pending.token_id) {
                    Option::None => {
                        return false;
                    },
                    Option::Some(i) => i,
                };
                if !(self.tokens.tokens[i].owner_id == pending.receiver_id) {
                    return false;
                }
                let cur = self.tokens.tokens[i].next_approval_id;
                let n = pending.previous_approvals.len();
                let mut next: u64 = cur;
                let mut k: usize = 0;
                proof {
                    assert(pending.previous_approvals@.take(0) =~= Seq::<Approval>::empty());
                }
                while k < n
                    invariant
                        n == pending.previous_approvals@.len(),
                        k <= n,
                        forall|j: int|
                            0 <= j < pending.previous_approvals@.len()
                                ==> pending.previous_approvals@[j].approval_id < u64::MAX,
                        next == spec_bump_counter(
                            pending.previous_approvals@.take(k as int),
                            cur,
                        ),
                        next >= cur,
                        forall|j: int|
                            0 <= j < k ==> pending.previous_approvals@[j].approval_id < next,
                    decreases n - k,
                {
                    proof {
                        assert(pending.previous_approvals@.take(k + 1).drop_last()
                            =~= pending.previous_approvals@.take(k as int));
                        assert(pending.previous_approvals@.take(k + 1).last()
                            == pending.previous_approvals@[k as int]);
                    }
                    if pending.previous_approvals[k].approval_id >= next {
                        next = pending.previous_approvals[k].approval_id + 1;
                    }
                    k = k + 1;
                }
                proof {
                    assert(pending.previous_approvals@.take(n as int)
                        =~= pending.previous_approvals@);
                }
                let rec = &mut self.tokens.tokens[i];
                rec.owner_id = pending.previous_owner_id;
                rec.approved_account_ids = pending.previous_approvals;
                rec.next_approval_id = next;
                proof {
                    assert forall|a: int, b: int|
                        0 <= a < b < self.tokens.tokens@.len() implies self.tokens.tokens@[a]
                        .token_id@ != self.tokens.tokens@[b].token_id@ by {
                        assert(self.tokens.tokens@[a].token_id@ == old(
                            self,
                        ).tokens.tokens@[a].token_id@);
                        assert(self.tokens.tokens@[b].token_id@ == old(
                            self,
                        ).tokens.tokens@[b].token_id@);
                    }
                }
                false
            },
        }
    }

    /// Removes the token; only its owner (the calling account) may. The
    /// storage the record held is refunded with the whole deposit, and the
    /// burned token is returned.
    pub fn nft_burn(
        &mut self,
        token_id: &String,
        predecessor_account_id: &String,
        attached_deposit: u128,
    ) -> (r: Result<(Token, Settlement), LedgerError>)
        requires
            old(self).wf(),
            forall|i: int|
                0 <= i < old(self).tokens.tokens@.len() && old(self).tokens.tokens@[i].token_id@
                    == token_id@ ==> old(self).tokens.tokens@[i].size() <= usize::MAX
                    && attached_deposit + old(self).tokens.tokens@[i].size()
                    * STORAGE_COST_PER_BYTE <= u128::MAX,
        ensures
            final(self).wf(),
            !spec_has_token(old(self).tokens.tokens@, token_id@) ==> (r == Err::<
                (Token, Settlement),
                LedgerError,
            >(LedgerError::TokenNotFound) && *final(self) == *old(self)),
            spec_has_token(old(self).tokens.tokens@, token_id@) ==> ({
                let i = token_index(old(self).tokens.tokens@, token_id@);
                let tok = old(self).tokens.tokens@[i];
                &&& tok.owner_id@ != predecessor_account_id@ ==> (r == Err::<
                    (Token, Settlement),
                    LedgerError,
                >(LedgerError::NotAuthorized) && *final(self) == *old(self))
                &&& tok.owner_id@ == predecessor_account_id@ ==> ({
                    &&& final(self).tokens.tokens@ == old(self).tokens.tokens@.remove(i)
                    &&& same_but_tokens(*final(self), *old(self))
                    &&& (r matches Ok(p) && p.0.token_id == tok.token_id && p.0.owner_id
                        == tok.owner_id && p.0.metadata == tok.metadata && p.1 == (Settlement {
                        charged: 0,
                        refund: (attached_deposit + tok.size() * STORAGE_COST_PER_BYTE) as u128,
                    }))
                })
            }),
    {
        let i = match self.tokens.find_index(token_id) {
            Option::Some(i) => i,
            Option::None => {
                return Err(LedgerError::TokenNotFound);
            },
        };
        let released = self.tokens.tokens[i].measure();
        let tok = match self.tokens.burn_token(token_id, predecessor_account_id) {
            Ok(t) => t,
            Err(e) => {
                return Err(e);
            },
        };
        let settlement = match settle_storage(released, 0, attached_deposit) {
            Ok(st) => st,
            Err(e) => {
                proof {
                    assert(false);
                }
                return Err(e);
            },
        };
        Ok((tok, settlement))
    }

    /// Grants `account_id` an approval for the token on behalf of the
    /// calling account, which must own it. A first approval grows storage
    /// and must be paid for; refreshing an existing one does not. The fresh
    /// approval id is returned; whatever id the account held before stops
    /// matching.
    pub fn nft_approve(
        &mut self,
        token_id: &String,
        account_id: &String,
        predecessor_account_id: &String,
        attached_deposit: u128,
    ) -> (r: Result<(u64, Settlement), LedgerError>)
        requires
            old(self).wf(),
            8 + account_id@.len() <= usize::MAX,
            (8 + account_id@.len()) * STORAGE_COST_PER_BYTE <= u128::MAX,
            forall|i: int|
                0 <= i < old(self).tokens.tokens@.len() && old(self).tokens.tokens@[i].token_id@
                    == token_id@ ==> old(self).tokens.tokens@[i].next_approval_id < u64::MAX,
        ensures
            final(self).wf(),
            !spec_has_token(old(self).tokens.tokens@, token_id@) ==> (r == Err::<
                (u64, Settlement),
                LedgerError,
            >(LedgerError::TokenNotFound) && *final(self) == *old(self)),
            spec_has_token(old(self).tokens.tokens@, token_id@) ==> ({
                let i = token_index(old(self).tokens.tokens@, token_id@);
                let tok = old(self).tokens.tokens@[i];
                let growth: nat = if approval_id_of(tok.approved_account_ids@, account_id@)
                    is Some {
                    0
                } else {
                    account_id@.len() + 8
                };
                let required = growth * STORAGE_COST_PER_BYTE;
                &&& tok.owner_id@ != predecessor_account_id@ ==> (r == Err::<
                    (u64, Settlement),
                    LedgerError,
                >(LedgerError::NotAuthorized) && *final(self) == *old(self))
                &&& (tok.owner_id@ == predecessor_account_id@ && attached_deposit < required)
                    ==> (r == Err::<(u64, Settlement), LedgerError>(
                    LedgerError::InsufficientDeposit,
                ) && *final(self) == *old(self))
                &&& (tok.owner_id@ == predecessor_account_id@ && attached_deposit >= required)
                    ==> ({
                    &&& final(self).tokens.tokens@.len() == old(self).tokens.tokens@.len()
                    &&& final(self).tokens.tokens@[i].token_id == tok.token_id
                    &&& final(self).tokens.tokens@[i].owner_id == tok.owner_id
                    &&& final(self).tokens.tokens@[i].metadata == tok.metadata
                    &&& final(self).tokens.tokens@[i].next_approval_id == tok.next_approval_id
                        + 1
                    &&& approval_id_of(
                        final(self).tokens.tokens@[i].approved_account_ids@,
                        account_id@,
                    ) == Option::Some(tok.next_approval_id)
                    &&& forall|a: Seq<char>|
                        a != account_id@ ==> approval_id_of(
                            final(self).tokens.tokens@[i].approved_account_ids@,
                            a,
                        ) == approval_id_of(tok.approved_account_ids@, a)
                    &&& forall|j: int|
                        0 <= j < old(self).tokens.tokens@.len() && j != i ==> final(self).tokens.tokens@[j] == old(self).tokens.tokens@[j]
                    &&& same_but_tokens(*final(self), *old(self))
                    &&& r == Ok::<(u64, Settlement), LedgerError>(
                        (
                            tok.next_approval_id,
                            Settlement {
                                charged: required as u128,
                                refund: (attached_deposit - required) as u128,
                            },
                        ),
                    )
                })
            }),
    {
        let i = match self.tokens.find_index(token_id) {
            Option::Some(i) => i,
            Option::None => {
                return Err(LedgerError::TokenNotFound);
            },
        };
        if !(self.tokens.tokens[i].owner_id == *predecessor_account_id) {
            return Err(LedgerError::NotAuthorized);
        }
        let growth: usize = match crate::ledger::find_approval(
            &self.tokens.tokens[i].approved_account_ids,
            account_id,
        ) {
            Option::Some(_) => {
                proof {
                    crate::token::lemma_approval_id_present(
                        self.tokens.tokens@[i as int].approved_account_ids@,
                        choose|k: int|
                            0 <= k < self.tokens.tokens@[i as int].approved_account_ids@.len()
                                && self.tokens.tokens@[i as int].approved_account_ids@[k]
                                .account_id@ == account_id@,
                    );
                }
                0
            },
            Option::None => {
                proof {
                    crate::token::lemma_approval_id_absent(
                        self.tokens.tokens@[i as int].approved_account_ids@,
                        account_id@,
                    );
                }
                account_id.as_str().unicode_len() + 8
            },
        };
        let settlement = match settle_storage(0, growth, attached_deposit) {
            Ok(st) => st,
            Err(e) => {
                return Err(e);
            },
        };
        match self.tokens.approve_token(token_id, account_id, predecessor_account_id) {
            Ok(id) => Ok((id, settlement)),
            Err(e) => {
                proof {
                    assert(false);
                }
                Err(e)
            },
        }
    }

    /// Withdraws `account_id`'s approval for the token on behalf of the
    /// calling account, which must own it; an absent approval is a no-op.
    /// The storage a removed approval held is refunded with the whole
    /// deposit.
    pub fn nft_revoke(
        &mut self,
        token_id: &String,
        account_id: &String,
        predecessor_account_id: &String,
        attached_deposit: u128,
    ) -> (r: Result<(bool, Settlement), LedgerError>)
        requires
            old(self).wf(),
            8 + account_id@.len() <= usize::MAX,
            attached_deposit + (8 + account_id@.len()) * STORAGE_COST_PER_BYTE <= u128::MAX,
        ensures
            final(self).wf(),
            !spec_has_token(old(self).tokens.tokens@, token_id@) ==> (r == Err::<
                (bool, Settlement),
                LedgerError,
            >(LedgerError::TokenNotFound) && *final(self) == *old(self)),
            spec_has_token(old(self).tokens.tokens@, token_id@) ==> ({
                let i = token_index(old(self).tokens.tokens@, token_id@);
                let tok = old(self).tokens.tokens@[i];
                let had = approval_id_of(tok.approved_account_ids@, account_id@) is Some;
                let released: nat = if had {
                    account_id@.len() + 8
                } else {
                    0
                };
                &&& tok.owner_id@ != predecessor_account_id@ ==> (r == Err::<
                    (bool, Settlement),
                    LedgerError,
                >(LedgerError::NotAuthorized) && *final(self) == *old(self))
                &&& tok.owner_id@ == predecessor_account_id@ ==> ({
                    &&& final(self).tokens.tokens@.len() == old(self).tokens.tokens@.len()
                    &&& final(self).tokens.tokens@[i].token_id == tok.token_id
                    &&& final(self).tokens.tokens@[i].owner_id == tok.owner_id
                    &&& final(self).tokens.tokens@[i].metadata == tok.metadata
                    &&& final(self).tokens.tokens@[i].next_approval_id == tok.next_approval_id
                    &&& approval_id_of(
                        final(self).tokens.tokens@[i].approved_account_ids@,
                        account_id@,
                    ) is None
                    &&& forall|a: Seq<char>|
                        a != account_id@ ==> approval_id_of(
                            final(self).tokens.tokens@[i].approved_account_ids@,
                            a,
                        ) == approval_id_of(tok.approved_account_ids@, a)
                    &&& forall|j: int|
                        0 <= j < old(self).tokens.tokens@.len() && j != i ==> final(self).tokens.tokens@[j] == old(self).tokens.tokens@[j]
                    &&& same_but_tokens(*final(self), *old(self))
                    &&& r == Ok::<(bool, Settlement), LedgerError>(
                        (
                            had,
                            Settlement {
                                charged: 0,
                                refund: (attached_deposit + released * STORAGE_COST_PER_BYTE)
                                    as u128,
                            },
                        ),
                    )
                })
            }),
    {
        let i = match self.tokens.find_index(token_id) {
            Option::Some(i) => i,
            Option::None => {
                return Err(LedgerError::TokenNotFound);
            },
        };
        if !(self.tokens.tokens[i].owner_id == *predecessor_account_id) {
            return Err(LedgerError::NotAuthorized);
        }
        let had = match self.tokens.revoke_token(token_id, account_id, predecessor_account_id) {
            Ok(b) => b,
            Err(e) => {
                proof {
                    assert(false);
                }
                return Err(e);
            },
        };
        let released: usize = if had {
            account_id.as_str().unicode_len() + 8
        } else {
            0
        };
        let settlement = match settle_storage(released, 0, attached_deposit) {
            Ok(st) => st,
            Err(e) => {
                proof {
                    assert(false);
                }
                return Err(e);
            },
        };
        Ok((had, settlement))
    }

    /// Withdraws every approval for the token on behalf of the calling
    /// account, which must own it. The storage the approvals held is
    /// refunded with the whole deposit.
    pub fn nft_revoke_all(
        &mut self,
        token_id: &String,
        predecessor_account_id: &String,
        attached_deposit: u128,
    ) -> (r: Result<Settlement, LedgerError>)
        requires
            old(self).wf(),
            forall|i: int|
                0 <= i < old(self).tokens.tokens@.len() && old(self).tokens.tokens@[i].token_id@
                    == token_id@ ==> approvals_size(
                    old(self).tokens.tokens@[i].approved_account_ids@,
                ) <= usize::MAX && attached_deposit + approvals_size(
                    old(self).tokens.tokens@[i].approved_account_ids@,
                ) * STORAGE_COST_PER_BYTE <= u128::MAX,
        ensures
            final(self).wf(),
            !spec_has_token(old(self).tokens.tokens@, token_id@) ==> (r == Err::<
                Settlement,
                LedgerError,
            >(LedgerError::TokenNotFound) && *final(self) == *old(self)),
            spec_has_token(old(self).tokens.tokens@, token_id@) ==> ({
                let i = token_index(old(self).tokens.tokens@, token_id@);
                let tok = old(self).tokens.tokens@[i];
                &&& tok.owner_id@ != predecessor_account_id@ ==> (r == Err::<
                    Settlement,
                    LedgerError,
                >(LedgerError::NotAuthorized) && *final(self) == *old(self))
                &&& tok.owner_id@ == predecessor_account_id@ ==> ({
                    &&& final(self).tokens.tokens@.len() == old(self).tokens.tokens@.len()
                    &&& final(self).tokens.tokens@[i].token_id == tok.token_id
                    &&& final(self).tokens.tokens@[i].owner_id == tok.owner_id
                    &&& final(self).tokens.tokens@[i].metadata == tok.metadata
                    &&& final(self).tokens.tokens@[i].next_approval_id == tok.next_approval_id
                    &&& final(self).tokens.tokens@[i].approved_account_ids@ == Seq::<
                        Approval,
                    >::empty()
                    &&& forall|j: int|
                        0 <= j < old(self).tokens.tokens@.len() && j != i ==> final(self).tokens.tokens@[j] == old(self).tokens.tokens@[j]
                    &&& same_but_tokens(*final(self), *old(self))
                    &&& r == Ok::<Settlement, LedgerError>(
                        Settlement {
                            charged: 0,
                            refund: (attached_deposit + approvals_size(tok.approved_account_ids@)
                                * STORAGE_COST_PER_BYTE) as u128,
                        },
                    )
                })
            }),
    {
        let i = match self.tokens.find_index(token_id) {
            Option::Some(i) => i,
            Option::None => {
                return Err(LedgerError::TokenNotFound);
            },
        };
        if !(self.tokens.tokens[i].owner_id == *predecessor_account_id) {
            return Err(LedgerError::NotAuthorized);
        }
        let released = measure_approvals(&self.tokens.tokens[i].approved_account_ids);
        match self.tokens.revoke_all_token(token_id, predecessor_account_id) {
            Ok(_) => {},
            Err(e) => {
                proof {
                    assert(false);
                }
                return Err(e);
            },
        }
        let settlement = match settle_storage(released, 0, attached_deposit) {
            Ok(st) => st,
            Err(e) => {
                proof {
                    assert(false);
                }
                return Err(e);
            },
        };
        Ok(settlement)
    }

    /// Takes the first matching entry off the whitelist; absent is a no-op.
    /// Only the contract's own account may. The storage the entry held is
    /// refunded with the unused deposit.
    pub fn remove_whitelist_account(
        &mut self,
        whitelist_account: &String,
        predecessor_account_id: &String,
        current_account_id: &String,
        attached_deposit: u128,
    ) -> (r: Result<(bool, Settlement), LedgerError>)
        requires
            attached_deposit + whitelist_account@.len() * STORAGE_COST_PER_BYTE <= u128::MAX,
        ensures
            predecessor_account_id@ != current_account_id@ ==> (r == Err::<
                (bool, Settlement),
                LedgerError,
            >(LedgerError::NotAuthorized) && *final(self) == *old(self)),
            (predecessor_account_id@ == current_account_id@ && (forall|j: int|
                0 <= j < old(self).whitelist_accounts@.len() ==> old(
                    self,
                ).whitelist_accounts@[j]@ != whitelist_account@)) ==> (r == Ok::<
                (bool, Settlement),
                LedgerError,
            >((true, Settlement { charged: 0, refund: attached_deposit })) && *final(self) == *old(
                self,
            )),
            (predecessor_account_id@ == current_account_id@ && (exists|j: int|
                0 <= j < old(self).whitelist_accounts@.len() && old(
                    self,
                ).whitelist_accounts@[j]@ == whitelist_account@)) ==> (exists|k: int|
                {
                    &&& 0 <= k < old(self).whitelist_accounts@.len()
                    &&& old(self).whitelist_accounts@[k]@ == whitelist_account@
                    &&& (forall|j: int|
                        0 <= j < k ==> old(self).whitelist_accounts@[j]@ != whitelist_account@)
                    &&& final(self).whitelist_accounts@ == old(self).whitelist_accounts@.remove(k)
                    &&& same_but_whitelist(*final(self), *old(self))
                    &&& r == Ok::<(bool, Settlement), LedgerError>(
                        (
                            true,
                            Settlement {
                                charged: 0,
                                refund: (attached_deposit + whitelist_account@.len()
                                    * STORAGE_COST_PER_BYTE) as u128,
                            },
                        ),
                    )
                }),
    {
        if !(*current_account_id == *predecessor_account_id) {
            return Err(LedgerError::NotAuthorized);
        }
        let n = self.whitelist_accounts.len();
        let mut i: usize = 0;
        while i < n
            invariant
                n == self.whitelist_accounts@.len(),
                i <= n,
                forall|j: int|
                    0 <= j < i ==> self.whitelist_accounts@[j]@ != whitelist_account@,
                *self == *old(self),
                predecessor_account_id@ == current_account_id@,
                attached_deposit + whitelist_account@.len() * STORAGE_COST_PER_BYTE
                    <= u128::MAX,
            decreases n - i,
        {
            if self.whitelist_accounts[i] == *whitelist_account {
                let entry_len = whitelist_account.as_str().unicode_len();
                let settlement = match settle_storage(entry_len, 0, attached_deposit) {
                    Ok(st) => st,
                    Err(e) => {
                        return Err(e);
                    },
                };
                let _ = self.whitelist_accounts.remove(i);
                return Ok((true, settlement));
            }
            i = i + 1;
        }
        Ok((true, Settlement { charged: 0, refund: attached_deposit }))
    }
}

} // verus!
