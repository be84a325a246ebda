use vstd::prelude::*;

use crate::errors::LedgerError;
use crate::metadata::TokenMetadata;
use crate::token::{
    approval_id_of, lemma_approval_id_absent, lemma_approval_id_present, lemma_approval_id_push,
    lemma_approval_id_remove, lemma_approval_id_update, spec_is_approved, unique_accounts,
    Approval, Token, TokenRecord,
};

verus! {

/// No token id appears twice.
pub open spec fn token_ids_unique(s: Seq<TokenRecord>) -> bool {
    forall|i: int, j: int| 0 <= i < j < s.len() ==> s[i].token_id@ != s[j].token_id@
}

/// Whether a token with this id is in the ledger.
pub open spec fn spec_has_token(s: Seq<TokenRecord>, id: Seq<char>) -> bool {
    exists|i: int| 0 <= i < s.len() && s[i].token_id@ == id
}

/// The position of the token with this id; meaningful only where
/// `spec_has_token` holds and the ids are unique.
pub open spec fn token_index(s: Seq<TokenRecord>, id: Seq<char>) -> int {
    choose|i: int| 0 <= i < s.len() && s[i].token_id@ == id
}

/// Whether `sender` may move the token: it owns it, or it holds a valid
/// approval that matches the asked-for approval id exactly.
pub open spec fn spec_transfer_auth(
    tok: TokenRecord,
    sender: Seq<char>,
    approval_id: Option<u64>,
) -> bool {
    tok.owner_id@ == sender || spec_is_approved(tok.approved_account_ids@, sender, approval_id)
}

/// The source of truth for ownership: every live token's record, in the order
/// the tokens were minted. Enumeration is derived from this sequence, so it
/// can never disagree with it.
#[derive(Clone, Debug)]
pub struct Ledger {
    pub tokens: Vec<TokenRecord>,
}

impl Ledger {
    /// A well-formed ledger: token ids are unique and every record is
    /// well-formed.
    pub open spec fn wf(self) -> bool {
        &&& token_ids_unique(self.tokens@)
        &&& forall|i: int| 0 <= i < self.tokens@.len() ==> self.tokens@[i].wf()
    }

    /// An empty ledger.
    pub fn empty() -> (r: Self)
        ensures
            r.wf(),
            r.tokens@ == Seq::<TokenRecord>::empty(),
    {
        Ledger { tokens: Vec::new() }
    }

    /// Where the named token is stored, if it exists.
    pub fn find_index(&self, token_id: &String) -> (r: Option<usize>)
        requires
            self.wf(),
        ensures
            match r {
                Option::Some(i) => i < self.tokens@.len()
                    && self.tokens@[i as int].token_id@ == token_id@
                    && i == token_index(self.tokens@, token_id@),
                Option::None => !spec_has_token(self.tokens@, token_id@),
            },
    {
        let n = self.tokens.len();
        let mut i: usize = 0;
        while i < n
            invariant
                self.wf(),
                n == self.tokens@.len(),
                i <= n,
                forall|j: int| 0 <= j < i ==> self.tokens@[j].token_id@ != token_id@,
            decreases n - i,
        {
            if self.tokens[i].token_id == *token_id {
                proof {
                    let c = token_index(self.tokens@, token_id@);
                    assert(0 <= c < self.tokens@.len() && self.tokens@[c].token_id@ == token_id@);
                    if c != i {
                        assert(self.tokens@[c].token_id@ != self.tokens@[i as int].token_id@);
                    }
                }
                return Option::Some(i);
            }
            i = i + 1;
        }
        Option::None
    }

    /// Mints a new token owned by `receiver_id`; fails if the id is taken.
    /// On success the new record goes at the end of the enumeration order,
    /// with no approvals and a fresh approval counter, and the returned
    /// `Token` describes it.
    pub fn mint_token(
        &mut self,
        token_id: String,
        receiver_id: String,
        metadata: Option<TokenMetadata>,
    ) -> (r: Result<Token, LedgerError>)
        requires
            old(self).wf(),
        ensures
            final(self).wf(),
            spec_has_token(old(self).tokens@, token_id@) ==> (r == Err::<Token, LedgerError>(
                LedgerError::DuplicateTokenId,
            ) && *final(self) == *old(self)),
            !spec_has_token(old(self).tokens@, token_id@) ==> ({
                let n = old(self).tokens@.len() as int;
                &&& final(self).tokens@.len() == n + 1
                &&& final(self).tokens@[n].token_id == token_id
                &&& final(self).tokens@[n].owner_id == receiver_id
                &&& final(self).tokens@[n].metadata == metadata
                &&& final(self).tokens@[n].approved_account_ids@ == Seq::<Approval>::empty()
                &&& final(self).tokens@[n].next_approval_id == 0
                &&& forall|i: int| 0 <= i < n ==> final(self).tokens@[i] == old(self).tokens@[i]
                &&& (r matches Ok(t) && t.token_id == token_id && t.owner_id == receiver_id
                    && t.metadata == metadata && t.approved_account_ids@ == Seq::<Approval>::empty())
            }),
    {
        if let Option::Some(_) = self.find_index(&token_id) {
            return Err(LedgerError::DuplicateTokenId);
        }
        let rec = TokenRecord {
            token_id,
            owner_id: receiver_id,
            metadata,
            approved_account_ids: Vec::new(),
            next_approval_id: 0,
        };
        let out = rec.to_token();
        self.tokens.push(rec);
        proof {
            let n = old(self).tokens@.len() as int;
            assert forall|i: int, j: int|
                0 <= i < j < self.tokens@.len() implies self.tokens@[i].token_id@
                != self.tokens@[j].token_id@ by {
                if j < n {
                    assert(self.tokens@[i] == old(self).tokens@[i]);
                    assert(self.tokens@[j] == old(self).tokens@[j]);
                } else {
                    assert(self.tokens@[i] == old(self).tokens@[i]);
                    assert(!(0 <= i < old(self).tokens@.len()
                        && old(self).tokens@[i].token_id@ == self.tokens@[n].token_id@));
                }
            }
        }
        Ok(out)
    }

    /// Moves the token to `receiver_id` on behalf of `sender_id`, which must
    /// be the owner or hold a matching approval. A move to the current owner
    /// is rejected. On success all approvals are cleared, the approval
    /// counter is kept, and the previous owner is returned.
    pub fn transfer_token(
        &mut self,
        token_id: &String,
        sender_id: &String,
        receiver_id: &String,
        approval_id: Option<u64>,
    ) -> (r: Result<String, LedgerError>)
        requires
            old(self).wf(),
        ensures
            final(self).wf(),
            !spec_has_token(old(self).tokens@, token_id@) ==> (r == Err::<String, LedgerError>(
                LedgerError::TokenNotFound,
            ) && *final(self) == *old(self)),
            spec_has_token(old(self).tokens@, token_id@) ==> ({
                let i = token_index(old(self).tokens@, token_id@);
                let tok = old(self).tokens@[i];
                &&& !spec_transfer_auth(tok, sender_id@, approval_id) ==> (r == Err::<
                    String,
                    LedgerError,
                >(LedgerError::NotAuthorized) && *final(self) == *old(self))
                &&& (spec_transfer_auth(tok, sender_id@, approval_id) && tok.owner_id@
                    == receiver_id@) ==> (r == Err::<String, LedgerError>(LedgerError::SameOwner)
                    && *final(self) == *old(self))
                &&& (spec_transfer_auth(tok, sender_id@, approval_id) && tok.owner_id@
                    != receiver_id@) ==> ({
                    &&& final(self).tokens@.len() == old(self).tokens@.len()
                    &&& final(self).tokens@[i].token_id == tok.token_id
                    &&& final(self).tokens@[i].owner_id == *receiver_id
                    &&& final(self).tokens@[i].metadata == tok.metadata
                    &&& final(self).tokens@[i].approved_account_ids@ == Seq::<Approval>::empty()
                    &&& final(self).tokens@[i].next_approval_id == tok.next_approval_id
                    &&& forall|j: int|
                        0 <= j < old(self).tokens@.len() && j != i ==> final(self).tokens@[j]
                            == old(self).tokens@[j]
                    &&& (r matches Ok(prev) && prev == tok.owner_id)
                })
            }),
    {
        let i = match self.find_index(token_id) {
            Option::Some(i) => i,
            Option::None => {
                return Err(LedgerError::TokenNotFound);
            },
        };
        let authorized = if self.tokens[i].owner_id == *sender_id {
            true
        } else {
            is_approved_in(&self.tokens[i].approved_account_ids, sender_id, approval_id)
        };
        if !authorized {
            return Err(LedgerError::NotAuthorized);
        }
        if self.tokens[i].owner_id == *receiver_id {
            return Err(LedgerError::SameOwner);
        }
        let rec = &mut self.tokens[i];
        let prev = rec.owner_id.clone();
        rec.owner_id = receiver_id.clone();
        rec.approved_account_ids = Vec::new();
        proof {
            assert forall|a: int, b: int|
                0 <= a < b < self.tokens@.len() implies self.tokens@[a].token_id@
                != self.tokens@[b].token_id@ by {
                assert(self.tokens@[a].token_id@ == old(self).tokens@[a].token_id@);
                assert(self.tokens@[b].token_id@ == old(self).tokens@[b].token_id@);
            }
        }
        Ok(prev)
    }

    /// Removes the token; only its owner may. The record leaves the
    /// enumeration order, every other record keeps its place, and the removed
    /// token is returned.
    pub fn burn_token(&mut self, token_id: &String, owner_id: &String) -> (r: Result<
        Token,
        LedgerError,
    >)
        requires
            old(self).wf(),
        ensures
            final(self).wf(),
            !spec_has_token(old(self).tokens@, token_id@) ==> (r == Err::<Token, LedgerError>(
                LedgerError::TokenNotFound,
            ) && *final(self) == *old(self)),
            spec_has_token(old(self).tokens@, token_id@) ==> ({
                let i = token_index(old(self).tokens@, token_id@);
                let tok = old(self).tokens@[i];
                &&& tok.owner_id@ != owner_id@ ==> (r == Err::<Token, LedgerError>(
                    LedgerError::NotAuthorized,
                ) && *final(self) == *old(self))
                &&& tok.owner_id@ == owner_id@ ==> ({
                    &&& final(self).tokens@ == old(self).tokens@.remove(i)
                    &&& (r matches Ok(t) && t.token_id == tok.token_id && t.owner_id
                        == tok.owner_id && t.metadata == tok.metadata)
                })
            }),
    {
        let i = match self.find_index(token_id) {
            Option::Some(i) => i,
            Option::None => {
                return Err(LedgerError::TokenNotFound);
            },
        };
        if !(self.tokens[i].owner_id == *owner_id) {
            return Err(LedgerError::NotAuthorized);
        }
        let out = self.tokens[i].to_token();
        let _removed = self.tokens.remove(i);
        proof {
            let pre = old(self).tokens@;
            assert forall|a: int, b: int|
                0 <= a < b < self.tokens@.len() implies self.tokens@[a].token_id@
                != self.tokens@[b].token_id@ by {
                let pa: int = if a < i { a } else { a + 1 };
                let pb: int = if b < i { b } else { b + 1 };
                assert(self.tokens@[a] == pre[pa]);
                assert(self.tokens@[b] == pre[pb]);
            }
            assert forall|a: int| 0 <= a < self.tokens@.len() implies self.tokens@[a].wf() by {
                let pa: int = if a < i { a } else { a + 1 };
                assert(self.tokens@[a] == pre[pa]);
            }
        }
        Ok(out)
    }
}

impl Ledger {
    /// Grants `account_id` the right to transfer the token, on behalf of
    /// `caller_id`, which must be the owner. The freshly issued approval id
    /// is returned; re-approving an account refreshes its id, so the one it
    /// held before stops matching. The counter never goes back, so no id is
    /// ever issued twice for one token.
    pub fn approve_token(
        &mut self,
        token_id: &String,
        account_id: &String,
        caller_id: &String,
    ) -> (r: Result<u64, LedgerError>)
        requires
            old(self).wf(),
            forall|i: int|
                0 <= i < old(self).tokens@.len() && old(self).tokens@[i].token_id@ == token_id@
                    ==> old(self).tokens@[i].next_approval_id < u64::MAX,
        ensures
            final(self).wf(),
            !spec_has_token(old(self).tokens@, token_id@) ==> (r == Err::<u64, LedgerError>(
                LedgerError::TokenNotFound,
            ) && *final(self) == *old(self)),
            spec_has_token(old(self).tokens@, token_id@) ==> ({
                let i = token_index(old(self).tokens@, token_id@);
                let tok = old(self).tokens@[i];
                &&& tok.owner_id@ != caller_id@ ==> (r == Err::<u64, LedgerError>(
                    LedgerError::NotAuthorized,
                ) && *final(self) == *old(self))
                &&& tok.owner_id@ == caller_id@ ==> ({
                    &&& r == Ok::<u64, LedgerError>(tok.next_approval_id)
                    &&& final(self).tokens@.len() == old(self).tokens@.len()
                    &&& final(self).tokens@[i].token_id == tok.token_id
                    &&& final(self).tokens@[i].owner_id == tok.owner_id
                    &&& final(self).tokens@[i].metadata == tok.metadata
                    &&& final(self).tokens@[i].next_approval_id == tok.next_approval_id + 1
                    &&& approval_id_of(final(self).tokens@[i].approved_account_ids@, account_id@)
                        == Option::Some(tok.next_approval_id)
                    &&& forall|a: Seq<char>|
                        a != account_id@ ==> approval_id_of(
                            final(self).tokens@[i].approved_account_ids@,
                            a,
                        ) == approval_id_of(tok.approved_account_ids@, a)
                    &&& forall|j: int|
                        0 <= j < old(self).tokens@.len() && j != i ==> final(self).tokens@[j]
                            == old(self).tokens@[j]
                })
            }),
    {
        let i = match self.find_index(token_id) {
            Option::Some(i) => i,
            Option::None => {
                return Err(LedgerError::TokenNotFound);
            },
        };
        if !(self.tokens[i].owner_id == *caller_id) {
            return Err(LedgerError::NotAuthorized);
        }
        let k_opt = find_approval(&self.tokens[i].approved_account_ids, account_id);
        let rec = &mut self.tokens[i];
        let id = rec.next_approval_id;
        let ghost pre_list = rec.approved_account_ids@;
        match k_opt {
            Option::Some(k) => {
                let slot = &mut rec.approved_account_ids[k];
                slot.approval_id = id;
                proof {
                    assert forall|a: Seq<char>| true implies approval_id_of(
                        rec.approved_account_ids@,
                        a,
                    ) == (if a == account_id@ {
                        Option::Some(id)
                    } else {
                        approval_id_of(pre_list, a)
                    }) by {
                        lemma_approval_id_update(
                            pre_list,
                            k as int,
                            rec.approved_account_ids@[k as int],
                            a,
                        );
                    }
                }
            },
            Option::None => {
                let ap = Approval { account_id: account_id.clone(), approval_id: id };
                rec.approved_account_ids.push(ap);
                proof {
                    lemma_approval_id_absent(pre_list, account_id@);
                    assert forall|a: Seq<char>| true implies approval_id_of(
                        rec.approved_account_ids@,
                        a,
                    ) == (if a == account_id@ {
                        Option::Some(id)
                    } else {
                        approval_id_of(pre_list, a)
                    }) by {
                        lemma_approval_id_push(pre_list, rec.approved_account_ids@.last(), a);
                        if a == account_id@ {
                        } else if approval_id_of(pre_list, a) is Some {
                        }
                    }
                }
            },
        }
        rec.next_approval_id = id + 1;
        proof {
            assert forall|a: int, b: int|
                0 <= a < b < self.tokens@.len() implies self.tokens@[a].token_id@
                != self.tokens@[b].token_id@ by {
                assert(self.tokens@[a].token_id@ == old(self).tokens@[a].token_id@);
                assert(self.tokens@[b].token_id@ == old(self).tokens@[b].token_id@);
            }
        }
        Ok(id)
    }

    /// Withdraws `account_id`'s approval for the token, on behalf of
    /// `caller_id`, which must be the owner. Revoking an account that holds
    /// no approval changes nothing and is no error; the result says whether
    /// an approval was removed.
    pub fn revoke_token(
        &mut self,
        token_id: &String,
        account_id: &String,
        caller_id: &String,
    ) -> (r: Result<bool, LedgerError>)
        requires
            old(self).wf(),
        ensures
            final(self).wf(),
            !spec_has_token(old(self).tokens@, token_id@) ==> (r == Err::<bool, LedgerError>(
                LedgerError::TokenNotFound,
            ) && *final(self) == *old(self)),
            spec_has_token(old(self).tokens@, token_id@) ==> ({
                let i = token_index(old(self).tokens@, token_id@);
                let tok = old(self).tokens@[i];
                &&& tok.owner_id@ != caller_id@ ==> (r == Err::<bool, LedgerError>(
                    LedgerError::NotAuthorized,
                ) && *final(self) == *old(self))
                &&& tok.owner_id@ == caller_id@ ==> ({
                    &&& r == Ok::<bool, LedgerError>(
                        approval_id_of(tok.approved_account_ids@, account_id@) is Some,
                    )
                    &&& final(self).tokens@.len() == old(self).tokens@.len()
                    &&& final(self).tokens@[i].token_id == tok.token_id
                    &&& final(self).tokens@[i].owner_id == tok.owner_id
                    &&& final(self).tokens@[i].metadata == tok.metadata
                    &&& final(self).tokens@[i].next_approval_id == tok.next_approval_id
                    &&& approval_id_of(final(self).tokens@[i].approved_account_ids@, account_id@)
                        is None
                    &&& forall|a: Seq<char>|
                        a != account_id@ ==> approval_id_of(
                            final(self).tokens@[i].approved_account_ids@,
                            a,
                        ) == approval_id_of(tok.approved_account_ids@, a)
                    &&& forall|j: int|
                        0 <= j < old(self).tokens@.len() && j != i ==> final(self).tokens@[j]
                            == old(self).tokens@[j]
                })
            }),
    {
        let i = match self.find_index(token_id) {
            Option::Some(i) => i,
            Option::None => {
                return Err(LedgerError::TokenNotFound);
            },
        };
        if !(self.tokens[i].owner_id == *caller_id) {
            return Err(LedgerError::NotAuthorized);
        }
        let k_opt = find_approval(&self.tokens[i].approved_account_ids, account_id);
        let rec = &mut self.tokens[i];
        let ghost pre_list = rec.approved_account_ids@;
        let removed = match k_opt {
            Option::Some(k) => {
                proof {
                    lemma_approval_id_present(pre_list, k as int);
                }
                let _ = rec.approved_account_ids.remove(k);
                proof {
                    assert forall|a: Seq<char>| true implies approval_id_of(
                        rec.approved_account_ids@,
                        a,
                    ) == (if a == account_id@ {
                        Option::<u64>::None
                    } else {
                        approval_id_of(pre_list, a)
                    }) by {
                        lemma_approval_id_remove(pre_list, k as int, a);
                    }
                    assert forall|a: int, b: int|
                        0 <= a < b < rec.approved_account_ids@.len() implies rec
                        .approved_account_ids@[a].account_id@ != rec.approved_account_ids@[b]
                        .account_id@ by {
                        let pa: int = if a < k { a } else { a + 1 };
                        let pb: int = if b < k { b } else { b + 1 };
                        assert(rec.approved_account_ids@[a] == pre_list[pa]);
                        assert(rec.approved_account_ids@[b] == pre_list[pb]);
                    }
                    assert forall|a: int|
                        0 <= a < rec.approved_account_ids@.len() implies rec
                        .approved_account_ids@[a].approval_id < rec.next_approval_id by {
                        let pa: int = if a < k { a } else { a + 1 };
                        assert(rec.approved_account_ids@[a] == pre_list[pa]);
                    }
                }
                true
            },
            Option::None => {
                proof {
                    lemma_approval_id_absent(pre_list, account_id@);
                }
                false
            },
        };
        proof {
            assert forall|a: int, b: int|
                0 <= a < b < self.tokens@.len() implies self.tokens@[a].token_id@
                != self.tokens@[b].token_id@ by {
                assert(self.tokens@[a].token_id@ == old(self).tokens@[a].token_id@);
                assert(self.tokens@[b].token_id@ == old(self).tokens@[b].token_id@);
            }
        }
        Ok(removed)
    }

    /// Withdraws every approval for the token, on behalf of `caller_id`,
    /// which must be the owner.
    pub fn revoke_all_token(&mut self, token_id: &String, caller_id: &String) -> (r: Result<
        (),
        LedgerError,
    >)
        requires
            old(self).wf(),
        ensures
            final(self).wf(),
            !spec_has_token(old(self).tokens@, token_id@) ==> (r == Err::<(), LedgerError>(
                LedgerError::TokenNotFound,
            ) && *final(self) == *old(self)),
            spec_has_token(old(self).tokens@, token_id@) ==> ({
                let i = token_index(old(self).tokens@, token_id@);
                let tok = old(self).tokens@[i];
                &&& tok.owner_id@ != caller_id@ ==> (r == Err::<(), LedgerError>(
                    LedgerError::NotAuthorized,
                ) && *final(self) == *old(self))
                &&& tok.owner_id@ == caller_id@ ==> ({
                    &&& r == Ok::<(), LedgerError>(())
                    &&& final(self).tokens@.len() == old(self).tokens@.len()
                    &&& final(self).tokens@[i].token_id == tok.token_id
                    &&& final(self).tokens@[i].owner_id == tok.owner_id
                    &&& final(self).tokens@[i].metadata == tok.metadata
                    &&& final(self).tokens@[i].next_approval_id == tok.next_approval_id
                    &&& final(self).tokens@[i].approved_account_ids@ == Seq::<Approval>::empty()
                    &&& forall|j: int|
                        0 <= j < old(self).tokens@.len() && j != i ==> final(self).tokens@[j]
                            == old(self).tokens@[j]
                })
            }),
    {
        let i = match self.find_index(token_id) {
            Option::Some(i) => i,
            Option::None => {
                return Err(LedgerError::TokenNotFound);
            },
        };
        if !(self.tokens[i].owner_id == *caller_id) {
            return Err(LedgerError::NotAuthorized);
        }
        let rec = &mut self.tokens[i];
        rec.approved_account_ids = Vec::new();
        proof {
            assert forall|a: int, b: int|
                0 <= a < b < self.tokens@.len() implies self.tokens@[a].token_id@
                != self.tokens@[b].token_id@ by {
                assert(self.tokens@[a].token_id@ == old(self).tokens@[a].token_id@);
                assert(self.tokens@[b].token_id@ == old(self).tokens@[b].token_id@);
            }
        }
        Ok(())
    }

    /// Whether `account_id` holds a valid approval for the token that matches
    /// `asked` exactly; false for an unknown token.
    pub fn is_approved(&self, token_id: &String, account_id: &String, asked: Option<u64>) -> (r:
        bool)
        requires
            self.wf(),
        ensures
            r == (spec_has_token(self.tokens@, token_id@) && spec_is_approved(
                self.tokens@[token_index(self.tokens@, token_id@)].approved_account_ids@,
                account_id@,
                asked,
            )),
    {
        match self.find_index(token_id) {
            Option::Some(i) => is_approved_in(
                &self.tokens[i].approved_account_ids,
                account_id,
                asked,
            ),
            Option::None => false,
        }
    }
}

/// How many tokens in `s` belong to `o`.
pub open spec fn owner_count(s: Seq<TokenRecord>, o: Seq<char>) -> nat
    decreases s.len(),
{
    if s.len() == 0 {
        0
    } else {
        owner_count(s.drop_last(), o) + if s.last().owner_id@ == o {
            1nat
        } else {
            0nat
        }
    }
}

/// The positions of `o`'s tokens in `s`, in enumeration order.
pub open spec fn owner_positions(s: Seq<TokenRecord>, o: Seq<char>) -> Seq<int>
    decreases s.len(),
{
    if s.len() == 0 {
        Seq::<int>::empty()
    } else if s.last().owner_id@ == o {
        owner_positions(s.drop_last(), o).push(s.len() - 1)
    } else {
        owner_positions(s.drop_last(), o)
    }
}

/// Whether the query view `t` reports exactly the record `rec`.
pub open spec fn token_matches(t: Token, rec: TokenRecord) -> bool {
    &&& t.token_id == rec.token_id
    &&& t.owner_id == rec.owner_id
    &&& t.metadata == rec.metadata
    &&& t.approved_account_ids@ == rec.approved_account_ids@
}

/// The persisted size of the whole token store.
pub open spec fn ledger_size(s: Seq<TokenRecord>) -> nat
    decreases s.len(),
{
    if s.len() == 0 {
        0
    } else {
        ledger_size(s.drop_last()) + s.last().size()
    }
}

/// A prefix of the store never takes more space than the whole.
pub proof fn lemma_ledger_size_prefix(s: Seq<TokenRecord>, n: int)
    requires
        0 <= n <= s.len(),
    ensures
        ledger_size(s.take(n)) <= ledger_size(s),
    decreases s.len() - n,
{
    if n < s.len() {
        assert(s.take(n + 1).drop_last() =~= s.take(n));
        assert(s.take(n + 1).last() == s[n]);
        lemma_ledger_size_prefix(s, n + 1);
    } else {
        assert(s.take(n) =~= s);
    }
}

impl Ledger {
    /// How many tokens are live.
    pub fn total_supply(&self) -> (r: usize)
        ensures
            r == self.tokens@.len(),
    {
        self.tokens.len()
    }

    /// How many live tokens `owner` holds.
    pub fn supply_for_owner(&self, owner: &String) -> (r: usize)
        ensures
            r == owner_count(self.tokens@, owner@),
    {
        let n = self.tokens.len();
        let mut count: usize = 0;
        let mut i: usize = 0;
        proof {
            assert(self.tokens@.take(0) =~= Seq::<TokenRecord>::empty());
        }
        while i < n
            invariant
                n == self.tokens@.len(),
                i <= n,
                count <= i,
                count == owner_count(self.tokens@.take(i as int), owner@),
            decreases n - i,
        {
            proof {
                assert(self.tokens@.take(i + 1).drop_last() =~= self.tokens@.take(i as int));
                assert(self.tokens@.take(i + 1).last() == self.tokens@[i as int]);
            }
            if self.tokens[i].owner_id == *owner {
                count = count + 1;
            }
            i = i + 1;
        }
        proof {
            assert(self.tokens@.take(n as int) =~= self.tokens@);
        }
        count
    }

    /// The query view of the named token, if it is live.
    pub fn get_token(&self, token_id: &String) -> (r: Option<Token>)
        requires
            self.wf(),
        ensures
            match r {
                Option::Some(t) => spec_has_token(self.tokens@, token_id@) && token_matches(
                    t,
                    self.tokens@[token_index(self.tokens@, token_id@)],
                ),
                Option::None => !spec_has_token(self.tokens@, token_id@),
            },
    {
        match self.find_index(token_id) {
            Option::Some(i) => Option::Some(self.tokens[i].to_token()),
            Option::None => Option::None,
        }
    }

    /// One page of the enumeration of all live tokens, `limit` entries at
    /// most, starting at offset `from_index` of the stable order. Deletions
    /// between paged calls shift later pages; no snapshot is taken.
    pub fn list_tokens(&self, from_index: usize, limit: usize) -> (r: Vec<Token>)
        ensures
            r@.len() == (if from_index < self.tokens@.len() {
                if limit < self.tokens@.len() - from_index {
                    limit as int
                } else {
                    self.tokens@.len() - from_index
                }
            } else {
                0
            }),
            forall|k: int|
                0 <= k < r@.len() ==> token_matches(r@[k], self.tokens@[from_index + k]),
    {
        let n = self.tokens.len();
        let mut out: Vec<Token> = Vec::new();
        if from_index >= n {
            return out;
        }
        let avail = n - from_index;
        let take_n = if limit < avail {
            limit
        } else {
            avail
        };
        let mut k: usize = 0;
        while k < take_n
            invariant
                n == self.tokens@.len(),
                from_index + take_n <= n,
                k <= take_n,
                out@.len() == k,
                forall|j: int|
                    0 <= j < k ==> token_matches(out@[j], self.tokens@[from_index + j]),
            decreases take_n - k,
        {
            let t = self.tokens[from_index + k].to_token();
            out.push(t);
            k = k + 1;
        }
        out
    }

    /// The positions of `owner`'s tokens, in enumeration order.
    pub fn owner_position_list(&self, owner: &String) -> (r: Vec<usize>)
        ensures
            r@.len() == owner_positions(self.tokens@, owner@).len(),
            forall|k: int|
                0 <= k < r@.len() ==> r@[k] as int == owner_positions(self.tokens@, owner@)[k],
            forall|k: int| 0 <= k < r@.len() ==> r@[k] < self.tokens@.len(),
    {
        let n = self.tokens.len();
        let mut out: Vec<usize> = Vec::new();
        let mut i: usize = 0;
        proof {
            assert(self.tokens@.take(0) =~= Seq::<TokenRecord>::empty());
        }
        while i < n
            invariant
                n == self.tokens@.len(),
                i <= n,
                out@.len() == owner_positions(self.tokens@.take(i as int), owner@).len(),
                forall|k: int|
                    0 <= k < out@.len() ==> out@[k] as int == owner_positions(
                        self.tokens@.take(i as int),
                        owner@,
                    )[k],
                forall|k: int| 0 <= k < out@.len() ==> out@[k] < i,
            decreases n - i,
        {
            proof {
                assert(self.tokens@.take(i + 1).drop_last() =~= self.tokens@.take(i as int));
                assert(self.tokens@.take(i + 1).last() == self.tokens@[i as int]);
            }
            if self.tokens[i].owner_id == *owner {
                out.push(i);
            }
            i = i + 1;
        }
        proof {
            assert(self.tokens@.take(n as int) =~= self.tokens@);
        }
        out
    }

    /// One page of the enumeration of `owner`'s tokens, `limit` entries at
    /// most, starting at offset `from_index` of the owner's stable order.
    pub fn list_tokens_for_owner(&self, owner: &String, from_index: usize, limit: usize) -> (r:
        Vec<Token>)
        ensures
            ({
                let pos = owner_positions(self.tokens@, owner@);
                &&& r@.len() == (if from_index < pos.len() {
                    if limit < pos.len() - from_index {
                        limit as int
                    } else {
                        pos.len() - from_index
                    }
                } else {
                    0
                })
                &&& forall|k: int|
                    0 <= k < r@.len() ==> token_matches(
                        r@[k],
                        self.tokens@[pos[from_index + k]],
                    )
            }),
    {
        let positions = self.owner_position_list(owner);
        let n = positions.len();
        let mut out: Vec<Token> = Vec::new();
        if from_index >= n {
            return out;
        }
        let avail = n - from_index;
        let take_n = if limit < avail {
            limit
        } else {
            avail
        };
        let mut k: usize = 0;
        while k < take_n
            invariant
                n == positions@.len(),
                n == owner_positions(self.tokens@, owner@).len(),
                forall|j: int|
                    0 <= j < n ==> positions@[j] as int == owner_positions(
                        self.tokens@,
                        owner@,
                    )[j],
                forall|j: int| 0 <= j < n ==> positions@[j] < self.tokens@.len(),
                from_index + take_n <= n,
                k <= take_n,
                out@.len() == k,
                forall|j: int|
                    0 <= j < k ==> token_matches(
                        out@[j],
                        self.tokens@[owner_positions(self.tokens@, owner@)[from_index + j]],
                    ),
            decreases take_n - k,
        {
            let p = positions[from_index + k];
            let t = self.tokens[p].to_token();
            out.push(t);
            k = k + 1;
        }
        out
    }

    /// Measures the persisted size of the token store, as the storage
    /// accountant bills it.
    pub fn measure_storage(&self) -> (r: usize)
        requires
            ledger_size(self.tokens@) <= usize::MAX,
        ensures
            r == ledger_size(self.tokens@),
    {
        let n = self.tokens.len();
        let mut total: usize = 0;
        let mut i: usize = 0;
        proof {
            assert(self.tokens@.take(0) =~= Seq::<TokenRecord>::empty());
        }
        while i < n
            invariant
                n == self.tokens@.len(),
                i <= n,
                ledger_size(self.tokens@) <= usize::MAX,
                total == ledger_size(self.tokens@.take(i as int)),
            decreases n - i,
        {
            proof {
                assert(self.tokens@.take(i + 1).drop_last() =~= self.tokens@.take(i as int));
                assert(self.tokens@.take(i + 1).last() == self.tokens@[i as int]);
                lemma_ledger_size_prefix(self.tokens@, i + 1);
            }
            let rec_size = self.tokens[i].measure();
            total = total + rec_size;
            i = i + 1;
        }
        proof {
            assert(self.tokens@.take(n as int) =~= self.tokens@);
        }
        total
    }
}

/// Where `account_id`'s approval sits in `list`, if anywhere.
pub fn find_approval(list: &Vec<Approval>, account_id: &String) -> (r: Option<usize>)
    ensures
        match r {
            Option::Some(k) => k < list@.len() && list@[k as int].account_id@ == account_id@,
            Option::None => forall|j: int|
                0 <= j < list@.len() ==> list@[j].account_id@ != account_id@,
        },
{
    let n = list.len();
    let mut i: usize = 0;
    while i < n
        invariant
            n == list@.len(),
            i <= n,
            forall|j: int| 0 <= j < i ==> list@[j].account_id@ != account_id@,
        decreases n - i,
    {
        if list[i].account_id == *account_id {
            return Option::Some(i);
        }
        i = i + 1;
    }
    Option::None
}

/// Whether `account_id` holds an approval in `list` that matches `asked`
/// exactly (any id where `asked` is absent).
pub fn is_approved_in(list: &Vec<Approval>, account_id: &String, asked: Option<u64>) -> (r: bool)
    requires
        unique_accounts(list@),
    ensures
        r == spec_is_approved(list@, account_id@, asked),
{
    let n = list.len();
    let mut i: usize = 0;
    while i < n
        invariant
            unique_accounts(list@),
            n == list@.len(),
            i <= n,
            forall|j: int| 0 <= j < i ==> list@[j].account_id@ != account_id@,
        decreases n - i,
    {
        if list[i].account_id == *account_id {
            proof {
                lemma_approval_id_present(list@, i as int);
            }
            return match asked {
                Option::None => true,
                Option::Some(id) => id == list[i].approval_id,
            };
        }
        i = i + 1;
    }
    proof {
        lemma_approval_id_absent(list@, account_id@);
    }
    false
}

} // verus!
