use vstd::prelude::*;

use crate::metadata::{
    dup_opt_metadata, opt_metadata_measure, opt_metadata_size, TokenMetadata,
};

verus! {

/// One delegation: `account_id` may transfer the token while the approval
/// carrying `approval_id` is valid.
#[derive(Clone, Debug)]
pub struct Approval {
    pub account_id: String,
    pub approval_id: u64,
}

/// The durable record of one token.
#[derive(Clone, Debug)]
pub struct TokenRecord {
    pub token_id: String,
    pub owner_id: String,
    pub metadata: Option<TokenMetadata>,
    pub approved_account_ids: Vec<Approval>,
    pub next_approval_id: u64,
}

/// The outward view of one token, as queries and mints report it.
#[derive(Clone, Debug)]
pub struct Token {
    pub token_id: String,
    pub owner_id: String,
    pub metadata: Option<TokenMetadata>,
    pub approved_account_ids: Vec<Approval>,
}

/// No account appears twice in an approval list.
pub open spec fn unique_accounts(s: Seq<Approval>) -> bool {
    forall|i: int, j: int|
        0 <= i < j < s.len() ==> s[i].account_id@ != s[j].account_id@
}

/// The approval id the list grants `acct`: the id of its first (with unique
/// accounts, its only) entry, if any.
pub open spec fn approval_id_of(s: Seq<Approval>, acct: Seq<char>) -> Option<u64>
    decreases s.len(),
{
    if s.len() == 0 {
        Option::None
    } else if s[0].account_id@ == acct {
        Option::Some(s[0].approval_id)
    } else {
        approval_id_of(s.skip(1), acct)
    }
}

/// Whether `acct` holds a valid approval, and, when a specific id is asked
/// about, whether the stored id matches it exactly.
pub open spec fn spec_is_approved(s: Seq<Approval>, acct: Seq<char>, asked: Option<u64>) -> bool {
    match approval_id_of(s, acct) {
        Option::None => false,
        Option::Some(stored) => match asked {
            Option::None => true,
            Option::Some(id) => id == stored,
        },
    }
}

/// An absent account has no approval id.
pub proof fn lemma_approval_id_absent(s: Seq<Approval>, acct: Seq<char>)
    requires
        forall|k: int| 0 <= k < s.len() ==> s[k].account_id@ != acct,
    ensures
        approval_id_of(s, acct) is None,
    decreases s.len(),
{
    if s.len() > 0 {
        lemma_approval_id_absent(s.skip(1), acct);
    }
}

/// In a list with unique accounts, the entry at any index gives the account's
/// approval id.
pub proof fn lemma_approval_id_present(s: Seq<Approval>, k: int)
    requires
        unique_accounts(s),
        0 <= k < s.len(),
    ensures
        approval_id_of(s, s[k].account_id@) == Option::Some(s[k].approval_id),
    decreases s.len(),
{
    if k > 0 {
        assert(unique_accounts(s.skip(1))) by {
            assert forall|i: int, j: int|
                0 <= i < j < s.skip(1).len() implies s.skip(1)[i].account_id@
                != s.skip(1)[j].account_id@ by {
                assert(s.skip(1)[i] == s[i + 1]);
                assert(s.skip(1)[j] == s[j + 1]);
            }
        }
        assert(s.skip(1)[k - 1] == s[k]);
        lemma_approval_id_present(s.skip(1), k - 1);
    }
}

/// Appending an entry for a fresh account grants that account its id and
/// leaves every other account's answer unchanged.
pub proof fn lemma_approval_id_push(s: Seq<Approval>, ap: Approval, acct: Seq<char>)
    ensures
        approval_id_of(s.push(ap), acct) == (if approval_id_of(s, acct) is Some {
            approval_id_of(s, acct)
        } else if ap.account_id@ == acct {
            Option::Some(ap.approval_id)
        } else {
            Option::<u64>::None
        }),
    decreases s.len(),
{
    if s.len() == 0 {
        assert(s.push(ap)[0] == ap);
        assert(s.push(ap).skip(1) =~= Seq::<Approval>::empty());
        assert(approval_id_of(s.push(ap).skip(1), acct) is None);
        assert(approval_id_of(s, acct) is None);
    } else {
        assert(s.push(ap)[0] == s[0]);
        assert(s.push(ap).skip(1) =~= s.skip(1).push(ap));
        lemma_approval_id_push(s.skip(1), ap, acct);
    }
}

/// Replacing the entry at `k` by one for the same account changes that
/// account's id and no other account's answer.
pub proof fn lemma_approval_id_update(s: Seq<Approval>, k: int, ap: Approval, acct: Seq<char>)
    requires
        unique_accounts(s),
        0 <= k < s.len(),
        s[k].account_id@ == ap.account_id@,
    ensures
        approval_id_of(s.update(k, ap), acct) == (if acct == ap.account_id@ {
            Option::Some(ap.approval_id)
        } else {
            approval_id_of(s, acct)
        }),
    decreases s.len(),
{
    if k == 0 {
        assert(s.update(0, ap)[0] == ap);
        assert(s.update(0, ap).skip(1) =~= s.skip(1));
    } else {
        assert(s.update(k, ap)[0] == s[0]);
        assert(s.update(k, ap).skip(1) =~= s.skip(1).update(k - 1, ap));
        assert(unique_accounts(s.skip(1))) by {
            assert forall|i: int, j: int|
                0 <= i < j < s.skip(1).len() implies s.skip(1)[i].account_id@
                != s.skip(1)[j].account_id@ by {
                assert(s.skip(1)[i] == s[i + 1]);
                assert(s.skip(1)[j] == s[j + 1]);
            }
        }
        assert(s.skip(1)[k - 1] == s[k]);
        lemma_approval_id_update(s.skip(1), k - 1, ap, acct);
        if acct == s[0].account_id@ {
            assert(s[0].account_id@ != s[k].account_id@);
        }
    }
}

/// Removing the entry at `k` clears that account's approval and leaves every
/// other account's answer unchanged.
pub proof fn lemma_approval_id_remove(s: Seq<Approval>, k: int, acct: Seq<char>)
    requires
        unique_accounts(s),
        0 <= k < s.len(),
    ensures
        approval_id_of(s.remove(k), acct) == (if acct == s[k].account_id@ {
            Option::<u64>::None
        } else {
            approval_id_of(s, acct)
        }),
    decreases s.len(),
{
    if k == 0 {
        assert(s.remove(0) =~= s.skip(1));
        if acct == s[0].account_id@ {
            lemma_approval_id_absent(s.skip(1), acct);
        }
    } else {
        assert(s.remove(k)[0] == s[0]);
        assert(s.remove(k).skip(1) =~= s.skip(1).remove(k - 1));
        assert(unique_accounts(s.skip(1))) by {
            assert forall|i: int, j: int|
                0 <= i < j < s.skip(1).len() implies s.skip(1)[i].account_id@
                != s.skip(1)[j].account_id@ by {
                assert(s.skip(1)[i] == s[i + 1]);
                assert(s.skip(1)[j] == s[j + 1]);
            }
        }
        assert(s.skip(1)[k - 1] == s[k]);
        lemma_approval_id_remove(s.skip(1), k - 1, acct);
        if acct == s[0].account_id@ {
            assert(s[0].account_id@ != s[k].account_id@);
        }
    }
}

/// The persisted size of an approval list: each entry is billed for its
/// account's characters plus eight bytes of id.
pub open spec fn approvals_size(s: Seq<Approval>) -> nat
    decreases s.len(),
{
    if s.len() == 0 {
        0
    } else {
        approvals_size(s.drop_last()) + s.last().account_id@.len() + 8
    }
}

/// A prefix of an approval list never takes more space than the whole.
pub proof fn lemma_approvals_size_prefix(s: Seq<Approval>, n: int)
    requires
        0 <= n <= s.len(),
    ensures
        approvals_size(s.take(n)) <= approvals_size(s),
    decreases s.len() - n,
{
    if n < s.len() {
        assert(s.take(n + 1).drop_last() =~= s.take(n));
        assert(s.take(n + 1).last() == s[n]);
        lemma_approvals_size_prefix(s, n + 1);
    } else {
        assert(s.take(n) =~= s);
    }
}

/// Measures the persisted size of an approval list.
pub fn measure_approvals(list: &Vec<Approval>) -> (r: usize)
    requires
        approvals_size(list@) <= usize::MAX,
    ensures
        r == approvals_size(list@),
{
    let n = list.len();
    let mut total: usize = 0;
    let mut i: usize = 0;
    proof {
        assert(list@.take(0) =~= Seq::<Approval>::empty());
    }
    while i < n
        invariant
            n == list@.len(),
            i <= n,
            approvals_size(list@) <= usize::MAX,
            total == approvals_size(list@.take(i as int)),
        decreases n - i,
    {
        proof {
            assert(list@.take(i + 1).drop_last() =~= list@.take(i as int));
            assert(list@.take(i + 1).last() == list@[i as int]);
            lemma_approvals_size_prefix(list@, i + 1);
        }
        let entry_len = list[i].account_id.as_str().unicode_len();
        total = total + entry_len + 8;
        i = i + 1;
    }
    proof {
        assert(list@.take(n as int) =~= list@);
    }
    total
}

/// No approval id appears twice in an approval list.
pub open spec fn unique_approval_ids(s: Seq<Approval>) -> bool {
    forall|i: int, j: int|
        0 <= i < j < s.len() ==> s[i].approval_id != s[j].approval_id
}

impl TokenRecord {
    /// A well-formed record: no account approved twice, no approval id held
    /// twice, and every stored approval id was issued before the next one
    /// to be issued.
    pub open spec fn wf(self) -> bool {
        &&& unique_accounts(self.approved_account_ids@)
        &&& unique_approval_ids(self.approved_account_ids@)
        &&& forall|i: int|
            0 <= i < self.approved_account_ids@.len()
                ==> self.approved_account_ids@[i].approval_id < self.next_approval_id
    }

    /// The persisted size of this record: a fixed base for the keys, the
    /// characters of its id and owner, its metadata and its approvals.
    pub open spec fn size(self) -> nat {
        64 + self.token_id@.len() + self.owner_id@.len() + opt_metadata_size(self.metadata)
            + approvals_size(self.approved_account_ids@)
    }

    /// Measures the persisted size of this record.
    pub fn measure(&self) -> (r: usize)
        requires
            self.size() <= usize::MAX,
        ensures
            r == self.size(),
    {
        let id_len = self.token_id.as_str().unicode_len();
        let owner_len = self.owner_id.as_str().unicode_len();
        let meta_len = opt_metadata_measure(&self.metadata);
        let approvals_len = measure_approvals(&self.approved_account_ids);
        64 + id_len + owner_len + meta_len + approvals_len
    }

    /// The query view of this record; equal to it field by field.
    pub fn to_token(&self) -> (r: Token)
        ensures
            r.token_id == self.token_id,
            r.owner_id == self.owner_id,
            r.metadata == self.metadata,
            r.approved_account_ids@ == self.approved_account_ids@,
    {
        Token {
            token_id: self.token_id.clone(),
            owner_id: self.owner_id.clone(),
            metadata: dup_opt_metadata(&self.metadata),
            approved_account_ids: dup_approvals(&self.approved_account_ids),
        }
    }
}

/// Copies an approval list; the copy holds the same entries.
pub fn dup_approvals(list: &Vec<Approval>) -> (r: Vec<Approval>)
    ensures
        r@ == list@,
{
    let mut approvals: Vec<Approval> = Vec::new();
    let n = list.len();
    let mut i: usize = 0;
    while i < n
        invariant
            n == list@.len(),
            i <= n,
            approvals@.len() == i,
            forall|j: int| 0 <= j < i ==> approvals@[j] == list@[j],
        decreases n - i,
    {
        let ap = Approval {
            account_id: list[i].account_id.clone(),
            approval_id: list[i].approval_id,
        };
        approvals.push(ap);
        i = i + 1;
    }
    proof {
        assert(approvals@ =~= list@);
    }
    approvals
}

} // verus!
