use vstd::prelude::*;

use crate::ledger::{ledger_size, owner_count, owner_positions, spec_has_token, token_index};
use crate::token::{approval_id_of, spec_is_approved, Approval, TokenRecord};

verus! {

/// The derived per-owner enumeration can never disagree with the token
/// store: for any owner it has exactly `owner_count` entries, every entry
/// points at a token the owner holds, the entries strictly increase (so no
/// token is listed twice), and every token the owner holds is listed. A
/// token therefore appears in its owner's enumeration and, since entries
/// point at tokens the owner holds, in no other owner's.
pub proof fn lemma_owner_positions_consistent(s: Seq<TokenRecord>, o: Seq<char>)
    ensures
        owner_positions(s, o).len() == owner_count(s, o),
        forall|k: int|
            0 <= k < owner_positions(s, o).len() ==> 0 <= #[trigger] owner_positions(s, o)[k]
                < s.len() && s[owner_positions(s, o)[k]].owner_id@ == o,
        forall|k1: int, k2: int|
            0 <= k1 < k2 < owner_positions(s, o).len() ==> #[trigger] owner_positions(s, o)[k1]
                < #[trigger] owner_positions(s, o)[k2],
        forall|i: int|
            0 <= i < s.len() && s[i].owner_id@ == o ==> exists|k: int|
                0 <= k < owner_positions(s, o).len() && #[trigger] owner_positions(s, o)[k] == i,
    decreases s.len(),
{
    if s.len() > 0 {
        let t = s.drop_last();
        lemma_owner_positions_consistent(t, o);
        let prev = owner_positions(t, o);
        let pos = owner_positions(s, o);
        assert(forall|i: int| 0 <= i < t.len() ==> t[i] == s[i]);
        if s.last().owner_id@ == o {
            assert(pos == prev.push(s.len() - 1));
            assert forall|i: int|
                0 <= i < s.len() && s[i].owner_id@ == o implies exists|k: int|
                0 <= k < pos.len() && #[trigger] pos[k] == i by {
                if i < s.len() - 1 {
                    let k = choose|k: int| 0 <= k < prev.len() && #[trigger] prev[k] == i;
                    assert(pos[k] == i);
                } else {
                    assert(pos[pos.len() - 1] == i);
                }
            }
        } else {
            assert(pos == prev);
            assert forall|i: int|
                0 <= i < s.len() && s[i].owner_id@ == o implies exists|k: int|
                0 <= k < pos.len() && #[trigger] pos[k] == i by {
                let k = choose|k: int| 0 <= k < prev.len() && #[trigger] prev[k] == i;
                assert(pos[k] == i);
            }
        }
    }
}

/// Every successful mint hands the new token to the requested receiver,
/// raises the total supply by exactly one, raises the receiver's supply by
/// exactly one, and leaves every other owner's supply unchanged. `pre` and
/// `post` are the token store around the mint, related as the mint's
/// contract states.
pub proof fn lemma_mint_supply(pre: Seq<TokenRecord>, post: Seq<TokenRecord>, receiver: Seq<char>)
    requires
        post.len() == pre.len() + 1,
        forall|i: int| 0 <= i < pre.len() ==> post[i] == pre[i],
        post.last().owner_id@ == receiver,
    ensures
        post[post.len() - 1].owner_id@ == receiver,
        owner_count(post, receiver) == owner_count(pre, receiver) + 1,
        forall|o: Seq<char>| o != receiver ==> owner_count(post, o) == owner_count(pre, o),
{
    assert(post.drop_last() =~= pre);
    assert forall|o: Seq<char>| o != receiver implies owner_count(post, o) == owner_count(
        pre,
        o,
    ) by {
        assert(owner_count(post, o) == owner_count(post.drop_last(), o));
    }
}

/// A successful mint grows the persisted store by exactly the new record's
/// size — the very amount the storage accountant bills the caller for.
pub proof fn lemma_mint_storage_delta(pre: Seq<TokenRecord>, post: Seq<TokenRecord>)
    requires
        post.len() == pre.len() + 1,
        forall|i: int| 0 <= i < pre.len() ==> post[i] == pre[i],
    ensures
        ledger_size(post) == ledger_size(pre) + post.last().size(),
{
    assert(post.drop_last() =~= pre);
}

/// After the owner approves account `a` (getting `id1`) and then account
/// `b` (getting `id2`), the id `a` got first still matches exactly when `b`
/// named a different account: re-approving the same account refreshes its id
/// and the old one stops matching, while an approval granted to one account
/// is untouched by an approval granted to another. `s1` and `s2` are the
/// token's approval list after the first and the second approval, related to
/// each other as the approval's contract states; `id2 != id1` holds of any
/// two ids the monotonic counter issues in sequence.
pub proof fn lemma_reapproval_invalidates_old_id(
    s1: Seq<Approval>,
    s2: Seq<Approval>,
    a: Seq<char>,
    b: Seq<char>,
    id1: u64,
    id2: u64,
)
    requires
        approval_id_of(s1, a) == Option::Some(id1),
        approval_id_of(s2, b) == Option::Some(id2),
        forall|x: Seq<char>| x != b ==> approval_id_of(s2, x) == approval_id_of(s1, x),
        id2 != id1,
    ensures
        spec_is_approved(s2, a, Option::Some(id1)) == (b != a),
{
}

/// Minting a fresh token and then burning it restores the token store to
/// exactly its previous content, so the total supply and every owner's
/// enumeration return to their pre-mint values. `pre`, `minted` and `post`
/// are the store before the mint, after it, and after the burn, related as
/// the two contracts state; `k` is the index the burn removed.
pub proof fn lemma_mint_burn_round_trip(
    pre: Seq<TokenRecord>,
    minted: Seq<TokenRecord>,
    post: Seq<TokenRecord>,
    token_id: Seq<char>,
    k: int,
)
    requires
        !spec_has_token(pre, token_id),
        minted.len() == pre.len() + 1,
        forall|i: int| 0 <= i < pre.len() ==> minted[i] == pre[i],
        minted.last().token_id@ == token_id,
        k == token_index(minted, token_id),
        post == minted.remove(k),
    ensures
        post == pre,
        post.len() == pre.len(),
        forall|o: Seq<char>| owner_count(post, o) == owner_count(pre, o),
{
    assert(spec_has_token(minted, token_id)) by {
        assert(minted[minted.len() - 1].token_id@ == token_id);
    }
    assert(0 <= k < minted.len() && minted[k].token_id@ == token_id);
    if k < pre.len() {
        assert(minted[k] == pre[k]);
        assert(spec_has_token(pre, token_id));
    }
    assert(k == pre.len());
    assert(minted.remove(k) =~= pre);
}

} // verus!
