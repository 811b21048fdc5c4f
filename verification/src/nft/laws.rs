//! Properties of the milestone module that span operations.

use vstd::prelude::*;
use vstd::arithmetic::div_mod::lemma_div_is_ordered;
use vstd::string::StringSliceAdditionalSpecFns;
use vstd::utf8::{is_ascii_chars, is_ascii_chars_encode_utf8};
use super::MilestoneNftView;
use super::metadata::{
    creator_key, cumulative_tips_key, milestone_level_key, milestone_metadata, standard_key,
    standard_name,
};
use super::minting::{DEFAULT_MILESTONE_STEP, MilestoneStoreView, other_than};
use crate::text::{decimal_digits, signed_decimal};
use crate::types::TipJarError;

verus! {

impl MilestoneStoreView {
    /// The ownership index agrees with the NFT records: every record sits
    /// under its own token ID, which the counter has already handed out; every
    /// record is listed, once, among its owner's tokens; and every listed
    /// token is a record owned by that address.
    pub open spec fn ownership_consistent(self) -> bool {
        &&& forall|id: u64| #[trigger]
            self.tokens.contains_key(id) ==> 1 <= id && id <= self.token_counter
                && self.tokens[id].token_id == id
        &&& forall|id: u64| #[trigger]
            self.tokens.contains_key(id) ==> self.tokens_of(self.tokens[id].owner).contains(id)
        &&& forall|a: Seq<u8>, id: u64| #[trigger]
            self.tokens_of(a).contains(id) ==> self.tokens.contains_key(id) && self.tokens[id].owner
                == a
        &&& forall|a: Seq<u8>| #[trigger] self.tokens_of(a).no_duplicates()
    }
}

/// Filtering out one token ID keeps exactly the other entries, and keeps a
/// list free of duplicates.
pub proof fn lemma_filter_other_than(s: Seq<u64>, token_id: u64)
    ensures
        forall|x: u64| #[trigger]
            s.filter(other_than(token_id)).contains(x) <==> (s.contains(x) && x != token_id),
        s.no_duplicates() ==> s.filter(other_than(token_id)).no_duplicates(),
    decreases s.len(),
{
    reveal(Seq::filter);
    let f = s.filter(other_than(token_id));
    if s.len() > 0 {
        let rest = s.drop_last();
        let last = s.last();
        lemma_filter_other_than(rest, token_id);
        assert(s =~= rest.push(last));
        assert forall|x: u64| #[trigger] f.contains(x) <==> (s.contains(x) && x != token_id) by {
            if f.contains(x) {
                let i = choose|i: int| 0 <= i < f.len() && f[i] == x;
                if last != token_id && i == f.len() - 1 {
                    assert(s[s.len() - 1] == x);
                } else {
                    assert(rest.filter(other_than(token_id)).contains(x));
                    let j = choose|j: int| 0 <= j < rest.len() && rest[j] == x;
                    assert(s[j] == x);
                }
            }
            if s.contains(x) && x != token_id {
                let i = choose|i: int| 0 <= i < s.len() && s[i] == x;
                if i == s.len() - 1 {
                    assert(f[f.len() - 1] == x);
                } else {
                    assert(rest[i] == x);
                    assert(rest.filter(other_than(token_id)).contains(x));
                    let j = choose|j: int| 0 <= j < rest.filter(other_than(token_id)).len()
                        && rest.filter(other_than(token_id))[j] == x;
                    assert(f[j] == x);
                }
            }
        }
        if s.no_duplicates() {
            assert(rest.no_duplicates()) by {
                assert forall|i: int, j: int| 0 <= i < rest.len() && 0 <= j < rest.len() && i != j
                    implies rest[i] != rest[j] by {
                    assert(s[i] == rest[i] && s[j] == rest[j]);
                }
            }
            if last != token_id {
                let rf = rest.filter(other_than(token_id));
                assert(!rest.contains(last)) by {
                    if rest.contains(last) {
                        let j = choose|j: int| 0 <= j < rest.len() && rest[j] == last;
                        assert(s[j] == s[s.len() - 1]);
                    }
                }
                assert(!rf.contains(last));
                assert forall|i: int, j: int| 0 <= i < f.len() && 0 <= j < f.len() && i != j
                    implies f[i] != f[j] by {
                    if i == f.len() - 1 {
                        assert(rf.contains(f[j]) ==> f[j] != last);
                        assert(f[j] == rf[j]);
                    } else if j == f.len() - 1 {
                        assert(f[i] == rf[i]);
                    } else {
                        assert(f[i] == rf[i] && f[j] == rf[j]);
                    }
                }
            }
        }
    }
}

/// A transfer that is not refused keeps the ownership index consistent.
pub proof fn lemma_transfer_keeps_ownership_consistent(
    s: MilestoneStoreView,
    from: Seq<u8>,
    to: Seq<u8>,
    token_id: u64,
)
    requires
        s.ownership_consistent(),
        s.transfer_error(from, token_id) is None,
    ensures
        s.after_transfer(from, to, token_id).ownership_consistent(),
{
    let t = s.after_transfer(from, to, token_id);
    let filtered = s.tokens_of(from).filter(other_than(token_id));
    lemma_filter_other_than(s.tokens_of(from), token_id);
    let received = if from == to { filtered } else { s.tokens_of(to) };
    assert(t.tokens_of(to) == received.push(token_id));
    assert(from != to ==> t.tokens_of(from) == filtered);
    assert(forall|a: Seq<u8>| a != from && a != to ==> #[trigger] t.tokens_of(a) == s.tokens_of(a));
    assert(!received.contains(token_id)) by {
        if from != to && received.contains(token_id) {
            assert(s.tokens_of(to).contains(token_id));
        }
    }
    assert forall|x: u64| #[trigger] t.tokens_of(to).contains(x) <==> (received.contains(x) || x == token_id) by {
        let l = received.push(token_id);
        if l.contains(x) {
            let i = choose|i: int| 0 <= i < l.len() && l[i] == x;
            if i < received.len() {
                assert(received[i] == x);
            }
        }
        if received.contains(x) {
            let i = choose|i: int| 0 <= i < received.len() && received[i] == x;
            assert(l[i] == x);
        }
        if x == token_id {
            assert(l[received.len() as int] == x);
        }
    }
    assert forall|id: u64| #[trigger] t.tokens.contains_key(id) implies t.tokens_of(t.tokens[id].owner).contains(id) by {
        if id != token_id {
            let a = s.tokens[id].owner;
            assert(s.tokens_of(a).contains(id));
            if a == to {
                if from == to {
                    assert(filtered.contains(id));
                }
            } else if a == from {
                assert(filtered.contains(id));
            }
        }
    }
    assert forall|a: Seq<u8>, id: u64| #[trigger] t.tokens_of(a).contains(id) implies t.tokens.contains_key(id)
        && t.tokens[id].owner == a by {
        if a == to {
            if id != token_id {
                assert(received.contains(id));
                if from == to {
                    assert(s.tokens_of(from).contains(id));
                } else {
                    assert(s.tokens_of(to).contains(id));
                }
            }
        } else if a == from {
            assert(filtered.contains(id));
            assert(s.tokens_of(from).contains(id));
        } else {
            assert(s.tokens_of(a).contains(id));
        }
    }
    assert forall|a: Seq<u8>| #[trigger] t.tokens_of(a).no_duplicates() by {
        if a == to {
            assert(s.tokens_of(to).no_duplicates());
            assert(s.tokens_of(from).no_duplicates());
            assert(received.no_duplicates());
            let l = received.push(token_id);
            assert forall|i: int, j: int| 0 <= i < l.len() && 0 <= j < l.len() && i != j implies l[i] != l[j] by {
                if i == received.len() {
                    assert(received.contains(l[j]));
                } else if j == received.len() {
                    assert(received.contains(l[i]));
                } else {
                    assert(l[i] == received[i] && l[j] == received[j]);
                }
            }
        } else if a == from {
            assert(s.tokens_of(from).no_duplicates());
        } else {
            assert(s.tokens_of(a).no_duplicates());
        }
    }
}

/// A tip never makes the creator's milestone level go down, so the number
/// of levels it crosses is not negative.
pub proof fn lemma_levels_crossed_nonnegative(s: MilestoneStoreView, creator: Seq<u8>, amount: int)
    requires
        s.valid(),
        amount > 0,
    ensures
        s.levels_crossed(creator, amount) >= 0,
{
    lemma_div_is_ordered(
        s.tip_total(creator),
        s.tip_total(creator) + amount,
        s.milestone_step(creator),
    );
}

/// The token IDs a tip mints are new: above the counter, absent from the
/// records, strictly ascending, and each records the NFT minted for it.
pub proof fn lemma_tip_mints_fresh_ids(
    s: MilestoneStoreView,
    sender: Seq<u8>,
    creator: Seq<u8>,
    amount: int,
    base: Map<Seq<u8>, Seq<u8>>,
    now: u64,
)
    requires
        s.valid(),
        s.ownership_consistent(),
        amount > 0,
        s.tip_within_limits(creator, amount),
    ensures
        ({
            let k = s.levels_crossed(creator, amount);
            let ids = s.next_ids(k);
            let t = s.after_tip(sender, creator, amount, base, now);
            &&& ids.len() == k
            &&& forall|i: int| 0 <= i < k ==> s.token_counter < #[trigger] ids[i]
                && !s.tokens.contains_key(ids[i])
                && t.tokens.contains_key(ids[i])
                && t.tokens[ids[i]] == s.minted_nft(sender, creator, amount, base, now, i)
            &&& forall|i: int, j: int| 0 <= i < j < k ==> #[trigger] ids[i] < #[trigger] ids[j]
            &&& t.token_counter == s.token_counter + k
            &&& forall|id: u64| #[trigger] s.tokens.contains_key(id) ==> t.tokens.contains_key(id)
                && t.tokens[id] == s.tokens[id]
        }),
{
    lemma_levels_crossed_nonnegative(s, creator, amount);
}

/// A tip that stays within the store's limits keeps the ownership index
/// consistent.
pub proof fn lemma_tip_keeps_ownership_consistent(
    s: MilestoneStoreView,
    sender: Seq<u8>,
    creator: Seq<u8>,
    amount: int,
    base: Map<Seq<u8>, Seq<u8>>,
    now: u64,
)
    requires
        s.valid(),
        s.ownership_consistent(),
        amount > 0,
        s.tip_within_limits(creator, amount),
    ensures
        s.after_tip(sender, creator, amount, base, now).ownership_consistent(),
{
    lemma_levels_crossed_nonnegative(s, creator, amount);
    let k = s.levels_crossed(creator, amount);
    let c = s.token_counter as int;
    let ids = s.next_ids(k);
    let t = s.after_tip(sender, creator, amount, base, now);
    if k == 0 {
        assert(t.tokens =~= s.tokens);
        assert(t.owner_tokens == s.owner_tokens);
        assert(forall|a: Seq<u8>| #[trigger] t.tokens_of(a) == s.tokens_of(a));
    } else {
        let old_list = s.tokens_of(sender);
        let new_list = old_list + ids;
        assert(t.tokens_of(sender) == new_list);
        assert(forall|a: Seq<u8>| a != sender ==> #[trigger] t.tokens_of(a) == s.tokens_of(a));
        assert forall|x: u64| #[trigger] new_list.contains(x) <==> (old_list.contains(x) || (c < x && x <= c + k)) by {
            if new_list.contains(x) {
                let i = choose|i: int| 0 <= i < new_list.len() && new_list[i] == x;
                if i < old_list.len() {
                    assert(old_list[i] == x);
                } else {
                    assert(ids[i - old_list.len()] == x);
                }
            }
            if old_list.contains(x) {
                let i = choose|i: int| 0 <= i < old_list.len() && old_list[i] == x;
                assert(new_list[i] == x);
            }
            if c < x && x <= c + k {
                assert(new_list[old_list.len() + (x - c - 1)] == x);
            }
        }
        assert forall|id: u64| #[trigger] t.tokens.contains_key(id) implies t.tokens_of(t.tokens[id].owner).contains(id) by {
            if c < id && id <= c + k {
                assert(new_list.contains(id));
            } else {
                let a = s.tokens[id].owner;
                assert(s.tokens_of(a).contains(id));
                if a == sender {
                    assert(new_list.contains(id));
                }
            }
        }
        assert forall|a: Seq<u8>, id: u64| #[trigger] t.tokens_of(a).contains(id) implies t.tokens.contains_key(id)
            && t.tokens[id].owner == a by {
            if a == sender {
                if !(c < id && id <= c + k) {
                    assert(old_list.contains(id));
                }
            } else {
                assert(s.tokens_of(a).contains(id));
            }
        }
        assert forall|a: Seq<u8>| #[trigger] t.tokens_of(a).no_duplicates() by {
            if a == sender {
                assert(old_list.no_duplicates());
                assert forall|i: int, j: int| 0 <= i < new_list.len() && 0 <= j < new_list.len() && i != j
                    implies new_list[i] != new_list[j] by {
                    if i < old_list.len() && j < old_list.len() {
                        assert(new_list[i] == old_list[i] && new_list[j] == old_list[j]);
                    } else if i < old_list.len() {
                        assert(old_list.contains(new_list[i]));
                        assert(s.tokens.contains_key(new_list[i]));
                    } else if j < old_list.len() {
                        assert(old_list.contains(new_list[j]));
                        assert(s.tokens.contains_key(new_list[j]));
                    }
                }
            } else {
                assert(s.tokens_of(a).no_duplicates());
            }
        }
    }
}

/// A store with no NFT records and no ownership lists is consistent.
pub proof fn lemma_empty_store_consistent(s: MilestoneStoreView)
    requires
        s.tokens == Map::<u64, MilestoneNftView>::empty(),
        s.owner_tokens == Map::<Seq<u8>, Seq<u64>>::empty(),
    ensures
        s.ownership_consistent(),
{
    assert forall|a: Seq<u8>| #[trigger] s.tokens_of(a).no_duplicates() by {
        assert(s.tokens_of(a) =~= Seq::<u64>::empty());
    }
}

/// A configured step is what the creator's step reads afterwards; other
/// creators keep theirs, and the ownership index is untouched.
pub proof fn lemma_step_read_after_write(s: MilestoneStoreView, creator: Seq<u8>, step: i128, other: Seq<u8>)
    requires
        step > 0,
    ensures
        s.with_step(creator, step).milestone_step(creator) == step,
        other != creator ==> s.with_step(creator, step).milestone_step(other) == s.milestone_step(other),
        s.valid() ==> s.with_step(creator, step).valid(),
        s.ownership_consistent() ==> s.with_step(creator, step).ownership_consistent(),
{
    let t = s.with_step(creator, step);
    assert(forall|a: Seq<u8>| #[trigger] t.tokens_of(a) == s.tokens_of(a));
}

/// A creator that never configured a step uses the default of 1000.
pub proof fn lemma_default_step(s: MilestoneStoreView, creator: Seq<u8>)
    requires
        !s.milestone_steps.contains_key(creator),
    ensures
        s.milestone_step(creator) == DEFAULT_MILESTONE_STEP,
        DEFAULT_MILESTONE_STEP == 1000,
{
}

/// Tipping `a1` and then `a2` reaches the same running total as tipping
/// `a1 + a2`, crosses the same milestone levels in total, and the second tip
/// mints exactly the levels that follow the ones the first tip minted.
pub proof fn lemma_split_tip(
    s: MilestoneStoreView,
    sender: Seq<u8>,
    creator: Seq<u8>,
    a1: int,
    a2: int,
    base: Map<Seq<u8>, Seq<u8>>,
    now: u64,
)
    requires
        s.valid(),
        a1 > 0,
        a2 > 0,
        s.tip_total(creator) + a1 + a2 <= i128::MAX,
    ensures
        ({
            let s1 = s.after_tip(sender, creator, a1, base, now);
            let k1 = s.levels_crossed(creator, a1);
            &&& s1.tip_total(creator) == s.tip_total(creator) + a1
            &&& s1.milestone_step(creator) == s.milestone_step(creator)
            &&& k1 + s1.levels_crossed(creator, a2) == s.levels_crossed(creator, a1 + a2)
            &&& s1.level_at(creator, s1.tip_total(creator)) == s.level_at(creator, s.tip_total(creator))
                + k1
            &&& s.tip_within_limits(creator, a1) ==> s1.token_counter == s.token_counter + k1
                && s1.next_ids(s1.levels_crossed(creator, a2)) =~= s.next_ids(
                s.levels_crossed(creator, a1 + a2),
            ).subrange(k1, s.levels_crossed(creator, a1 + a2))
        }),
{
    lemma_levels_crossed_nonnegative(s, creator, a1);
    let s1 = s.after_tip(sender, creator, a1, base, now);
    let k1 = s.levels_crossed(creator, a1);
    let k2 = s1.levels_crossed(creator, a2);
    let kk = s.levels_crossed(creator, a1 + a2);
    assert(k1 + k2 == kk);
    lemma_div_is_ordered(
        s.tip_total(creator) + a1,
        s.tip_total(creator) + a1 + a2,
        s.milestone_step(creator),
    );
    if s.tip_within_limits(creator, a1) {
        assert(s1.token_counter == s.token_counter + k1);
        lemma_levels_crossed_nonnegative(s, creator, a1 + a2);
        let lhs = s1.next_ids(k2);
        let rhs = s.next_ids(kk).subrange(k1, kk);
        assert(lhs.len() == rhs.len());
        assert forall|i: int| 0 <= i < lhs.len() implies lhs[i] == rhs[i] by {
            assert(rhs[i] == s.next_ids(kk)[k1 + i]);
        }
    }
}

/// After a transfer that is not refused, the record names the new owner and
/// is otherwise unchanged, the token is the last one `to` holds, `from` (if
/// different) no longer holds it, and every other record is untouched.
pub proof fn lemma_transfer_moves_token(s: MilestoneStoreView, from: Seq<u8>, to: Seq<u8>, token_id: u64)
    requires
        s.transfer_error(from, token_id) is None,
    ensures
        ({
            let t = s.after_transfer(from, to, token_id);
            &&& t.tokens.contains_key(token_id)
            &&& t.tokens[token_id] == (MilestoneNftView { owner: to, ..s.tokens[token_id] })
            &&& t.tokens_of(to).last() == token_id
            &&& t.tokens_of(to).contains(token_id)
            &&& from != to ==> !t.tokens_of(from).contains(token_id)
            &&& forall|id: u64| id != token_id ==> #[trigger] t.tokens.contains_key(id) == s.tokens.contains_key(id)
                && t.tokens[id] == s.tokens[id]
            &&& t.token_counter == s.token_counter
            &&& t.tip_totals == s.tip_totals
            &&& t.milestone_steps == s.milestone_steps
        }),
{
    let t = s.after_transfer(from, to, token_id);
    lemma_filter_other_than(s.tokens_of(from), token_id);
    let l = t.tokens_of(to);
    assert(l[l.len() - 1] == token_id);
}

/// The four milestone fields of minted metadata carry the standard name, the
/// creator's strkey, the level and the cumulative tips in decimal; every other
/// key keeps the caller's entry.
pub proof fn lemma_milestone_metadata_fields(
    base: Map<Seq<u8>, Seq<u8>>,
    creator: Seq<u8>,
    milestone_level: u64,
    cumulative_tips: i128,
    key: Seq<u8>,
)
    ensures
        ({
            let m = milestone_metadata(base, creator, milestone_level, cumulative_tips);
            &&& m[standard_key()] == standard_name()
            &&& m[creator_key()] == creator
            &&& m[milestone_level_key()] == decimal_digits(milestone_level as nat)
            &&& m[cumulative_tips_key()] == signed_decimal(cumulative_tips as int)
            &&& m.contains_key(standard_key()) && m.contains_key(creator_key())
            &&& m.contains_key(milestone_level_key()) && m.contains_key(cumulative_tips_key())
            &&& (key != standard_key() && key != creator_key() && key != milestone_level_key()
                && key != cumulative_tips_key()) ==> (m.contains_key(key) == base.contains_key(key)
                && (base.contains_key(key) ==> m[key] == base[key]))
        }),
{
    reveal_strlit("standard");
    reveal_strlit("creator");
    reveal_strlit("milestone_level");
    reveal_strlit("cumulative_tips");
    assert(is_ascii_chars("standard"@));
    assert(is_ascii_chars("creator"@));
    assert(is_ascii_chars("milestone_level"@));
    assert(is_ascii_chars("cumulative_tips"@));
    is_ascii_chars_encode_utf8("standard"@);
    is_ascii_chars_encode_utf8("creator"@);
    is_ascii_chars_encode_utf8("milestone_level"@);
    is_ascii_chars_encode_utf8("cumulative_tips"@);
    assert("standard"@[0] == 's' && "creator"@[0] == 'c');
    assert("milestone_level"@[0] == 'm' && "cumulative_tips"@[0] == 'c');
    assert(standard_key()[0] != creator_key()[0]);
    assert(standard_key().len() != milestone_level_key().len());
    assert(standard_key().len() != cumulative_tips_key().len());
    assert(creator_key().len() != milestone_level_key().len());
    assert(creator_key().len() != cumulative_tips_key().len());
    assert(milestone_level_key()[0] != cumulative_tips_key()[0]);
}

/// Minting under the next token ID overwrites no record: the ID is new, every
/// other record and every other owner's list stays as it was, and all record
/// IDs are again within the advanced counter.
pub proof fn lemma_mint_is_fresh(s: MilestoneStoreView, nft: MilestoneNftView)
    requires
        s.ownership_consistent(),
        nft.token_id == s.token_counter + 1,
    ensures
        !s.tokens.contains_key(nft.token_id),
        ({
            let t = s.with_minted(nft);
            &&& t.tokens.contains_key(nft.token_id) && t.tokens[nft.token_id] == nft
            &&& forall|id: u64| id != nft.token_id ==> (#[trigger] t.tokens.contains_key(id)
                == s.tokens.contains_key(id) && t.tokens[id] == s.tokens[id])
            &&& forall|a: Seq<u8>| a != nft.owner ==> #[trigger] t.tokens_of(a) == s.tokens_of(a)
            &&& t.tip_totals == s.tip_totals && t.milestone_steps == s.milestone_steps
            &&& forall|id: u64| #[trigger] t.tokens.contains_key(id) ==> 1 <= id && id <= t.token_counter
        }),
{
}

/// A list without `token_id` is left as it is by dropping `token_id`.
proof fn lemma_filter_absent(l: Seq<u64>, token_id: u64)
    requires
        !l.contains(token_id),
    ensures
        l.filter(other_than(token_id)) == l,
    decreases l.len(),
{
    reveal(Seq::filter);
    if l.len() > 0 {
        let rest = l.drop_last();
        assert(!rest.contains(token_id)) by {
            if rest.contains(token_id) {
                let j = choose|j: int| 0 <= j < rest.len() && rest[j] == token_id;
                assert(l[j] == token_id);
            }
        }
        lemma_filter_absent(rest, token_id);
        assert(l.last() != token_id) by {
            assert(l[l.len() - 1] == l.last());
        }
        assert(rest.push(l.last()) =~= l);
    }
}

/// Dropping a token from an owner's list twice is the same as dropping it once.
pub proof fn lemma_remove_owner_token_twice(s: MilestoneStoreView, owner: Seq<u8>, token_id: u64)
    ensures
        s.without_owner_token(owner, token_id).without_owner_token(owner, token_id)
            == s.without_owner_token(owner, token_id),
{
    let once = s.without_owner_token(owner, token_id);
    let f = s.tokens_of(owner).filter(other_than(token_id));
    lemma_filter_other_than(s.tokens_of(owner), token_id);
    assert(once.tokens_of(owner) == f);
    assert(!f.contains(token_id));
    lemma_filter_absent(f, token_id);
    assert(once.without_owner_token(owner, token_id).owner_tokens =~= once.owner_tokens);
}

/// Token IDs are handed out in strictly increasing order, from 1: claiming
/// two IDs in a row gives the counter plus one and then plus two.
pub proof fn lemma_token_ids_increase(s: MilestoneStoreView)
    requires
        s.token_counter + 2 <= u64::MAX,
    ensures
        ({
            let first = (s.token_counter + 1) as u64;
            let s1 = MilestoneStoreView { token_counter: first, ..s };
            let second = (s1.token_counter + 1) as u64;
            &&& first >= 1
            &&& second == first + 1
        }),
{
}

/// Minting a new record under the next token ID, owned by `nft.owner`,
/// keeps the ownership index consistent.
pub proof fn lemma_mint_keeps_ownership_consistent(s: MilestoneStoreView, nft: MilestoneNftView)
    requires
        s.ownership_consistent(),
        nft.token_id == s.token_counter + 1,
    ensures
        s.with_minted(nft).ownership_consistent(),
{
    lemma_mint_is_fresh(s, nft);
    let t = s.with_minted(nft);
    let id0 = nft.token_id;
    let old_list = s.tokens_of(nft.owner);
    let new_list = old_list.push(id0);
    assert(t.tokens_of(nft.owner) == new_list);
    assert(!old_list.contains(id0));
    assert forall|x: u64| #[trigger] new_list.contains(x) <==> (old_list.contains(x) || x == id0) by {
        if new_list.contains(x) {
            let i = choose|i: int| 0 <= i < new_list.len() && new_list[i] == x;
            if i < old_list.len() {
                assert(old_list[i] == x);
            }
        }
        if old_list.contains(x) {
            let i = choose|i: int| 0 <= i < old_list.len() && old_list[i] == x;
            assert(new_list[i] == x);
        }
        if x == id0 {
            assert(new_list[old_list.len() as int] == x);
        }
    }
    assert forall|id: u64| #[trigger] t.tokens.contains_key(id) implies t.tokens_of(t.tokens[id].owner).contains(id) by {
        if id != id0 {
            let a = s.tokens[id].owner;
            assert(s.tokens_of(a).contains(id));
        }
    }
    assert forall|a: Seq<u8>, id: u64| #[trigger] t.tokens_of(a).contains(id) implies t.tokens.contains_key(id)
        && t.tokens[id].owner == a by {
        if a == nft.owner {
            if id != id0 {
                assert(old_list.contains(id));
            }
        } else {
            assert(s.tokens_of(a).contains(id));
        }
    }
    assert forall|a: Seq<u8>| #[trigger] t.tokens_of(a).no_duplicates() by {
        if a == nft.owner {
            assert(old_list.no_duplicates());
            assert forall|i: int, j: int| 0 <= i < new_list.len() && 0 <= j < new_list.len() && i != j
                implies new_list[i] != new_list[j] by {
                if i == old_list.len() {
                    assert(old_list.contains(new_list[j]));
                } else if j == old_list.len() {
                    assert(old_list.contains(new_list[i]));
                } else {
                    assert(new_list[i] == old_list[i] && new_list[j] == old_list[j]);
                }
            }
        } else {
            assert(s.tokens_of(a).no_duplicates());
        }
    }
}

/// Whether a tip returns is decided by integer ranges alone: a positive tip
/// of `amount` to a creator with running total `t` and step `st` is within
/// limits exactly when `t + amount` fits an `i128`, the
/// `(t + amount) / st - t / st` NFTs it mints fit the token counter, and, if
/// it mints any, the top level `(t + amount) / st` is below `i128::MAX`.
/// However many levels a tip crosses, it is accepted when these hold.
pub proof fn lemma_tip_limits_are_ranges(s: MilestoneStoreView, creator: Seq<u8>, amount: int)
    requires
        amount > 0,
    ensures
        ({
            let t = s.tip_total(creator);
            let st = s.milestone_step(creator);
            s.tip_within_limits(creator, amount) <==> {
                &&& t + amount <= i128::MAX
                &&& s.token_counter + ((t + amount) / st - t / st) <= u64::MAX
                &&& (t + amount) / st > t / st ==> (t + amount) / st < i128::MAX
            }
        }),
{
}

/// A positive tip mints one NFT for every multiple of the creator's step
/// that its running total passes: with running total `t` and step `st`, it
/// mints `(t + amount) / st - t / st` NFTs, under the next token IDs, at
/// levels `t / st + 1` up to `(t + amount) / st`, each recording the new
/// total. In particular a tip that brings a creator with nothing recorded to
/// `k * st` mints exactly `k` NFTs.
pub proof fn lemma_tip_mints_one_per_level(
    s: MilestoneStoreView,
    sender: Seq<u8>,
    creator: Seq<u8>,
    amount: int,
    base: Map<Seq<u8>, Seq<u8>>,
    now: u64,
)
    requires
        s.valid(),
        s.ownership_consistent(),
        amount > 0,
        s.tip_within_limits(creator, amount),
    ensures
        ({
            let t = s.tip_total(creator);
            let st = s.milestone_step(creator);
            let k = (t + amount) / st - t / st;
            let after = s.after_tip(sender, creator, amount, base, now);
            &&& s.next_ids(s.levels_crossed(creator, amount)).len() == k
            &&& forall|i: int| 0 <= i < k ==> s.next_ids(s.levels_crossed(creator, amount))[i] == s.token_counter + 1 + i
            &&& after.token_counter == s.token_counter + k
            &&& after.tip_total(creator) == t + amount
            &&& forall|id: u64| s.token_counter < id <= s.token_counter + k ==> {
                &&& #[trigger] after.tokens.contains_key(id)
                &&& after.tokens[id].token_id == id
                &&& after.tokens[id].owner == sender
                &&& after.tokens[id].creator == creator
                &&& after.tokens[id].milestone_level == (t / st + (id - s.token_counter)) as u64
                &&& after.tokens[id].cumulative_tips == t + amount
                &&& after.tokens[id].minted_at == now
                &&& after.tokens[id].metadata == milestone_metadata(
                    base,
                    creator,
                    after.tokens[id].milestone_level,
                    (t + amount) as i128,
                )
            }
            &&& t == 0 ==> k == amount / st
        }),
{
    lemma_levels_crossed_nonnegative(s, creator, amount);
    lemma_div_is_ordered(0, s.tip_total(creator), s.milestone_step(creator));
    vstd::arithmetic::div_mod::lemma_div_of0(s.milestone_step(creator));
}

/// Configuring a step changes the creator's step and nothing else: every
/// other step, every running total, every NFT record, every owner's list and
/// the token counter stay as they were.
pub proof fn lemma_step_changes_only_the_step(s: MilestoneStoreView, creator: Seq<u8>, step: i128)
    ensures
        s.with_step(creator, step).milestone_steps == s.milestone_steps.insert(creator, step),
        s.with_step(creator, step).tip_totals == s.tip_totals,
        s.with_step(creator, step).tokens == s.tokens,
        s.with_step(creator, step).owner_tokens == s.owner_tokens,
        s.with_step(creator, step).token_counter == s.token_counter,
{
}

/// A transfer is refused exactly for a missing NFT (`NftNotFound`) or a
/// caller that is not its current owner (`NotNftOwner`); the current owner's
/// transfer of an existing NFT is accepted, whoever its creator is.
pub proof fn lemma_owner_may_transfer(s: MilestoneStoreView, from: Seq<u8>, token_id: u64)
    ensures
        !s.tokens.contains_key(token_id) ==> s.transfer_error(from, token_id) == Some(TipJarError::NftNotFound),
        s.tokens.contains_key(token_id) && s.tokens[token_id].owner != from ==> s.transfer_error(from, token_id)
            == Some(TipJarError::NotNftOwner),
        s.tokens.contains_key(token_id) && s.tokens[token_id].owner == from ==> s.transfer_error(from, token_id)
            is None,
{
}

} // verus!
