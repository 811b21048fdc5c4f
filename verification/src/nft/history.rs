//! Properties of every sequence of calls on the milestone store.

use vstd::prelude::*;
use vstd::arithmetic::div_mod::lemma_div_of0;
use super::MilestoneNftView;
use super::minting::{MilestoneStoreView, StoreCall};
use super::laws::{
    lemma_levels_crossed_nonnegative, lemma_step_read_after_write,
    lemma_tip_keeps_ownership_consistent, lemma_transfer_keeps_ownership_consistent,
};

verus! {

/// The store before any call: nothing recorded, counter at 0.
pub open spec fn empty_store() -> MilestoneStoreView {
    MilestoneStoreView {
        tip_totals: Map::empty(),
        milestone_steps: Map::empty(),
        tokens: Map::empty(),
        owner_tokens: Map::empty(),
        token_counter: 0,
    }
}

/// The store after `calls`, in order, starting from `s`.
pub open spec fn run(s: MilestoneStoreView, calls: Seq<StoreCall>) -> MilestoneStoreView
    decreases calls.len(),
{
    if calls.len() == 0 {
        s
    } else {
        run(s, calls.drop_last()).apply(calls.last())
    }
}

/// Every call of `calls` returns when made in order from `s`.
pub open spec fn all_return(s: MilestoneStoreView, calls: Seq<StoreCall>) -> bool {
    forall|i: int| 0 <= i < calls.len() ==> #[trigger] run(s, calls.take(i)).accepts(calls[i])
}

/// Sum of the amounts of the accepted tips to `creator` in `calls`.
pub open spec fn tips_to(calls: Seq<StoreCall>, creator: Seq<u8>) -> int
    decreases calls.len(),
{
    if calls.len() == 0 {
        0
    } else {
        tips_to(calls.drop_last(), creator) + match calls.last() {
            StoreCall::Tip { creator: c, amount, .. } => if c == creator && amount > 0 {
                amount as int
            } else {
                0
            },
            _ => 0,
        }
    }
}

/// `creator`'s milestone step after `calls`: the last accepted setting, or
/// `initial` when there is none.
pub open spec fn step_after(calls: Seq<StoreCall>, creator: Seq<u8>, initial: int) -> int
    decreases calls.len(),
{
    if calls.len() == 0 {
        initial
    } else {
        match calls.last() {
            StoreCall::SetStep { creator: c, step } => if c == creator && step > 0 {
                step as int
            } else {
                step_after(calls.drop_last(), creator, initial)
            },
            _ => step_after(calls.drop_last(), creator, initial),
        }
    }
}

/// `call` does not change the step `creator` has in `s` once tips to it
/// have been recorded.
pub open spec fn keeps_step_of(s: MilestoneStoreView, call: StoreCall, creator: Seq<u8>) -> bool {
    match call {
        StoreCall::SetStep { creator: c, step } => (c == creator && step > 0) ==> (s.tip_total(
            creator,
        ) == 0 || s.milestone_step(creator) == step),
        _ => true,
    }
}

/// No call of `calls` changes `creator`'s step after tips to it were recorded.
pub open spec fn keeps_step(s: MilestoneStoreView, calls: Seq<StoreCall>, creator: Seq<u8>) -> bool {
    forall|i: int|
        0 <= i < calls.len() ==> #[trigger] keeps_step_of(run(s, calls.take(i)), calls[i], creator)
}

impl MilestoneStoreView {
    /// Token `id` is a milestone NFT of `creator` at `level`.
    pub open spec fn holds_level(self, creator: Seq<u8>, id: u64, level: int) -> bool {
        &&& self.tokens.contains_key(id)
        &&& self.tokens[id].creator == creator
        &&& self.tokens[id].milestone_level == level
    }

    /// Some token is a milestone NFT of `creator` at `level`.
    pub open spec fn level_held(self, creator: Seq<u8>, level: int) -> bool {
        exists|id: u64| #[trigger] self.holds_level(creator, id, level)
    }

    /// The milestone NFTs of `creator` carry exactly the levels 1 to the
    /// creator's current level, each on one token.
    pub open spec fn levels_exact(self, creator: Seq<u8>) -> bool {
        let top = self.level_at(creator, self.tip_total(creator));
        &&& forall|id: u64| #[trigger]
            self.tokens.contains_key(id) && self.tokens[id].creator == creator ==> 1
                <= self.tokens[id].milestone_level <= top
        &&& forall|l: int| 1 <= l <= top ==> #[trigger] self.level_held(creator, l)
        &&& forall|i: u64, j: u64|
            i != j && self.tokens.contains_key(i) && self.tokens.contains_key(j)
                && self.tokens[i].creator == creator && self.tokens[j].creator == creator
                ==> #[trigger] self.tokens[i].milestone_level != #[trigger] self.tokens[j].milestone_level
    }
}

/// The calls before the last return whenever all of them do, and the last
/// one returns on the store they leave.
proof fn lemma_all_return_prefix(s: MilestoneStoreView, calls: Seq<StoreCall>)
    requires
        calls.len() > 0,
        all_return(s, calls),
    ensures
        all_return(s, calls.drop_last()),
        run(s, calls.drop_last()).accepts(calls.last()),
{
    let p = calls.drop_last();
    assert forall|i: int| 0 <= i < p.len() implies #[trigger] run(s, p.take(i)).accepts(p[i]) by {
        assert(p.take(i) =~= calls.take(i));
        assert(run(s, calls.take(i)).accepts(calls[i]));
    }
    assert(calls.take(calls.len() - 1) =~= p);
    assert(run(s, calls.take(calls.len() - 1)).accepts(calls[calls.len() - 1]));
}

/// The step guard holds for the calls before the last, and for the last one
/// on the store they leave.
proof fn lemma_keeps_step_prefix(s: MilestoneStoreView, calls: Seq<StoreCall>, creator: Seq<u8>)
    requires
        calls.len() > 0,
        keeps_step(s, calls, creator),
    ensures
        keeps_step(s, calls.drop_last(), creator),
        keeps_step_of(run(s, calls.drop_last()), calls.last(), creator),
{
    let p = calls.drop_last();
    assert forall|i: int| 0 <= i < p.len() implies #[trigger] keeps_step_of(run(s, p.take(i)), p[i], creator) by {
        assert(p.take(i) =~= calls.take(i));
        assert(keeps_step_of(run(s, calls.take(i)), calls[i], creator));
    }
    assert(calls.take(calls.len() - 1) =~= p);
    assert(keeps_step_of(run(s, calls.take(calls.len() - 1)), calls[calls.len() - 1], creator));
}

/// A call that returns keeps the store's values valid and its ownership
/// index consistent.
pub proof fn lemma_call_keeps_invariants(s: MilestoneStoreView, call: StoreCall)
    requires
        s.valid(),
        s.ownership_consistent(),
        s.accepts(call),
    ensures
        s.apply(call).valid(),
        s.apply(call).ownership_consistent(),
        s.apply(call).token_counter >= s.token_counter,
{
    match call {
        StoreCall::SetStep { creator, step } => {
            if step > 0 {
                lemma_step_read_after_write(s, creator, step, creator);
            }
        },
        StoreCall::Tip { sender, creator, amount, base, now } => {
            if amount > 0 {
                lemma_tip_keeps_ownership_consistent(s, sender, creator, amount as int, base, now);
                lemma_levels_crossed_nonnegative(s, creator, amount as int);
                let t = s.apply(call);
                assert forall|c: Seq<u8>| #[trigger] t.tip_totals.contains_key(c) implies t.tip_totals[c] >= 0 by {
                    if c != creator {
                        assert(s.tip_totals.contains_key(c));
                    }
                }
            }
        },
        StoreCall::Transfer { from, to, token_id } => {
            if s.transfer_error(from, token_id) is None {
                lemma_transfer_keeps_ownership_consistent(s, from, to, token_id);
            }
        },
    }
}

/// In every store reached by calls that return, from a valid store with a
/// consistent ownership index, the values stay valid, the ownership index
/// stays consistent (each owner's list holds, once each, exactly the tokens
/// recorded with that owner), and the token counter has not gone down.
pub proof fn lemma_reachable_invariants(s: MilestoneStoreView, calls: Seq<StoreCall>)
    requires
        s.valid(),
        s.ownership_consistent(),
        all_return(s, calls),
    ensures
        run(s, calls).valid(),
        run(s, calls).ownership_consistent(),
        run(s, calls).token_counter >= s.token_counter,
    decreases calls.len(),
{
    if calls.len() > 0 {
        lemma_all_return_prefix(s, calls);
        lemma_reachable_invariants(s, calls.drop_last());
        lemma_call_keeps_invariants(run(s, calls.drop_last()), calls.last());
    }
}

/// Every store reached from the empty store by calls that return is valid
/// and has a consistent ownership index.
pub proof fn lemma_reachable_from_empty(calls: Seq<StoreCall>)
    requires
        all_return(empty_store(), calls),
    ensures
        run(empty_store(), calls).valid(),
        run(empty_store(), calls).ownership_consistent(),
{
    let e = empty_store();
    assert forall|a: Seq<u8>| #[trigger] e.tokens_of(a).no_duplicates() by {
        assert(e.tokens_of(a) =~= Seq::<u64>::empty());
    }
    lemma_reachable_invariants(e, calls);
}

/// A creator's running total is its total before the calls plus the amounts
/// of the tips to it that were accepted; from the empty store, the sum of
/// those amounts.
pub proof fn lemma_total_is_sum_of_tips(s: MilestoneStoreView, calls: Seq<StoreCall>, creator: Seq<u8>)
    requires
        all_return(s, calls),
    ensures
        run(s, calls).tip_total(creator) == s.tip_total(creator) + tips_to(calls, creator),
        s == empty_store() ==> run(s, calls).tip_total(creator) == tips_to(calls, creator),
    decreases calls.len(),
{
    if calls.len() > 0 {
        lemma_all_return_prefix(s, calls);
        lemma_total_is_sum_of_tips(s, calls.drop_last(), creator);
    }
}

/// A creator's milestone step is the last one set for it by an accepted
/// call, or the one it had before the calls; every other call leaves it.
pub proof fn lemma_step_after_calls(s: MilestoneStoreView, calls: Seq<StoreCall>, creator: Seq<u8>)
    ensures
        run(s, calls).milestone_step(creator) == step_after(calls, creator, s.milestone_step(creator)),
    decreases calls.len(),
{
    if calls.len() > 0 {
        lemma_step_after_calls(s, calls.drop_last(), creator);
    }
}

/// A call that returns, and does not change `creator`'s step once tips to
/// it are recorded, keeps its milestone levels exact and its current level
/// within the token counter.
pub proof fn lemma_call_keeps_levels(s: MilestoneStoreView, call: StoreCall, creator: Seq<u8>)
    requires
        s.valid(),
        s.ownership_consistent(),
        s.accepts(call),
        keeps_step_of(s, call, creator),
        s.levels_exact(creator),
        s.level_at(creator, s.tip_total(creator)) <= s.token_counter,
    ensures
        s.apply(call).levels_exact(creator),
        s.apply(call).level_at(creator, s.apply(call).tip_total(creator)) <= s.apply(call).token_counter,
{
    let t = s.apply(call);
    let top = s.level_at(creator, s.tip_total(creator));
    match call {
        StoreCall::SetStep { creator: c, step } => {
            if step > 0 {
                if c == creator && s.tip_total(creator) == 0 {
                    lemma_div_of0(s.milestone_step(creator));
                    lemma_div_of0(step as int);
                }
                assert(t.tokens == s.tokens);
                assert(t.level_at(creator, t.tip_total(creator)) == top);
                assert forall|l: int| 1 <= l <= top implies #[trigger] t.level_held(creator, l) by {
                    assert(s.level_held(creator, l));
                    let w = choose|id: u64| #[trigger] s.holds_level(creator, id, l);
                    assert(t.holds_level(creator, w, l));
                }
            }
        },
        StoreCall::Transfer { from, to, token_id } => {
            if s.transfer_error(from, token_id) is None {
                assert(t.tip_total(creator) == s.tip_total(creator));
                assert(t.milestone_step(creator) == s.milestone_step(creator));
                assert forall|l: int| 1 <= l <= top implies #[trigger] t.level_held(creator, l) by {
                    assert(s.level_held(creator, l));
                    let w = choose|id: u64| #[trigger] s.holds_level(creator, id, l);
                    assert(t.holds_level(creator, w, l));
                }
            }
        },
        StoreCall::Tip { sender, creator: c, amount, base, now } => {
            if amount > 0 {
                lemma_levels_crossed_nonnegative(s, c, amount as int);
                let k = s.levels_crossed(c, amount as int);
                let cnt = s.token_counter as int;
                assert(t.token_counter == cnt + k);
                assert forall|id: u64| #[trigger] s.tokens.contains_key(id) implies t.tokens.contains_key(id)
                    && t.tokens[id] == s.tokens[id] by {
                    assert(id <= cnt);
                }
                if c != creator {
                    assert(t.tip_total(creator) == s.tip_total(creator));
                    assert(t.milestone_step(creator) == s.milestone_step(creator));
                    assert forall|id: u64| #[trigger] t.tokens.contains_key(id) && !s.tokens.contains_key(id)
                        implies t.tokens[id].creator == c by {
                    }
                    assert forall|l: int| 1 <= l <= top implies #[trigger] t.level_held(creator, l) by {
                        assert(s.level_held(creator, l));
                        let w = choose|id: u64| #[trigger] s.holds_level(creator, id, l);
                        assert(t.holds_level(creator, w, l));
                    }
                    assert forall|i: u64, j: u64|
                        i != j && t.tokens.contains_key(i) && t.tokens.contains_key(j)
                            && t.tokens[i].creator == creator && t.tokens[j].creator == creator
                        implies #[trigger] t.tokens[i].milestone_level != #[trigger] t.tokens[j].milestone_level by {
                        assert(s.tokens.contains_key(i) && s.tokens.contains_key(j));
                    }
                } else {
                    let n = top + k;
                    assert(t.tip_total(creator) == s.tip_total(creator) + amount);
                    assert(t.milestone_step(creator) == s.milestone_step(creator));
                    assert(t.level_at(creator, t.tip_total(creator)) == n);
                    assert forall|id: u64| #[trigger] t.tokens.contains_key(id) && !s.tokens.contains_key(id)
                        implies cnt < id <= cnt + k && t.tokens[id].creator == creator
                        && t.tokens[id].milestone_level == top + (id - cnt) by {
                    }
                    assert forall|id: u64| #[trigger] t.tokens.contains_key(id) && t.tokens[id].creator == creator
                        implies 1 <= t.tokens[id].milestone_level <= n by {
                        if !s.tokens.contains_key(id) {
                            assert(t.tokens[id].milestone_level == top + (id - cnt));
                        }
                    }
                    assert forall|l: int| 1 <= l <= n implies #[trigger] t.level_held(creator, l) by {
                        if l <= top {
                            assert(s.level_held(creator, l));
                            let w = choose|id: u64| #[trigger] s.holds_level(creator, id, l);
                            assert(t.holds_level(creator, w, l));
                        } else {
                            let id = (cnt + (l - top)) as u64;
                            assert(!s.tokens.contains_key(id));
                            assert(t.tokens.contains_key(id));
                            assert(t.holds_level(creator, id, l));
                        }
                    }
                    assert forall|i: u64, j: u64|
                        i != j && t.tokens.contains_key(i) && t.tokens.contains_key(j)
                            && t.tokens[i].creator == creator && t.tokens[j].creator == creator
                        implies #[trigger] t.tokens[i].milestone_level != #[trigger] t.tokens[j].milestone_level by {
                        if s.tokens.contains_key(i) && s.tokens.contains_key(j) {
                        } else if s.tokens.contains_key(i) {
                            assert(t.tokens[i].milestone_level <= top);
                        } else if s.tokens.contains_key(j) {
                            assert(t.tokens[j].milestone_level <= top);
                        }
                    }
                }
            }
        },
    }
}

/// With `creator`'s step never changed once tips to it are recorded, the
/// milestone NFTs of `creator` in any store reached from the empty store
/// carry the levels 1 to the creator's current level (its total divided by
/// its step), each on exactly one token: no level is skipped and none is
/// minted twice.
pub proof fn lemma_levels_minted_exactly_once(calls: Seq<StoreCall>, creator: Seq<u8>)
    requires
        all_return(empty_store(), calls),
        keeps_step(empty_store(), calls, creator),
    ensures
        run(empty_store(), calls).levels_exact(creator),
    decreases calls.len(),
{
    lemma_levels_invariant(calls, creator);
}

proof fn lemma_levels_invariant(calls: Seq<StoreCall>, creator: Seq<u8>)
    requires
        all_return(empty_store(), calls),
        keeps_step(empty_store(), calls, creator),
    ensures
        run(empty_store(), calls).levels_exact(creator),
        run(empty_store(), calls).level_at(creator, run(empty_store(), calls).tip_total(creator))
            <= run(empty_store(), calls).token_counter,
    decreases calls.len(),
{
    let e = empty_store();
    if calls.len() == 0 {
        lemma_div_of0(e.milestone_step(creator));
    } else {
        let p = calls.drop_last();
        lemma_all_return_prefix(e, calls);
        lemma_keeps_step_prefix(e, calls, creator);
        lemma_levels_invariant(p, creator);
        lemma_reachable_from_empty(p);
        lemma_call_keeps_levels(run(e, p), calls.last(), creator);
    }
}

} // verus!
