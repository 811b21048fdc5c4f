//! Milestone NFT minting and transfer logic.
//!
//! [`MilestoneStore`] holds the persistent entries the milestone module reads
//! and writes: per-creator running tip totals and milestone steps, the NFT
//! records by token ID, the token IDs owned by each address, and the token
//! counter. Each public function here is one operation of the module over
//! that store.

use vstd::prelude::*;
use vstd::arithmetic::div_mod::lemma_div_is_ordered;
use crate::address::Address;
use crate::table::{Table, TableValue};
use crate::types::TipJarError;
use super::{MilestoneNft, MilestoneNftView};
use super::metadata::{Metadata, build_metadata, milestone_metadata};
use super::laws::{lemma_mint_is_fresh, lemma_mint_keeps_ownership_consistent};

verus! {

/// Default milestone threshold used when a creator has not configured one.
pub const DEFAULT_MILESTONE_STEP: i128 = 1000;

/// The persistent entries of the milestone module.
pub struct MilestoneStore {
    tip_totals: Table<Address, i128>,
    milestone_steps: Table<Address, i128>,
    tokens: Table<u64, MilestoneNft>,
    owner_tokens: Table<Address, Vec<u64>>,
    token_counter: u64,
}

/// The value of a [`MilestoneStore`]; addresses are keyed by strkey.
pub struct MilestoneStoreView {
    /// Running tip total per creator.
    pub tip_totals: Map<Seq<u8>, i128>,
    /// Configured milestone step per creator.
    pub milestone_steps: Map<Seq<u8>, i128>,
    /// NFT records by token ID.
    pub tokens: Map<u64, MilestoneNftView>,
    /// Token IDs held by each owner, in the order they were received.
    pub owner_tokens: Map<Seq<u8>, Seq<u64>>,
    /// The last token ID assigned (0 before the first mint).
    pub token_counter: u64,
}

impl View for MilestoneStore {
    type V = MilestoneStoreView;

    closed spec fn view(&self) -> MilestoneStoreView {
        MilestoneStoreView {
            tip_totals: self.tip_totals@,
            milestone_steps: self.milestone_steps@,
            tokens: self.tokens@,
            owner_tokens: self.owner_tokens@,
            token_counter: self.token_counter,
        }
    }
}

/// A state-changing call of the milestone module, with its arguments by value.
pub enum StoreCall {
    /// `set_milestone_step(creator, step)`.
    SetStep { creator: Seq<u8>, step: i128 },
    /// `record_tip_and_maybe_mint(sender, creator, amount, base metadata, now)`.
    Tip { sender: Seq<u8>, creator: Seq<u8>, amount: i128, base: Map<Seq<u8>, Seq<u8>>, now: u64 },
    /// `transfer_nft(from, to, token_id)`.
    Transfer { from: Seq<u8>, to: Seq<u8>, token_id: u64 },
}

/// Keeps every token ID but `token_id`.
pub open spec fn other_than(token_id: u64) -> spec_fn(u64) -> bool {
    |t: u64| t != token_id
}

impl MilestoneStoreView {
    /// Configured steps are positive and running totals are not negative.
    pub open spec fn valid(self) -> bool {
        &&& forall|c: Seq<u8>| #[trigger]
            self.milestone_steps.contains_key(c) ==> self.milestone_steps[c] > 0
        &&& forall|c: Seq<u8>| #[trigger] self.tip_totals.contains_key(c) ==> self.tip_totals[c] >= 0
    }

    /// Running tip total of `creator` (0 when none was recorded).
    pub open spec fn tip_total(self, creator: Seq<u8>) -> int {
        if self.tip_totals.contains_key(creator) {
            self.tip_totals[creator] as int
        } else {
            0
        }
    }

    /// Milestone step of `creator`, falling back to the default.
    pub open spec fn milestone_step(self, creator: Seq<u8>) -> int {
        if self.milestone_steps.contains_key(creator) {
            self.milestone_steps[creator] as int
        } else {
            DEFAULT_MILESTONE_STEP as int
        }
    }

    /// Token IDs held by `owner` (empty when none was recorded).
    pub open spec fn tokens_of(self, owner: Seq<u8>) -> Seq<u64> {
        if self.owner_tokens.contains_key(owner) {
            self.owner_tokens[owner]
        } else {
            Seq::empty()
        }
    }

    /// Milestone level of `creator` at a given running total.
    pub open spec fn level_at(self, creator: Seq<u8>, total: int) -> int {
        total / self.milestone_step(creator)
    }

    /// How many milestone levels a tip of `amount` to `creator` crosses.
    pub open spec fn levels_crossed(self, creator: Seq<u8>, amount: int) -> int {
        self.level_at(creator, self.tip_total(creator) + amount) - self.level_at(
            creator,
            self.tip_total(creator),
        )
    }

    /// The next `count` token IDs, in ascending order.
    pub open spec fn next_ids(self, count: int) -> Seq<u64> {
        Seq::new(count as nat, |i: int| (self.token_counter + 1 + i) as u64)
    }

    /// The `i`-th (0-based) NFT minted by a tip of `amount` from `sender` to `creator`.
    pub open spec fn minted_nft(
        self,
        sender: Seq<u8>,
        creator: Seq<u8>,
        amount: int,
        base: Map<Seq<u8>, Seq<u8>>,
        now: u64,
        i: int,
    ) -> MilestoneNftView {
        let new_total = self.tip_total(creator) + amount;
        let level = (self.level_at(creator, self.tip_total(creator)) + 1 + i) as u64;
        MilestoneNftView {
            token_id: (self.token_counter + 1 + i) as u64,
            owner: sender,
            creator: creator,
            milestone_level: level,
            cumulative_tips: new_total as i128,
            metadata: milestone_metadata(base, creator, level, new_total as i128),
            minted_at: now,
        }
    }

    /// The store after a tip is added to `creator`'s total and the first
    /// `count` of its milestone NFTs are minted to `sender`.
    pub open spec fn after_mints(
        self,
        sender: Seq<u8>,
        creator: Seq<u8>,
        amount: int,
        base: Map<Seq<u8>, Seq<u8>>,
        now: u64,
        count: int,
    ) -> MilestoneStoreView {
        let first = self.token_counter as int;
        MilestoneStoreView {
            tip_totals: self.tip_totals.insert(creator, (self.tip_total(creator) + amount) as i128),
            milestone_steps: self.milestone_steps,
            tokens: Map::new(
                |id: u64| self.tokens.contains_key(id) || (first < id && id <= first + count),
                |id: u64|
                    if first < id && id <= first + count {
                        self.minted_nft(sender, creator, amount, base, now, id - first - 1)
                    } else {
                        self.tokens[id]
                    },
            ),
            owner_tokens: if count > 0 {
                self.owner_tokens.insert(sender, self.tokens_of(sender) + self.next_ids(count))
            } else {
                self.owner_tokens
            },
            token_counter: (first + count) as u64,
        }
    }

    /// The store after a tip of `amount` from `sender` to `creator`: the
    /// creator's total grows by `amount`, and one NFT is minted to the sender
    /// for each milestone level crossed, in ascending level order.
    pub open spec fn after_tip(
        self,
        sender: Seq<u8>,
        creator: Seq<u8>,
        amount: int,
        base: Map<Seq<u8>, Seq<u8>>,
        now: u64,
    ) -> MilestoneStoreView {
        self.after_mints(sender, creator, amount, base, now, self.levels_crossed(creator, amount))
    }

    /// A positive tip stays within the integer ranges of the store: the new
    /// total fits an `i128`, the new token IDs fit a `u64`, and the last level
    /// crossed is below `i128::MAX`.
    pub open spec fn tip_within_limits(self, creator: Seq<u8>, amount: int) -> bool {
        amount > 0 ==> {
            &&& self.tip_total(creator) + amount <= i128::MAX
            &&& self.token_counter + self.levels_crossed(creator, amount) <= u64::MAX
            &&& self.levels_crossed(creator, amount) > 0 ==> self.level_at(
                creator,
                self.tip_total(creator) + amount,
            ) < i128::MAX
        }
    }

    /// The store with `nft` recorded under its token ID, appended to its
    /// owner's tokens, and the counter at its token ID.
    pub open spec fn with_minted(self, nft: MilestoneNftView) -> MilestoneStoreView {
        MilestoneStoreView {
            tokens: self.tokens.insert(nft.token_id, nft),
            owner_tokens: self.owner_tokens.insert(nft.owner, self.tokens_of(nft.owner).push(nft.token_id)),
            token_counter: nft.token_id,
            ..self
        }
    }

    /// The store with every occurrence of `token_id` dropped from `owner`'s tokens.
    pub open spec fn without_owner_token(self, owner: Seq<u8>, token_id: u64) -> MilestoneStoreView {
        MilestoneStoreView {
            owner_tokens: self.owner_tokens.insert(owner, self.tokens_of(owner).filter(other_than(token_id))),
            ..self
        }
    }

    /// The store after `call` returns: a refused call leaves it as it was.
    pub open spec fn apply(self, call: StoreCall) -> MilestoneStoreView {
        match call {
            StoreCall::SetStep { creator, step } => if step > 0 {
                self.with_step(creator, step)
            } else {
                self
            },
            StoreCall::Tip { sender, creator, amount, base, now } => if amount > 0 {
                self.after_tip(sender, creator, amount as int, base, now)
            } else {
                self
            },
            StoreCall::Transfer { from, to, token_id } => if self.transfer_error(from, token_id) is None {
                self.after_transfer(from, to, token_id)
            } else {
                self
            },
        }
    }

    /// `call` returns on this store (a tip beyond the store's integer
    /// ranges overflows instead).
    pub open spec fn accepts(self, call: StoreCall) -> bool {
        match call {
            StoreCall::Tip { creator, amount, .. } => self.tip_within_limits(creator, amount as int),
            _ => true,
        }
    }

    /// The store with `creator`'s milestone step set.
    pub open spec fn with_step(self, creator: Seq<u8>, step: i128) -> MilestoneStoreView {
        MilestoneStoreView { milestone_steps: self.milestone_steps.insert(creator, step), ..self }
    }

    /// Why a transfer of `token_id` by `from` is refused, if it is.
    pub open spec fn transfer_error(self, from: Seq<u8>, token_id: u64) -> Option<TipJarError> {
        if !self.tokens.contains_key(token_id) {
            Some(TipJarError::NftNotFound)
        } else if self.tokens[token_id].owner != from {
            Some(TipJarError::NotNftOwner)
        } else {
            None
        }
    }

    /// The store after `token_id` moves from `from` to `to`: the record names
    /// the new owner, the token leaves `from`'s list and is appended to `to`'s.
    pub open spec fn after_transfer(self, from: Seq<u8>, to: Seq<u8>, token_id: u64) -> MilestoneStoreView {
        let nft = self.tokens[token_id];
        let remaining = self.owner_tokens.insert(from, self.tokens_of(from).filter(other_than(token_id)));
        let received = if remaining.contains_key(to) {
            remaining[to]
        } else {
            Seq::empty()
        };
        MilestoneStoreView {
            tokens: self.tokens.insert(token_id, MilestoneNftView { owner: to, ..nft }),
            owner_tokens: remaining.insert(to, received.push(token_id)),
            ..self
        }
    }
}

impl MilestoneStore {
    /// The tables are well formed and the store's values are valid.
    pub closed spec fn wf(&self) -> bool {
        &&& self.tip_totals.wf()
        &&& self.milestone_steps.wf()
        &&& self.tokens.wf()
        &&& self.owner_tokens.wf()
        &&& self@.valid()
    }

    /// A well-formed store holds valid values.
    pub proof fn lemma_wf_valid(&self)
        requires
            self.wf(),
        ensures
            self@.valid(),
    {
    }

    /// The empty store.
    pub fn new() -> (s: MilestoneStore)
        ensures
            s.wf(),
            s@.tip_totals == Map::<Seq<u8>, i128>::empty(),
            s@.milestone_steps == Map::<Seq<u8>, i128>::empty(),
            s@.tokens == Map::<u64, MilestoneNftView>::empty(),
            s@.owner_tokens == Map::<Seq<u8>, Seq<u64>>::empty(),
            s@.token_counter == 0,
    {
        MilestoneStore {
            tip_totals: Table::new(),
            milestone_steps: Table::new(),
            tokens: Table::new(),
            owner_tokens: Table::new(),
            token_counter: 0,
        }
    }
}

/// Configures a creator-specific milestone threshold; a threshold that is not
/// positive is refused with `InvalidGoalAmount` and nothing changes.
pub fn set_milestone_step(store: &mut MilestoneStore, creator: &Address, milestone_step: i128) -> (r: Result<(), TipJarError>)
    requires
        old(store).wf(),
    ensures
        final(store).wf(),
        milestone_step <= 0 ==> r == Err::<(), TipJarError>(TipJarError::InvalidGoalAmount) && final(store)@ == old(store)@,
        milestone_step > 0 ==> r is Ok && final(store)@ == old(store)@.with_step(creator@, milestone_step),
        final(store)@ == old(store)@.apply(StoreCall::SetStep { creator: creator@, step: milestone_step }),
{
    if milestone_step <= 0 {
        return Err(TipJarError::InvalidGoalAmount);
    }
    store.milestone_steps.insert(creator.duplicate(), milestone_step);
    assert(final(store)@ =~= old(store)@.with_step(creator@, milestone_step));
    Ok(())
}

/// Reads the milestone threshold for a creator, falling back to the default.
pub fn get_milestone_step(store: &MilestoneStore, creator: &Address) -> (step: i128)
    requires
        store.wf(),
    ensures
        step == store@.milestone_step(creator@),
        step > 0,
{
    match store.milestone_steps.get(creator) {
        Some(step) => {
            assert(store@.milestone_steps.contains_key(creator@));
            *step
        },
        None => DEFAULT_MILESTONE_STEP,
    }
}

/// Reads a creator's running tip total (0 when none was recorded).
fn get_creator_total(store: &MilestoneStore, creator: &Address) -> (total: i128)
    requires
        store.wf(),
    ensures
        total == store@.tip_total(creator@),
        total >= 0,
{
    match store.tip_totals.get(creator) {
        Some(total) => {
            assert(store@.tip_totals.contains_key(creator@));
            *total
        },
        None => 0,
    }
}

/// Returns all token IDs owned by an address.
pub fn get_owner_tokens(store: &MilestoneStore, owner: &Address) -> (ids: Vec<u64>)
    requires
        store.wf(),
    ensures
        ids@ == store@.tokens_of(owner@),
{
    match store.owner_tokens.get(owner) {
        Some(ids) => {
            assert(store@.owner_tokens.contains_key(owner@));
            ids.copy_value()
        },
        None => Vec::new(),
    }
}

/// Returns NFT token data if present.
pub fn get_nft(store: &MilestoneStore, token_id: u64) -> (nft: Option<MilestoneNft>)
    requires
        store.wf(),
    ensures
        match nft {
            Some(n) => store@.tokens.contains_key(token_id) && n@ == store@.tokens[token_id]
                && n.metadata.wf(),
            None => !store@.tokens.contains_key(token_id),
        },
{
    match store.tokens.get(&token_id) {
        Some(n) => Some(n.duplicate()),
        None => None,
    }
}

/// Claims the next token ID and advances the counter.
fn next_token_id(store: &mut MilestoneStore) -> (id: u64)
    requires
        old(store).wf(),
        old(store)@.token_counter < u64::MAX,
    ensures
        final(store).wf(),
        id == old(store)@.token_counter + 1,
        final(store)@ == (MilestoneStoreView { token_counter: id, ..old(store)@ }),
{
    let next = store.token_counter + 1;
    store.token_counter = next;
    next
}

/// Appends `token_id` to the tokens held by `owner`.
fn add_owner_token(store: &mut MilestoneStore, owner: &Address, token_id: u64)
    requires
        old(store).wf(),
    ensures
        final(store).wf(),
        final(store)@ == (MilestoneStoreView {
            owner_tokens: old(store)@.owner_tokens.insert(owner@, old(store)@.tokens_of(owner@).push(token_id)),
            ..old(store)@
        }),
{
    let mut owned = get_owner_tokens(store, owner);
    owned.push(token_id);
    store.owner_tokens.insert(owner.duplicate(), owned);
}

/// Drops every occurrence of `token_id` from the tokens held by `owner`.
fn remove_owner_token(store: &mut MilestoneStore, owner: &Address, token_id: u64)
    requires
        old(store).wf(),
    ensures
        final(store).wf(),
        final(store)@ == old(store)@.without_owner_token(owner@, token_id),
{
    let owned = get_owner_tokens(store, owner);
    let mut updated: Vec<u64> = Vec::new();
    let mut i: usize = 0;
    while i < owned.len()
        invariant
            i <= owned@.len(),
            updated@ == owned@.take(i as int).filter(other_than(token_id)),
        decreases owned@.len() - i,
    {
        let existing = owned[i];
        proof {
            owned@.take(i as int).lemma_filter_push(existing, other_than(token_id));
            assert(owned@.take(i as int).push(existing) =~= owned@.take(i + 1));
        }
        if existing != token_id {
            updated.push(existing);
        }
        i = i + 1;
    }
    assert(owned@.take(owned@.len() as int) =~= owned@);
    let ghost s0 = store@;
    store.owner_tokens.insert(owner.duplicate(), updated);
    assert(store@.tip_totals == s0.tip_totals && store@.milestone_steps == s0.milestone_steps);
}

/// Mints one milestone NFT to `owner` under the next token ID.
fn mint_single(
    store: &mut MilestoneStore,
    owner: &Address,
    creator: &Address,
    milestone_level: u64,
    cumulative_tips: i128,
    base_metadata: &Metadata,
    now: u64,
) -> (token_id: u64)
    requires
        old(store).wf(),
        old(store)@.token_counter < u64::MAX,
        base_metadata.wf(),
    ensures
        final(store).wf(),
        token_id == old(store)@.token_counter + 1,
        final(store)@ == old(store)@.with_minted(MilestoneNftView {
            token_id: token_id,
            owner: owner@,
            creator: creator@,
            milestone_level: milestone_level,
            cumulative_tips: cumulative_tips,
            metadata: milestone_metadata(base_metadata@, creator@, milestone_level, cumulative_tips),
            minted_at: now,
        }),
        old(store)@.ownership_consistent() ==> !old(store)@.tokens.contains_key(token_id)
            && final(store)@.ownership_consistent(),
{
    let ghost s0 = store@;
    let token_id = next_token_id(store);
    let metadata = build_metadata(creator, milestone_level, cumulative_tips, base_metadata);
    let nft = MilestoneNft {
        token_id,
        owner: owner.duplicate(),
        creator: creator.duplicate(),
        milestone_level,
        cumulative_tips,
        metadata,
        minted_at: now,
    };
    store.tokens.insert(token_id, nft);
    add_owner_token(store, owner, token_id);
    proof {
        if s0.ownership_consistent() {
            let nft = MilestoneNftView {
                token_id: token_id,
                owner: owner@,
                creator: creator@,
                milestone_level: milestone_level,
                cumulative_tips: cumulative_tips,
                metadata: milestone_metadata(base_metadata@, creator@, milestone_level, cumulative_tips),
                minted_at: now,
            };
            lemma_mint_is_fresh(s0, nft);
            lemma_mint_keeps_ownership_consistent(s0, nft);
        }
    }
    token_id
}

/// Reads an NFT record, refusing with `NftNotFound` when there is none.
fn require_nft(store: &MilestoneStore, token_id: u64) -> (r: Result<MilestoneNft, TipJarError>)
    requires
        store.wf(),
    ensures
        match r {
            Ok(n) => store@.tokens.contains_key(token_id) && n@ == store@.tokens[token_id]
                && n.metadata.wf(),
            Err(e) => !store@.tokens.contains_key(token_id) && e == TipJarError::NftNotFound,
        },
{
    match get_nft(store, token_id) {
        Some(n) => Ok(n),
        None => Err(TipJarError::NftNotFound),
    }
}

/// Transfers ownership of an NFT token from its owner `from` to `to`.
pub fn transfer_nft(store: &mut MilestoneStore, from: &Address, to: &Address, token_id: u64) -> (r: Result<(), TipJarError>)
    requires
        old(store).wf(),
    ensures
        final(store).wf(),
        match old(store)@.transfer_error(from@, token_id) {
            Some(e) => r == Err::<(), TipJarError>(e) && final(store)@ == old(store)@,
            None => r is Ok && final(store)@ == old(store)@.after_transfer(from@, to@, token_id),
        },
        final(store)@ == old(store)@.apply(StoreCall::Transfer { from: from@, to: to@, token_id }),
{
    let ghost s0 = store@;
    let mut nft = match require_nft(store, token_id) {
        Ok(n) => n,
        Err(e) => return Err(e),
    };
    if !nft.owner.equals(from) {
        return Err(TipJarError::NotNftOwner);
    }
    nft.owner = to.duplicate();
    store.tokens.insert(token_id, nft);
    assert(store@.milestone_steps == s0.milestone_steps && store@.tip_totals == s0.tip_totals);
    remove_owner_token(store, from, token_id);
    add_owner_token(store, to, token_id);
    proof {
        let e = s0.after_transfer(from@, to@, token_id);
        assert(store@.tokens =~= e.tokens);
        assert(store@.owner_tokens =~= e.owner_tokens);
    }
    Ok(())
}

/// Minting `count + 1` NFTs is minting `count` and then the next one.
proof fn lemma_mint_next(
    s0: MilestoneStoreView,
    sender: Seq<u8>,
    creator: Seq<u8>,
    amount: int,
    base: Map<Seq<u8>, Seq<u8>>,
    now: u64,
    count: int,
)
    requires
        0 <= count,
        s0.token_counter + count + 1 <= u64::MAX,
    ensures
        s0.after_mints(sender, creator, amount, base, now, count).with_minted(
            s0.minted_nft(sender, creator, amount, base, now, count),
        ) == s0.after_mints(sender, creator, amount, base, now, count + 1),
{
    let pre = s0.after_mints(sender, creator, amount, base, now, count);
    let nft = s0.minted_nft(sender, creator, amount, base, now, count);
    let lhs = pre.with_minted(nft);
    let rhs = s0.after_mints(sender, creator, amount, base, now, count + 1);
    assert(lhs.tokens =~= rhs.tokens);
    if count == 0 {
        assert(s0.tokens_of(sender).push(nft.token_id) =~= s0.tokens_of(sender) + s0.next_ids(1));
    } else {
        assert(pre.tokens_of(sender) == s0.tokens_of(sender) + s0.next_ids(count));
        assert(pre.tokens_of(sender).push(nft.token_id) =~= s0.tokens_of(sender) + s0.next_ids(count + 1));
    }
    assert(lhs.owner_tokens =~= rhs.owner_tokens);
}

/// Records a tip and mints NFTs for all newly crossed milestone levels.
///
/// Returns the minted token IDs in ascending milestone order. A tip that is
/// not positive is refused with `InvalidAmount` and nothing changes.
pub fn record_tip_and_maybe_mint(
    store: &mut MilestoneStore,
    sender: &Address,
    creator: &Address,
    amount: i128,
    base_metadata: &Metadata,
    now: u64,
) -> (r: Result<Vec<u64>, TipJarError>)
    requires
        old(store).wf(),
        base_metadata.wf(),
        old(store)@.tip_within_limits(creator@, amount as int),
    ensures
        final(store).wf(),
        amount <= 0 ==> r == Err::<Vec<u64>, TipJarError>(TipJarError::InvalidAmount)
            && final(store)@ == old(store)@,
        amount > 0 ==> r is Ok
            && r->Ok_0@ == old(store)@.next_ids(old(store)@.levels_crossed(creator@, amount as int))
            && final(store)@ == old(store)@.after_tip(sender@, creator@, amount as int, base_metadata@, now),
        final(store)@ == old(store)@.apply(StoreCall::Tip {
            sender: sender@,
            creator: creator@,
            amount,
            base: base_metadata@,
            now,
        }),
{
    if amount <= 0 {
        return Err(TipJarError::InvalidAmount);
    }
    let ghost s0 = store@;
    let previous_total = get_creator_total(store, creator);
    let new_total = previous_total + amount;
    store.tip_totals.insert(creator.duplicate(), new_total);
    let step = get_milestone_step(store, creator);
    let prev_level = previous_total / step;
    let new_level = new_total / step;
    let mut minted_ids: Vec<u64> = Vec::new();
    proof {
        assert(prev_level == s0.level_at(creator@, s0.tip_total(creator@)));
        assert(new_level == s0.level_at(creator@, s0.tip_total(creator@) + amount));
        lemma_div_is_ordered(previous_total as int, new_total as int, step as int);
        let e = s0.after_mints(sender@, creator@, amount as int, base_metadata@, now, 0);
        assert(store@.tokens =~= e.tokens);
        assert(store@ == e);
        assert(minted_ids@ =~= s0.next_ids(0));
    }
    if new_level <= prev_level {
        return Ok(minted_ids);
    }
    let mut level = prev_level + 1;
    while level <= new_level
        invariant
            store.wf(),
            base_metadata.wf(),
            prev_level == s0.level_at(creator@, s0.tip_total(creator@)),
            new_level == s0.level_at(creator@, s0.tip_total(creator@) + amount),
            new_total == s0.tip_total(creator@) + amount,
            prev_level < level <= new_level + 1,
            new_level < i128::MAX,
            s0.token_counter + (new_level - prev_level) <= u64::MAX,
            store@ == s0.after_mints(sender@, creator@, amount as int, base_metadata@, now, level - prev_level - 1),
            minted_ids@ == s0.next_ids(level - prev_level - 1),
        decreases new_level + 1 - level,
    {
        let ghost j = level - prev_level - 1;
        let token_id = mint_single(store, sender, creator, #[verifier::truncate] (level as u64), new_total, base_metadata, now);
        minted_ids.push(token_id);
        proof {
            lemma_mint_next(s0, sender@, creator@, amount as int, base_metadata@, now, j);
            assert(minted_ids@ =~= s0.next_ids(j + 1));
        }
        level = level + 1;
    }
    Ok(minted_ids)
}

/// Whether a tip of `amount` to `creator` stays within the integer ranges
/// of the store (see [`MilestoneStoreView::tip_within_limits`]); a tip for
/// which this is false overflows in [`record_tip_and_maybe_mint`].
pub fn tip_within_limits(store: &MilestoneStore, creator: &Address, amount: i128) -> (ok: bool)
    requires
        store.wf(),
    ensures
        ok == store@.tip_within_limits(creator@, amount as int),
{
    if amount <= 0 {
        return true;
    }
    let previous_total = get_creator_total(store, creator);
    let new_total = match previous_total.checked_add(amount) {
        Some(t) => t,
        None => return false,
    };
    let step = get_milestone_step(store, creator);
    let prev_level = previous_total / step;
    let new_level = new_total / step;
    proof {
        lemma_div_is_ordered(previous_total as int, new_total as int, step as int);
    }
    let crossed = new_level - prev_level;
    let room: u64 = u64::MAX - store.token_counter;
    if crossed > room as i128 {
        return false;
    }
    if crossed > 0 && new_level == i128::MAX {
        return false;
    }
    true
}

impl MilestoneStore {
    /// The recorded tip total of `creator`, if any.
    pub fn tip_total_entry(&self, creator: &Address) -> (t: Option<i128>)
        requires
            self.wf(),
        ensures
            t == (if self@.tip_totals.contains_key(creator@) {
                Some(self@.tip_totals[creator@])
            } else {
                None::<i128>
            }),
    {
        match self.tip_totals.get(creator) {
            Some(t) => Some(*t),
            None => None,
        }
    }

    /// The configured milestone step of `creator`, if any.
    pub fn milestone_step_entry(&self, creator: &Address) -> (s: Option<i128>)
        requires
            self.wf(),
        ensures
            s == (if self@.milestone_steps.contains_key(creator@) {
                Some(self@.milestone_steps[creator@])
            } else {
                None::<i128>
            }),
    {
        match self.milestone_steps.get(creator) {
            Some(s) => Some(*s),
            None => None,
        }
    }

    /// The last token ID handed out.
    pub fn token_counter(&self) -> (c: u64)
        ensures
            c == self@.token_counter,
    {
        self.token_counter
    }

    /// Records `creator`'s running tip total.
    pub fn restore_tip_total(&mut self, creator: &Address, total: i128)
        requires
            old(self).wf(),
            total >= 0,
        ensures
            final(self).wf(),
            final(self)@ == (MilestoneStoreView {
                tip_totals: old(self)@.tip_totals.insert(creator@, total),
                ..old(self)@
            }),
    {
        let ghost s0 = self@;
        self.tip_totals.insert(creator.duplicate(), total);
        assert(self@.milestone_steps == s0.milestone_steps);
        assert forall|c: Seq<u8>| #[trigger] self@.tip_totals.contains_key(c) implies self@.tip_totals[c] >= 0 by {
            if c != creator@ {
                assert(s0.tip_totals.contains_key(c));
            }
        }
    }

    /// Records `creator`'s milestone step.
    pub fn restore_milestone_step(&mut self, creator: &Address, step: i128)
        requires
            old(self).wf(),
            step > 0,
        ensures
            final(self).wf(),
            final(self)@ == old(self)@.with_step(creator@, step),
    {
        self.milestone_steps.insert(creator.duplicate(), step);
        assert(self@ =~= old(self)@.with_step(creator@, step));
    }

    /// Records an NFT under `token_id`.
    pub fn restore_nft(&mut self, token_id: u64, nft: MilestoneNft)
        requires
            old(self).wf(),
            nft.metadata.wf(),
        ensures
            final(self).wf(),
            final(self)@ == (MilestoneStoreView {
                tokens: old(self)@.tokens.insert(token_id, nft@),
                ..old(self)@
            }),
    {
        let ghost s0 = self@;
        self.tokens.insert(token_id, nft);
        assert(self@.tip_totals == s0.tip_totals && self@.milestone_steps == s0.milestone_steps);
    }

    /// Records the tokens held by `owner`.
    pub fn restore_owner_tokens(&mut self, owner: &Address, ids: Vec<u64>)
        requires
            old(self).wf(),
        ensures
            final(self).wf(),
            final(self)@ == (MilestoneStoreView {
                owner_tokens: old(self)@.owner_tokens.insert(owner@, ids@),
                ..old(self)@
            }),
    {
        let ghost s0 = self@;
        self.owner_tokens.insert(owner.duplicate(), ids);
        assert(self@.tip_totals == s0.tip_totals && self@.milestone_steps == s0.milestone_steps);
    }

    /// Records the last token ID handed out.
    pub fn restore_token_counter(&mut self, counter: u64)
        requires
            old(self).wf(),
        ensures
            final(self).wf(),
            final(self)@ == (MilestoneStoreView { token_counter: counter, ..old(self)@ }),
    {
        self.token_counter = counter;
    }
}

} // verus!
