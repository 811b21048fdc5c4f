use tipjar::nft::metadata::Metadata;
use tipjar::nft::minting::{
    get_milestone_step, get_nft, get_owner_tokens, record_tip_and_maybe_mint, set_milestone_step,
    tip_within_limits, transfer_nft, MilestoneStore, DEFAULT_MILESTONE_STEP,
};
use tipjar::table::Table;
use tipjar::{Address, Text, TipJarError};

fn address(strkey: &str) -> Address {
    Address::from_strkey(strkey.as_bytes().to_vec())
}

fn base_metadata() -> Metadata {
    let mut map = Table::new();
    map.insert(Text::from_str("name"), Text::from_str("Milestone Medal"));
    map
}

fn text_of(t: &Text) -> String {
    String::from_utf8(t.to_bytes()).unwrap()
}

fn metadata_value(m: &Metadata, key: &str) -> Option<String> {
    m.get(&Text::from_str(key)).map(text_of)
}

#[test]
fn mints_when_milestone_crossed() {
    let mut store = MilestoneStore::new();
    let sender = address("GSENDER");
    let creator = address("GCREATOR");

    set_milestone_step(&mut store, &creator, 100).unwrap();

    let ids_first = record_tip_and_maybe_mint(&mut store, &sender, &creator, 60, &base_metadata(), 0).unwrap();
    assert_eq!(ids_first.len(), 0);

    let ids_second = record_tip_and_maybe_mint(&mut store, &sender, &creator, 50, &base_metadata(), 0).unwrap();
    assert_eq!(ids_second.len(), 1);

    let token_id = ids_second[0];
    let nft = get_nft(&store, token_id).unwrap();
    assert_eq!(nft.milestone_level, 1);
}

#[test]
fn supports_metadata_and_transfer() {
    let mut store = MilestoneStore::new();
    let sender = address("GSENDER");
    let creator = address("GCREATOR");
    let recipient = address("GRECIPIENT");

    set_milestone_step(&mut store, &creator, 10).unwrap();

    let minted = record_tip_and_maybe_mint(&mut store, &sender, &creator, 10, &base_metadata(), 0).unwrap();
    let token_id = minted[0];

    let before = get_nft(&store, token_id).unwrap();
    assert_eq!(before.owner, sender);
    assert!(before.metadata.contains_key(&Text::from_str("milestone_level")));

    transfer_nft(&mut store, &sender, &recipient, token_id).unwrap();

    let after = get_nft(&store, token_id).unwrap();
    assert_eq!(after.owner, recipient);
    assert_eq!(get_owner_tokens(&store, &sender).len(), 0);
    assert_eq!(get_owner_tokens(&store, &recipient).len(), 1);
}

#[test]
fn token_ids_are_unique() {
    let mut store = MilestoneStore::new();
    let sender = address("GSENDER");
    let creator = address("GCREATOR");

    set_milestone_step(&mut store, &creator, 50).unwrap();

    let one = record_tip_and_maybe_mint(&mut store, &sender, &creator, 50, &base_metadata(), 0).unwrap();
    let two = record_tip_and_maybe_mint(&mut store, &sender, &creator, 50, &base_metadata(), 0).unwrap();

    assert_eq!(one[0], 1);
    assert_eq!(two[0], 2);
}

#[test]
fn default_step_is_one_thousand() {
    let store = MilestoneStore::new();
    let creator = address("GCREATOR");
    assert_eq!(get_milestone_step(&store, &creator), 1000);
    assert_eq!(DEFAULT_MILESTONE_STEP, 1000);
}

#[test]
fn configured_step_is_read_back_per_creator() {
    let mut store = MilestoneStore::new();
    let a = address("GAAA");
    let b = address("GBBB");
    set_milestone_step(&mut store, &a, 250).unwrap();
    assert_eq!(get_milestone_step(&store, &a), 250);
    assert_eq!(get_milestone_step(&store, &b), 1000);
    set_milestone_step(&mut store, &a, 7).unwrap();
    assert_eq!(get_milestone_step(&store, &a), 7);
}

#[test]
fn non_positive_step_is_refused() {
    let mut store = MilestoneStore::new();
    let creator = address("GCREATOR");
    set_milestone_step(&mut store, &creator, 40).unwrap();
    assert_eq!(set_milestone_step(&mut store, &creator, 0), Err(TipJarError::InvalidGoalAmount));
    assert_eq!(set_milestone_step(&mut store, &creator, -5), Err(TipJarError::InvalidGoalAmount));
    assert_eq!(get_milestone_step(&store, &creator), 40);
}

#[test]
fn non_positive_tip_is_refused() {
    let mut store = MilestoneStore::new();
    let sender = address("GSENDER");
    let creator = address("GCREATOR");
    set_milestone_step(&mut store, &creator, 10).unwrap();
    assert_eq!(
        record_tip_and_maybe_mint(&mut store, &sender, &creator, 0, &base_metadata(), 0),
        Err(TipJarError::InvalidAmount)
    );
    assert_eq!(
        record_tip_and_maybe_mint(&mut store, &sender, &creator, -20, &base_metadata(), 0),
        Err(TipJarError::InvalidAmount)
    );
    assert_eq!(store.tip_total_entry(&creator), None);
    assert_eq!(store.token_counter(), 0);
}

#[test]
fn one_tip_can_cross_several_levels() {
    let mut store = MilestoneStore::new();
    let sender = address("GSENDER");
    let creator = address("GCREATOR");
    set_milestone_step(&mut store, &creator, 100).unwrap();
    record_tip_and_maybe_mint(&mut store, &sender, &creator, 150, &base_metadata(), 7).unwrap();
    let ids = record_tip_and_maybe_mint(&mut store, &sender, &creator, 260, &base_metadata(), 9).unwrap();
    assert_eq!(ids, vec![2, 3, 4]);
    let levels: Vec<u64> = ids.iter().map(|id| get_nft(&store, *id).unwrap().milestone_level).collect();
    assert_eq!(levels, vec![2, 3, 4]);
    let last = get_nft(&store, 4).unwrap();
    assert_eq!(last.cumulative_tips, 410);
    assert_eq!(last.minted_at, 9);
    assert!(last.creator.equals(&creator));
    assert_eq!(store.tip_total_entry(&creator), Some(410));
    assert_eq!(get_owner_tokens(&store, &sender), vec![1, 2, 3, 4]);
    assert_eq!(store.token_counter(), 4);
}

#[test]
fn default_step_applies_without_configuration() {
    let mut store = MilestoneStore::new();
    let sender = address("GSENDER");
    let creator = address("GCREATOR");
    let ids = record_tip_and_maybe_mint(&mut store, &sender, &creator, 999, &base_metadata(), 0).unwrap();
    assert!(ids.is_empty());
    let ids = record_tip_and_maybe_mint(&mut store, &sender, &creator, 1, &base_metadata(), 0).unwrap();
    assert_eq!(ids, vec![1]);
}

#[test]
fn split_tips_mint_the_same_levels_as_one_tip() {
    let sender = address("GSENDER");
    let creator = address("GCREATOR");

    let mut split = MilestoneStore::new();
    set_milestone_step(&mut split, &creator, 30).unwrap();
    let a = record_tip_and_maybe_mint(&mut split, &sender, &creator, 45, &base_metadata(), 0).unwrap();
    let b = record_tip_and_maybe_mint(&mut split, &sender, &creator, 50, &base_metadata(), 0).unwrap();

    let mut whole = MilestoneStore::new();
    set_milestone_step(&mut whole, &creator, 30).unwrap();
    let c = record_tip_and_maybe_mint(&mut whole, &sender, &creator, 95, &base_metadata(), 0).unwrap();

    assert_eq!(a.len() + b.len(), c.len());
    let split_levels: Vec<u64> =
        a.iter().chain(b.iter()).map(|id| get_nft(&split, *id).unwrap().milestone_level).collect();
    let whole_levels: Vec<u64> = c.iter().map(|id| get_nft(&whole, *id).unwrap().milestone_level).collect();
    assert_eq!(split_levels, vec![1, 2, 3]);
    assert_eq!(split_levels, whole_levels);
}

#[test]
fn minted_metadata_has_standard_fields() {
    let mut store = MilestoneStore::new();
    let sender = address("GSENDER");
    let creator = address("GCREATOR");
    set_milestone_step(&mut store, &creator, 10).unwrap();
    let ids = record_tip_and_maybe_mint(&mut store, &sender, &creator, 25, &base_metadata(), 0).unwrap();
    let nft = get_nft(&store, ids[1]).unwrap();
    let m = &nft.metadata;
    assert_eq!(metadata_value(m, "standard").as_deref(), Some("tipjar-milestone-nft-v1"));
    assert_eq!(metadata_value(m, "creator").as_deref(), Some("GCREATOR"));
    assert_eq!(metadata_value(m, "milestone_level").as_deref(), Some("2"));
    assert_eq!(metadata_value(m, "cumulative_tips").as_deref(), Some("25"));
    assert_eq!(metadata_value(m, "name").as_deref(), Some("Milestone Medal"));
}

#[test]
fn transfer_of_missing_token_is_refused() {
    let mut store = MilestoneStore::new();
    let sender = address("GSENDER");
    let recipient = address("GRECIPIENT");
    assert_eq!(transfer_nft(&mut store, &sender, &recipient, 1), Err(TipJarError::NftNotFound));
}

#[test]
fn transfer_by_non_owner_is_refused() {
    let mut store = MilestoneStore::new();
    let sender = address("GSENDER");
    let creator = address("GCREATOR");
    let thief = address("GTHIEF");
    set_milestone_step(&mut store, &creator, 10).unwrap();
    record_tip_and_maybe_mint(&mut store, &sender, &creator, 10, &base_metadata(), 0).unwrap();
    assert_eq!(transfer_nft(&mut store, &thief, &thief, 1), Err(TipJarError::NotNftOwner));
    assert!(get_nft(&store, 1).unwrap().owner.equals(&sender));
    assert_eq!(get_owner_tokens(&store, &sender), vec![1]);
    assert!(get_owner_tokens(&store, &thief).is_empty());
}

#[test]
fn transfer_to_self_moves_token_to_the_end() {
    let mut store = MilestoneStore::new();
    let sender = address("GSENDER");
    let creator = address("GCREATOR");
    set_milestone_step(&mut store, &creator, 10).unwrap();
    record_tip_and_maybe_mint(&mut store, &sender, &creator, 30, &base_metadata(), 0).unwrap();
    assert_eq!(get_owner_tokens(&store, &sender), vec![1, 2, 3]);
    transfer_nft(&mut store, &sender, &sender, 1).unwrap();
    assert_eq!(get_owner_tokens(&store, &sender), vec![2, 3, 1]);
    assert!(get_nft(&store, 1).unwrap().owner.equals(&sender));
}

#[test]
fn transfer_keeps_record_and_moves_index() {
    let mut store = MilestoneStore::new();
    let sender = address("GSENDER");
    let creator = address("GCREATOR");
    let recipient = address("GRECIPIENT");
    set_milestone_step(&mut store, &creator, 10).unwrap();
    record_tip_and_maybe_mint(&mut store, &sender, &creator, 20, &base_metadata(), 3).unwrap();
    transfer_nft(&mut store, &sender, &recipient, 1).unwrap();
    let nft = get_nft(&store, 1).unwrap();
    assert_eq!(nft.token_id, 1);
    assert_eq!(nft.milestone_level, 1);
    assert_eq!(nft.cumulative_tips, 20);
    assert_eq!(nft.minted_at, 3);
    assert!(nft.creator.equals(&creator));
    assert_eq!(get_owner_tokens(&store, &sender), vec![2]);
    assert_eq!(get_owner_tokens(&store, &recipient), vec![1]);
    assert!(get_nft(&store, 2).unwrap().owner.equals(&sender));
    assert!(get_nft(&store, 3).is_none());
}

#[test]
fn limits_check_detects_overflow() {
    let mut store = MilestoneStore::new();
    let creator = address("GCREATOR");
    assert!(tip_within_limits(&store, &creator, 5));
    assert!(tip_within_limits(&store, &creator, -5));
    store.restore_tip_total(&creator, i128::MAX - 3);
    assert!(!tip_within_limits(&store, &creator, 4));
    assert!(tip_within_limits(&store, &creator, 3));
    let other = address("GOTHER");
    store.restore_milestone_step(&other, 1);
    store.restore_tip_total(&other, i128::MAX - 1);
    assert!(!tip_within_limits(&store, &other, 1));
    store.restore_token_counter(u64::MAX - 1);
    let third = address("GTHIRD");
    store.restore_milestone_step(&third, 1);
    assert!(tip_within_limits(&store, &third, 1));
    assert!(!tip_within_limits(&store, &third, 2));
}

#[test]
fn ownership_index_agrees_with_records() {
    let mut store = MilestoneStore::new();
    let people = [address("GA"), address("GB"), address("GC")];
    let creator = address("GCREATOR");
    set_milestone_step(&mut store, &creator, 10).unwrap();
    record_tip_and_maybe_mint(&mut store, &people[0], &creator, 35, &base_metadata(), 0).unwrap();
    record_tip_and_maybe_mint(&mut store, &people[1], &creator, 20, &base_metadata(), 0).unwrap();
    transfer_nft(&mut store, &people[0], &people[2], 2).unwrap();
    transfer_nft(&mut store, &people[1], &people[0], 5).unwrap();
    transfer_nft(&mut store, &people[2], &people[2], 2).unwrap();
    assert_eq!(store.token_counter(), 5);
    for id in 1..=store.token_counter() {
        let nft = get_nft(&store, id).unwrap();
        assert_eq!(nft.token_id, id);
        let list = get_owner_tokens(&store, &nft.owner);
        assert_eq!(list.iter().filter(|x| **x == id).count(), 1);
    }
    for p in people.iter() {
        for id in get_owner_tokens(&store, p) {
            assert!(get_nft(&store, id).unwrap().owner.equals(p));
        }
    }
    assert_eq!(get_owner_tokens(&store, &people[0]), vec![1, 3, 5]);
    assert_eq!(get_owner_tokens(&store, &people[1]), vec![4]);
    assert_eq!(get_owner_tokens(&store, &people[2]), vec![2]);
}

#[test]
fn total_is_sum_of_accepted_tips_and_step_persists() {
    let mut store = MilestoneStore::new();
    let a = address("GA");
    let b = address("GB");
    let c = address("GCREATOR");
    let d = address("GOTHERCREATOR");
    set_milestone_step(&mut store, &c, 40).unwrap();
    record_tip_and_maybe_mint(&mut store, &a, &c, 15, &base_metadata(), 0).unwrap();
    record_tip_and_maybe_mint(&mut store, &b, &d, 500, &base_metadata(), 0).unwrap();
    let _ = record_tip_and_maybe_mint(&mut store, &a, &c, -3, &base_metadata(), 0);
    record_tip_and_maybe_mint(&mut store, &b, &c, 70, &base_metadata(), 0).unwrap();
    transfer_nft(&mut store, &b, &a, 2).unwrap();
    let _ = set_milestone_step(&mut store, &c, 0);
    set_milestone_step(&mut store, &d, 9).unwrap();
    assert_eq!(store.tip_total_entry(&c), Some(85));
    assert_eq!(store.tip_total_entry(&d), Some(500));
    assert_eq!(get_milestone_step(&store, &c), 40);
    assert_eq!(get_milestone_step(&store, &d), 9);
}

#[test]
fn each_level_of_a_creator_is_minted_once() {
    let mut store = MilestoneStore::new();
    let a = address("GA");
    let b = address("GB");
    let c = address("GCREATOR");
    let d = address("GOTHERCREATOR");
    set_milestone_step(&mut store, &c, 10).unwrap();
    set_milestone_step(&mut store, &d, 10).unwrap();
    for (sender, creator, amount) in [(&a, &c, 25), (&b, &d, 12), (&b, &c, 4), (&a, &c, 31), (&a, &d, 9)] {
        record_tip_and_maybe_mint(&mut store, sender, creator, amount, &base_metadata(), 0).unwrap();
    }
    let mut levels_c: Vec<u64> = Vec::new();
    let mut levels_d: Vec<u64> = Vec::new();
    for id in 1..=store.token_counter() {
        let nft = get_nft(&store, id).unwrap();
        if nft.creator.equals(&c) {
            levels_c.push(nft.milestone_level);
        } else {
            levels_d.push(nft.milestone_level);
        }
    }
    levels_c.sort();
    levels_d.sort();
    assert_eq!(levels_c, vec![1, 2, 3, 4, 5, 6]);
    assert_eq!(levels_d, vec![1, 2]);
}
