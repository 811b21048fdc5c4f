use tipjar::nft::metadata::{build_metadata, Metadata};
use tipjar::table::Table;
use tipjar::{Address, Text, TipJarContract, TipJarError};

fn address(strkey: &str) -> Address {
    Address::from_strkey(strkey.as_bytes().to_vec())
}

fn value(m: &Metadata, key: &str) -> Option<Vec<u8>> {
    m.get(&Text::from_str(key)).map(|t| t.to_bytes())
}

#[test]
fn init_only_once() {
    let mut c = TipJarContract::new();
    let admin = address("GADMIN");
    assert!(c.admin().is_none());
    assert_eq!(c.init(&admin), Ok(()));
    assert!(c.admin().unwrap().equals(&admin));
    assert_eq!(c.init(&address("GOTHER")), Err(TipJarError::AlreadyInitialized));
    assert!(c.admin().unwrap().equals(&admin));
}

#[test]
fn contract_entry_points_follow_milestones() {
    let mut c = TipJarContract::new();
    let sender = address("GSENDER");
    let creator = address("GCREATOR");
    let fan = address("GFAN");
    assert_eq!(c.configure_milestone_nft(&creator, 0), Err(TipJarError::InvalidGoalAmount));
    c.configure_milestone_nft(&creator, 100).unwrap();
    let ids = c.record_tip_for_milestone(&sender, &creator, 250, &Table::new(), 11).unwrap();
    assert_eq!(ids, vec![1, 2]);
    assert_eq!(c.get_owned_milestone_nfts(&sender), vec![1, 2]);
    assert_eq!(c.transfer_milestone_nft(&fan, &fan, 1), Err(TipJarError::NotNftOwner));
    assert_eq!(c.transfer_milestone_nft(&sender, &fan, 9), Err(TipJarError::NftNotFound));
    c.transfer_milestone_nft(&sender, &fan, 2).unwrap();
    assert_eq!(c.get_owned_milestone_nfts(&fan), vec![2]);
    assert_eq!(c.get_owned_milestone_nfts(&sender), vec![1]);
    assert!(c.get_milestone_nft(2).unwrap().owner.equals(&fan));
    assert!(c.get_milestone_nft(3).is_none());
    assert_eq!(c.record_tip_for_milestone(&sender, &creator, 0, &Table::new(), 0), Err(TipJarError::InvalidAmount));
}

#[test]
fn metadata_overrides_caller_fields() {
    let mut base: Metadata = Table::new();
    base.insert(Text::from_str("standard"), Text::from_str("custom"));
    base.insert(Text::from_str("color"), Text::from_str("gold"));
    let creator = address("CCREATOR");
    let m = build_metadata(&creator, 12, -3, &base);
    assert_eq!(value(&m, "standard"), Some(b"tipjar-milestone-nft-v1".to_vec()));
    assert_eq!(value(&m, "creator"), Some(b"CCREATOR".to_vec()));
    assert_eq!(value(&m, "milestone_level"), Some(b"12".to_vec()));
    assert_eq!(value(&m, "cumulative_tips"), Some(b"-3".to_vec()));
    assert_eq!(value(&m, "color"), Some(b"gold".to_vec()));
    assert_eq!(m.entry_count(), 5);
    assert_eq!(base.entry_count(), 2);
}

#[test]
fn error_codes_round_trip() {
    assert_eq!(TipJarError::AlreadyInitialized.code(), 1);
    assert_eq!(TipJarError::InvalidAmount.code(), 3);
    assert_eq!(TipJarError::InvalidGoalAmount.code(), 8);
    assert_eq!(TipJarError::NftNotFound.code(), 22);
    assert_eq!(TipJarError::NotNftOwner.code(), 23);
    for code in 1..=23u32 {
        assert_eq!(TipJarError::from_code(code).unwrap().code(), code);
    }
    assert_eq!(TipJarError::from_code(0), None);
    assert_eq!(TipJarError::from_code(24), None);
}

#[test]
fn metadata_entries_come_in_key_order() {
    let mut base: Metadata = Table::new();
    base.insert(Text::from_str("name"), Text::from_str("Milestone Medal"));
    base.insert(Text::from_str("artist"), Text::from_str("someone"));
    let m = build_metadata(&address("GCREATOR"), 3, 30, &base);
    let keys: Vec<Vec<u8>> = (0..m.entry_count()).map(|i| m.entry(i).0.to_bytes()).collect();
    let expected: Vec<Vec<u8>> = ["artist", "creator", "cumulative_tips", "milestone_level", "name", "standard"]
        .iter()
        .map(|k| k.as_bytes().to_vec())
        .collect();
    assert_eq!(keys, expected);
}

#[test]
fn tables_with_the_same_entries_are_equal() {
    let mut a: Metadata = Table::new();
    a.insert(Text::from_str("b"), Text::from_str("2"));
    a.insert(Text::from_str("ab"), Text::from_str("1"));
    a.insert(Text::from_str("a"), Text::from_str("0"));
    let mut b: Metadata = Table::new();
    b.insert(Text::from_str("a"), Text::from_str("0"));
    b.insert(Text::from_str("b"), Text::from_str("9"));
    b.insert(Text::from_str("ab"), Text::from_str("1"));
    assert_ne!(a, b);
    b.insert(Text::from_str("b"), Text::from_str("2"));
    assert_eq!(a, b);
    assert_eq!(a.entry(0).0.to_bytes(), b"a".to_vec());
    assert_eq!(a.entry(1).0.to_bytes(), b"ab".to_vec());
    assert_eq!(a.entry(2).0.to_bytes(), b"b".to_vec());
    assert_eq!(a.clone(), a);
}
