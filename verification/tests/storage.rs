use investment_tracker::commands::split_imported;
use investment_tracker::error::StorageError;
use investment_tracker::models::{AmountSign, Investment, InvestmentType};
use investment_tracker::error::{ChangeError, InvestmentError};
use investment_tracker::storage::{Change, Storage};
use std::path::PathBuf;

fn make_storage() -> Storage<f64> {
    Storage::new(PathBuf::from("investments.json"))
}

fn make_investment(name: &str, amount: f64, inv_type: InvestmentType) -> Investment<f64> {
    Investment::new(
        String::new(),
        inv_type,
        name.to_string(),
        None,
        amount,
        AmountSign::Positive,
        "2024-01-15".to_string(),
        Some(amount),
        None,
        None,
        None,
    )
    .unwrap()
}

#[test]
fn test_add_and_get_investment() {
    let mut storage = make_storage();
    let inv = make_investment("Apple", 1000.0, InvestmentType::Stock);
    let saved_id = storage.add_investment(inv).id.clone();
    assert!(!saved_id.is_empty(), "ID should have been assigned");

    let loaded = storage.get_investment(&saved_id).unwrap().unwrap();
    assert_eq!(loaded.name, "Apple");
}

#[test]
fn test_add_investment_assigns_uuid() {
    let mut storage = make_storage();
    let inv = make_investment("ACME", 500.0, InvestmentType::Stock);
    assert!(inv.id.is_empty());
    let saved = storage.add_investment(inv);
    assert_eq!(saved.id.len(), 36, "UUID should be 36 chars");
}

#[test]
fn test_get_investment_by_prefix() {
    let mut storage = make_storage();
    let saved_id = storage
        .add_investment(make_investment("MSFT", 2000.0, InvestmentType::Stock))
        .id
        .clone();
    let prefix = &saved_id[..8];
    let found = storage.get_investment(prefix).unwrap().unwrap();
    assert_eq!(found.id, saved_id);
}

#[test]
fn test_get_investment_not_found() {
    let storage = make_storage();
    let result = storage.get_investment("nonexistent-id").unwrap();
    assert!(result.is_none());
}

#[test]
fn test_resolve_id_ambiguous_prefix() {
    let mut storage = make_storage();
    // Use a fixed prefix so both IDs start with the same characters.
    let mut inv1 = make_investment("A", 100.0, InvestmentType::Stock);
    let mut inv2 = make_investment("B", 200.0, InvestmentType::Stock);
    inv1.id = "aaa00001-0000-0000-0000-000000000000".to_string();
    inv2.id = "aaa00002-0000-0000-0000-000000000000".to_string();
    storage.add_investment(inv1);
    storage.add_investment(inv2);

    let investments = storage.get_all_investments();
    let result = storage.resolve_id("aaa0000", investments);
    assert!(result.is_err(), "Ambiguous prefix should return an error");
    let msg = result.unwrap_err().message();
    assert!(msg.contains("Ambiguous"), "Error message should say 'Ambiguous'");
}

#[test]
fn storage_test_update_investment() {
    let mut storage = make_storage();
    let saved_id = storage
        .add_investment(make_investment("Tesla", 3000.0, InvestmentType::Stock))
        .id
        .clone();

    let mut updated = make_investment("Tesla", 3000.0, InvestmentType::Stock);
    updated.id = saved_id.clone();
    updated.amount = 3500.0;
    let old = storage.update_investment(updated).unwrap();
    assert_eq!(old.amount, 3000.0);

    let reloaded = storage.get_investment(&saved_id).unwrap().unwrap();
    assert_eq!(reloaded.amount, 3500.0);
}

#[test]
fn storage_test_delete_investment() {
    let mut storage = make_storage();
    let saved_id = storage
        .add_investment(make_investment("NVDA", 4000.0, InvestmentType::Stock))
        .id
        .clone();

    let deleted = storage.delete_investment(&saved_id).unwrap().unwrap();
    assert_eq!(deleted.name, "NVDA");

    let all = storage.get_all_investments();
    assert!(all.is_empty());
}

#[test]
fn test_delete_investment_not_found() {
    let mut storage = make_storage();
    let result = storage.delete_investment("no-such-id").unwrap();
    assert!(result.is_none());
}

#[test]
fn test_add_investments_bulk() {
    let mut storage = make_storage();
    let batch = vec![
        make_investment("A", 100.0, InvestmentType::Stock),
        make_investment("B", 200.0, InvestmentType::ETF),
        make_investment("C", 300.0, InvestmentType::Crypto),
    ];
    let saved = storage.add_investments(batch);
    assert_eq!(saved.len(), 3);
    assert!(saved.iter().all(|inv| !inv.id.is_empty()));

    let all = storage.get_all_investments();
    assert_eq!(all.len(), 3);
}

// ── Further cases ────────────────────────────────────────────────────────────

fn with_id(id: &str, name: &str) -> Investment<f64> {
    let mut inv = make_investment(name, 100.0, InvestmentType::Stock);
    inv.id = id.to_string();
    inv
}

#[test]
fn exact_id_wins_over_prefix() {
    let mut storage = make_storage();
    storage.add_investment(with_id("abc", "short"));
    storage.add_investment(with_id("abcdef", "long"));
    let investments = storage.get_all_investments();
    assert_eq!(storage.resolve_id("abc", investments).unwrap(), Some("abc".to_string()));
    assert_eq!(storage.resolve_id("abcd", investments).unwrap(), Some("abcdef".to_string()));
    assert_eq!(storage.resolve_id("x", investments).unwrap(), None);
    assert_eq!(storage.get_investment("abc").unwrap().unwrap().name, "short");
    match storage.resolve_id("ab", investments) {
        Err(StorageError::AmbiguousId { prefix, matches }) => {
            assert_eq!(prefix, "ab");
            assert_eq!(matches, 2);
        }
        other => panic!("unexpected {:?}", other),
    }
}

#[test]
fn ambiguous_message_text() {
    let e = StorageError::AmbiguousId { prefix: "aaa".to_string(), matches: 12 };
    assert_eq!(
        e.message(),
        "Ambiguous ID prefix 'aaa' matches 12 investments. Please provide more characters."
    );
}

#[test]
fn get_after_add_finds_the_added() {
    let mut storage = make_storage();
    storage.add_investment(with_id("one", "first"));
    let id = storage.add_investment(make_investment("second", 5.0, InvestmentType::Bond)).id.clone();
    assert_eq!(storage.get_investment(&id).unwrap().unwrap().name, "second");
    assert_eq!(storage.get_all_investments().len(), 2);
    assert_eq!(storage.get_all_investments()[0].name, "first");
}

#[test]
fn delete_then_get_finds_nothing() {
    let mut storage = make_storage();
    storage.add_investment(with_id("k1", "a"));
    storage.add_investment(with_id("k2", "b"));
    storage.delete_investment("k1").unwrap();
    assert!(storage.get_investment("k1").unwrap().is_none());
    assert_eq!(storage.get_all_investments().len(), 1);
    assert_eq!(storage.get_all_investments()[0].id, "k2");
}

#[test]
fn update_matches_the_exact_id_and_reports_missing() {
    let mut storage = make_storage();
    storage.add_investment(with_id("ab12", "x"));
    storage.add_investment(with_id("ab", "y"));
    let replaced = storage.update_investment(with_id("ab", "after")).unwrap();
    assert_eq!(replaced.name, "y");
    assert_eq!(storage.get_all_investments()[0].name, "x");
    assert_eq!(storage.get_all_investments()[1].name, "after");
    assert!(storage.update_investment(with_id("a", "prefix only")).is_none());
    assert!(storage.update_investment(with_id("nope", "x")).is_none());
    assert_eq!(storage.get_all_investments().len(), 2);
    assert_eq!(storage.get_all_investments()[0].name, "x");
}

#[test]
fn locate_and_replace() {
    let mut storage = make_storage();
    storage.add_investment(with_id("p-1", "a"));
    storage.add_investment(with_id("q-2", "b"));
    let idx = storage.locate_investment("q").unwrap().unwrap();
    assert_eq!(idx, 1);
    let old = storage.replace_investment(idx, with_id("q-2", "c"));
    assert_eq!(old.name, "b");
    assert_eq!(storage.get_investment("q-2").unwrap().unwrap().name, "c");
    assert_eq!(storage.locate_investment("r").unwrap(), None);
}

#[test]
fn import_skips_existing_ids() {
    let existing = vec![with_id("a", "A"), with_id("b", "B")];
    let imported = vec![with_id("b", "B2"), with_id("c", "C"), with_id("a", "A2"), with_id("d", "D")];
    let (fresh, dups) = split_imported(imported, &existing);
    let fresh_ids: Vec<&str> = fresh.iter().map(|i| i.id.as_str()).collect();
    assert_eq!(fresh_ids, vec!["c", "d"]);
    assert_eq!(dups, vec!["b".to_string(), "a".to_string()]);
}

#[test]
fn storage_keeps_its_path() {
    let storage: Storage<f64> = Storage::open(PathBuf::from("/tmp/x.json"), vec![with_id("a", "A")]);
    assert_eq!(storage.data_file(), &PathBuf::from("/tmp/x.json"));
    assert_eq!(storage.into_investments().len(), 1);
}

#[test]
fn importing_twice_adds_nothing() {
    let mut storage = make_storage();
    storage.add_investment(with_id("a", "A"));
    let first = vec![with_id("a", "A1"), with_id("c", "C"), with_id("d", "D")];
    let (fresh, dups) = split_imported(first, storage.get_all_investments());
    assert_eq!(dups, vec!["a".to_string()]);
    assert_eq!(storage.add_investments(fresh).len(), 2);
    let second = vec![with_id("a", "A1"), with_id("c", "C"), with_id("d", "D")];
    let (fresh, dups) = split_imported(second, storage.get_all_investments());
    assert!(fresh.is_empty());
    assert_eq!(dups.len(), 3);
    assert_eq!(storage.get_all_investments().len(), 3);
}

#[test]
fn generated_ids_are_version_four() {
    let mut storage = make_storage();
    for _ in 0..20 {
        let id: Vec<char> = storage.add_investment(make_investment("V", 1.0, InvestmentType::Bond)).id.chars().collect();
        assert_eq!(id.len(), 36);
        assert_eq!(id[14], '4');
        assert!("89ab".contains(id[19]));
        assert!(id.iter().enumerate().all(|(i, c)| if [8, 13, 18, 23].contains(&i) { *c == '-' } else { c.is_ascii_hexdigit() && !c.is_ascii_uppercase() }));
    }
}

#[test]
fn test_mutate_investment() {
    let mut storage = make_storage();
    let saved_id = storage.add_investment(make_investment("BTC", 5000.0, InvestmentType::Crypto)).id.clone();
    let change = Change::PriceEntry { date: "2024-02-01".to_string(), price: 6000.0, sign: AmountSign::Positive, notes: None };
    let idx = storage.mutate_investment(&saved_id[..8], change).unwrap().unwrap();
    let changed = &storage.get_all_investments()[idx];
    assert_eq!(changed.current_value, Some(6000.0));
    assert_eq!(changed.price_history.len(), 1);
    let div = Change::Dividend { date: "2024-03-01".to_string(), amount: 10.0, sign: AmountSign::Positive, notes: None };
    storage.mutate_investment(&saved_id, div).unwrap();
    assert_eq!(storage.get_investment(&saved_id).unwrap().unwrap().dividends.len(), 1);
}

#[test]
fn test_mutate_investment_not_found() {
    let mut storage = make_storage();
    let change = Change::PriceEntry { date: "2024-02-01".to_string(), price: 1.0, sign: AmountSign::Positive, notes: None };
    assert_eq!(storage.mutate_investment("nonexistent", change).unwrap(), None);
}

#[test]
fn refused_change_leaves_storage_unchanged() {
    let mut storage = make_storage();
    storage.add_investment(with_id("a1", "A"));
    let change = Change::PriceEntry { date: "2024-02-30".to_string(), price: 1.0, sign: AmountSign::Positive, notes: None };
    match storage.mutate_investment("a1", change) {
        Err(ChangeError::Refused(InvestmentError::InvalidDate(_))) => {}
        other => panic!("unexpected {:?}", other.map(|_| ())),
    }
    assert!(storage.get_all_investments()[0].price_history.is_empty());
    storage.add_investment(with_id("a2", "B"));
    let change = Change::Dividend { date: "2024-02-01".to_string(), amount: 1.0, sign: AmountSign::Positive, notes: None };
    assert!(matches!(storage.mutate_investment("a", change), Err(ChangeError::Lookup(_))));
}
