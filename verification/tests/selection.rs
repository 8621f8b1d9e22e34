use vote_checker::accounts::{collect_accounts, merge_accounts, unique_accounts, AccountsError};
use vote_checker::slots::{
    missing_block_info, plan_slots, read_reference_slot, read_slots, reference_slot, slot_info,
    SlotsError,
};

fn texts(list: &[&str]) -> Vec<String> {
    list.iter().map(|s| s.to_string()).collect()
}

#[test]
fn duplicates_go_and_order_stays() {
    let all = texts(&["b", "a", "b", "c", "a"]);
    assert_eq!(unique_accounts(&all), texts(&["b", "a", "c"]));
    assert_eq!(unique_accounts(&texts(&["b", "a", "c"])), texts(&["b", "a", "c"]));
    assert!(unique_accounts(&texts(&[])).is_empty());
}

#[test]
fn given_accounts_come_before_listed_ones() {
    let merged = merge_accounts(&texts(&["x", "y"]), &texts(&["z", "x"])).unwrap();
    assert_eq!(merged, texts(&["x", "y", "z"]));
    let none = merge_accounts(&texts(&[]), &texts(&[]));
    assert!(matches!(none, Err(AccountsError::NoneGiven)));
}

#[test]
fn accounts_come_from_a_json_listing() {
    let listing = "[\"q\", \"\\u0061\", \"q\"]".to_string();
    let found = collect_accounts(&texts(&["a"]), Some(&listing)).unwrap();
    assert_eq!(found, texts(&["a", "q"]));
    assert_eq!(collect_accounts(&texts(&["a"]), None).unwrap(), texts(&["a"]));
}

#[test]
fn accounts_failures_have_their_words() {
    let bad = "{\"a\": 1}".to_string();
    let failure = collect_accounts(&texts(&["a"]), Some(&bad)).unwrap_err();
    assert!(matches!(failure, AccountsError::Unreadable(_)));
    assert_eq!(
        failure.message(),
        "invalid type: map, expected a sequence at line 1 column 0"
    );
    let empty = "[]".to_string();
    let failure = collect_accounts(&texts(&[]), Some(&empty)).unwrap_err();
    assert_eq!(
        failure.message(),
        "No accounts specified. Use --account or --accounts to specify at least one account."
    );
}

#[test]
fn slots_count_back_from_the_given_one() {
    assert_eq!(plan_slots(None, Some(10), Some(3)).unwrap(), vec![10, 9, 8, 7]);
    assert_eq!(plan_slots(None, Some(10), Some(0)).unwrap(), vec![10]);
    assert_eq!(plan_slots(None, Some(1), Some(3)).unwrap(), vec![1, 0, 0, 0]);
}

#[test]
fn a_range_goes_before_slot_and_distance() {
    let range = Some(Ok(vec![5, 3, 9]));
    assert_eq!(plan_slots(range.clone(), Some(10), Some(3)).unwrap(), vec![5, 3, 9]);
    assert_eq!(reference_slot(range, Some(10)).unwrap(), 5);
    assert_eq!(reference_slot(None, Some(10)).unwrap(), 10);
}

#[test]
fn slots_failures_have_their_words() {
    let failure = plan_slots(None, None, None).unwrap_err();
    assert!(matches!(failure, SlotsError::SlotMissing));
    assert_eq!(failure.message(), "--slot is required when not using --range");
    let failure = plan_slots(None, Some(1), None).unwrap_err();
    assert!(matches!(failure, SlotsError::DistanceMissing));
    assert_eq!(failure.message(), "--distance is required when not using --range");
    let failure = reference_slot(Some(Ok(vec![])), Some(1)).unwrap_err();
    assert!(matches!(failure, SlotsError::RangeEmpty));
    assert_eq!(failure.message(), "Range file is empty");
    let failure = reference_slot(None, None).unwrap_err();
    assert!(matches!(failure, SlotsError::SlotMissing));
    let failure = reference_slot(Some(Err("bad".to_string())), None).unwrap_err();
    assert_eq!(failure.message(), "bad");
}

#[test]
fn slots_come_from_a_json_range() {
    let document = " [ 349000000, 7 ]\n".to_string();
    assert_eq!(read_slots(Some(&document), None, None).unwrap(), vec![349_000_000, 7]);
    assert_eq!(read_reference_slot(Some(&document), None).unwrap(), 349_000_000);
    let empty = "[]".to_string();
    assert!(read_slots(Some(&empty), None, None).unwrap().is_empty());
    assert!(matches!(read_reference_slot(Some(&empty), None), Err(SlotsError::RangeEmpty)));
    assert_eq!(read_slots(None, Some(4), Some(1)).unwrap(), vec![4, 3]);
    assert_eq!(read_reference_slot(None, Some(4)).unwrap(), 4);
}

#[test]
fn an_unreadable_range_is_a_failure() {
    for bad in ["[-1]", "[1.5]", "[1", "\"1\""] {
        let bad = bad.to_string();
        assert!(matches!(
            read_slots(Some(&bad), Some(1), Some(1)),
            Err(SlotsError::Unreadable(_))
        ));
        assert!(matches!(
            read_reference_slot(Some(&bad), Some(1)),
            Err(SlotsError::Unreadable(_))
        ));
    }
}

#[test]
fn the_selection_in_words() {
    let file = "slots.json".to_string();
    assert_eq!(slot_info(Some(&file), Some(1), None), "Range file: slots.json");
    assert_eq!(slot_info(None, Some(12), Some(3)), "Slot: 12 Distance: 3");
    assert_eq!(slot_info(None, None, None), "Slot: 0 Distance: 0");
    assert_eq!(missing_block_info(42), "No block found for 42");
}
