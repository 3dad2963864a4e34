use timeloop::rows::{Entry, Rows, TimeEntry};

fn work_report(foreign_keys: bool) -> Rows {
    let mut rows = Rows::new(foreign_keys);
    assert!(rows.is_keyed());
    assert_eq!(rows.insert_category(), Some(1));
    assert_eq!(rows.insert_entry(Some(1)), Some(1));
    assert_eq!(rows.insert_time_entry(1), Some(1));
    assert!(rows.is_keyed());
    rows
}

#[test]
fn new_store_holds_no_row() {
    let rows = Rows::new(true);
    assert!(rows.foreign_keys);
    assert!(rows.categories.is_empty() && rows.entries.is_empty() && rows.time_entries.is_empty());
    assert_eq!((rows.last_category, rows.last_entry, rows.last_time_entry), (0, 0, 0));
    assert!(rows.is_intact());
    assert!(!Rows::new(false).foreign_keys);
}

#[test]
fn work_report_rows_are_linked() {
    let rows = work_report(true);
    assert_eq!(rows.categories, vec![1]);
    assert_eq!(rows.entries, vec![Entry { id: 1, category_id: Some(1) }]);
    assert_eq!(rows.time_entries, vec![TimeEntry { id: 1, entry_id: 1 }]);
    assert!(rows.has_category(1) && rows.has_entry(1) && rows.category_in_use(1));
    assert!(rows.is_intact());
}

#[test]
fn work_report_entry_takes_its_time_entries_along() {
    let mut rows = work_report(true);
    rows.delete_entry(1);
    assert!(rows.time_entries.is_empty());
    assert!(rows.entries.is_empty());
    assert_eq!(rows.categories, vec![1]);
    assert!(rows.is_intact());
}

#[test]
fn entry_with_a_held_category_is_taken() {
    let mut rows = Rows::new(true);
    assert_eq!(rows.insert_category(), Some(1));
    assert_eq!(rows.insert_category(), Some(2));
    assert_eq!(rows.insert_entry(Some(2)), Some(1));
    assert_eq!(rows.insert_entry(None), Some(2));
    assert_eq!(
        rows.entries,
        vec![Entry { id: 1, category_id: Some(2) }, Entry { id: 2, category_id: None }]
    );
    assert!(rows.is_intact());
}

#[test]
fn entry_with_a_missing_category_is_rejected_under_enforcement() {
    let mut rows = Rows::new(true);
    assert_eq!(rows.insert_category(), Some(1));
    let before = Rows { categories: vec![1], last_category: 1, ..Rows::new(true) };
    assert_eq!(rows.insert_entry(Some(42)), None);
    assert_eq!(rows, before);
    assert_eq!(rows.insert_entry(Some(0)), None);
    assert_eq!(rows.insert_entry(Some(1)), Some(1));
}

#[test]
fn entry_with_a_missing_category_is_taken_without_enforcement() {
    let mut rows = Rows::new(false);
    assert_eq!(rows.insert_entry(Some(42)), Some(1));
    assert_eq!(rows.entries, vec![Entry { id: 1, category_id: Some(42) }]);
    assert!(!rows.is_intact());
}

#[test]
fn time_entry_needs_its_entry_under_enforcement() {
    let mut rows = Rows::new(true);
    assert_eq!(rows.insert_time_entry(1), None);
    assert!(rows.time_entries.is_empty());
    assert_eq!(rows.last_time_entry, 0);
    assert_eq!(rows.insert_entry(None), Some(1));
    assert_eq!(rows.insert_time_entry(1), Some(1));
    assert_eq!(rows.insert_time_entry(2), None);
    assert_eq!(rows.insert_time_entry(1), Some(2));
    let mut free = Rows::new(false);
    assert_eq!(free.insert_time_entry(7), Some(1));
    assert!(!free.is_intact());
}

#[test]
fn referenced_category_is_kept_under_enforcement() {
    let mut rows = work_report(true);
    let before = work_report(true);
    assert!(!rows.delete_category(1));
    assert_eq!(rows, before);
    assert!(rows.delete_category(5));
    assert_eq!(rows, before);
    assert_eq!(rows.insert_category(), Some(2));
    assert!(rows.delete_category(2));
    assert_eq!(rows.categories, vec![1]);
    assert_eq!(rows.entries, before.entries);
    assert!(rows.is_intact());
}

#[test]
fn referenced_category_goes_and_leaves_a_dangling_reference_without_enforcement() {
    let mut rows = work_report(false);
    assert!(rows.delete_category(1));
    assert!(rows.categories.is_empty());
    assert_eq!(rows.entries, vec![Entry { id: 1, category_id: Some(1) }]);
    assert_eq!(rows.time_entries, vec![TimeEntry { id: 1, entry_id: 1 }]);
    assert!(!rows.is_intact());
}

#[test]
fn deleting_an_entry_takes_its_time_entries_and_no_other_row() {
    let mut rows = Rows::new(true);
    assert_eq!(rows.insert_category(), Some(1));
    assert_eq!(rows.insert_entry(Some(1)), Some(1));
    assert_eq!(rows.insert_entry(Some(1)), Some(2));
    assert_eq!(rows.insert_time_entry(1), Some(1));
    assert_eq!(rows.insert_time_entry(2), Some(2));
    assert_eq!(rows.insert_time_entry(1), Some(3));
    rows.delete_entry(1);
    assert_eq!(rows.categories, vec![1]);
    assert_eq!(rows.entries, vec![Entry { id: 2, category_id: Some(1) }]);
    assert_eq!(rows.time_entries, vec![TimeEntry { id: 2, entry_id: 2 }]);
    assert!(rows.is_intact());
    rows.delete_entry(9);
    assert_eq!(rows.entries.len(), 1);
    assert_eq!(rows.time_entries.len(), 1);
}

#[test]
fn deleting_an_entry_leaves_its_time_entries_without_enforcement() {
    let mut rows = work_report(false);
    rows.delete_entry(1);
    assert!(rows.entries.is_empty());
    assert_eq!(rows.time_entries, vec![TimeEntry { id: 1, entry_id: 1 }]);
    assert!(!rows.is_intact());
}

#[test]
fn keys_are_never_dealt_out_twice() {
    let mut rows = Rows::new(true);
    assert_eq!(rows.insert_category(), Some(1));
    assert_eq!(rows.insert_category(), Some(2));
    assert!(rows.delete_category(2));
    assert_eq!(rows.insert_category(), Some(3));
    assert_eq!(rows.categories, vec![1, 3]);
    assert_eq!(rows.last_category, 3);
    assert_eq!(rows.insert_entry(None), Some(1));
    rows.delete_entry(1);
    assert_eq!(rows.insert_entry(None), Some(2));
}

#[test]
fn table_without_a_key_left_takes_no_row() {
    let mut rows = Rows { last_category: i64::MAX, last_entry: i64::MAX, ..Rows::new(false) };
    rows.last_time_entry = i64::MAX;
    assert!(rows.is_keyed());
    assert_eq!(rows.insert_category(), None);
    assert_eq!(rows.insert_entry(None), None);
    assert_eq!(rows.insert_time_entry(1), None);
    assert!(rows.categories.is_empty() && rows.entries.is_empty() && rows.time_entries.is_empty());
    let mut rows = Rows { last_category: i64::MAX - 1, ..Rows::new(true) };
    assert_eq!(rows.insert_category(), Some(i64::MAX));
    assert_eq!(rows.insert_category(), None);
    assert!(rows.is_keyed());
}

#[test]
fn keys_as_the_store_deals_them_out() {
    let built = |categories: Vec<i64>, last_category: i64| Rows {
        categories,
        last_category,
        ..Rows::new(true)
    };
    assert!(built(vec![], 0).is_keyed());
    assert!(built(vec![], 5).is_keyed());
    assert!(built(vec![1, 3, 4], 4).is_keyed());
    assert!(built(vec![1, 3, 4], 9).is_keyed());
    assert!(!built(vec![], -1).is_keyed());
    assert!(!built(vec![1, 3, 4], 3).is_keyed());
    assert!(!built(vec![0, 1], 5).is_keyed());
    assert!(!built(vec![1, 1], 5).is_keyed());
    assert!(!built(vec![2, 1], 5).is_keyed());
    let entries = |ids: Vec<i64>, last_entry: i64| Rows {
        entries: ids.into_iter().map(|id| Entry { id, category_id: None }).collect(),
        last_entry,
        ..Rows::new(true)
    };
    assert!(entries(vec![2, 5], 5).is_keyed());
    assert!(!entries(vec![2, 2], 5).is_keyed());
    assert!(!entries(vec![2, 5], 4).is_keyed());
    let time_entries = |ids: Vec<i64>, last_time_entry: i64| Rows {
        time_entries: ids.into_iter().map(|id| TimeEntry { id, entry_id: 1 }).collect(),
        last_time_entry,
        ..Rows::new(false)
    };
    assert!(time_entries(vec![1, 2, 3], 3).is_keyed());
    assert!(!time_entries(vec![3, 2], 3).is_keyed());
}

#[test]
fn every_step_keeps_the_keys_and_under_enforcement_the_references() {
    let mut rows = Rows::new(true);
    let mut check = |rows: &Rows| {
        assert!(rows.is_keyed());
        assert!(rows.is_intact());
    };
    check(&rows);
    rows.insert_category();
    check(&rows);
    rows.insert_entry(Some(1));
    check(&rows);
    rows.insert_entry(Some(9));
    check(&rows);
    rows.insert_time_entry(1);
    check(&rows);
    rows.insert_time_entry(5);
    check(&rows);
    rows.delete_category(1);
    check(&rows);
    rows.delete_entry(1);
    check(&rows);
    rows.delete_category(1);
    check(&rows);
    assert_eq!(rows, Rows { last_category: 1, last_entry: 1, last_time_entry: 1, ..Rows::new(true) });
}
