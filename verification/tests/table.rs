use employee_directory::db::StoreError;
use employee_directory::models::{copy_employees, CreateEmployee, Employee};
use employee_directory::relation::MAX_ID;
use employee_directory::table::EmployeeTable;

fn fields(first: Option<&str>, last: Option<&str>, email: Option<&str>) -> CreateEmployee {
    CreateEmployee {
        first_name: first.map(|s| s.to_string()),
        last_name: last.map(|s| s.to_string()),
        email: email.map(|s| s.to_string()),
    }
}

fn employee(id: i32, first: Option<&str>, last: Option<&str>, email: Option<&str>) -> Employee {
    Employee {
        id,
        first_name: first.map(|s| s.to_string()),
        last_name: last.map(|s| s.to_string()),
        email: email.map(|s| s.to_string()),
    }
}

fn ids(listing: &Vec<Employee>) -> Vec<i32> {
    let mut out = Vec::new();
    for e in listing {
        out.push(e.id);
    }
    out
}

#[test]
fn a_new_table_is_empty() {
    let table = EmployeeTable::new();
    assert_eq!(table.list_all(), vec![]);
    assert_eq!(table.get_by_id(1), None);
}

#[test]
fn the_first_record_gets_identifier_one() {
    let mut table = EmployeeTable::new();
    let created = table.insert(fields(Some("Ada"), Some("Lovelace"), Some("ada@x.com")));
    assert_eq!(created, Ok(employee(1, Some("Ada"), Some("Lovelace"), Some("ada@x.com"))));
}

#[test]
fn insert_then_get_returns_the_fields_with_the_identifier() {
    let mut table = EmployeeTable::new();
    table.insert(fields(Some("first"), None, None)).unwrap();
    let created = table.insert(fields(Some("Grace"), Some("Hopper"), None)).unwrap();
    assert_eq!(created, employee(2, Some("Grace"), Some("Hopper"), None));
    assert_eq!(table.get_by_id(created.id), Some(created));
}

#[test]
fn insert_accepts_a_request_without_any_field() {
    let mut table = EmployeeTable::new();
    let created = table.insert(fields(None, None, None)).unwrap();
    assert_eq!(created, employee(1, None, None, None));
    assert_eq!(table.get_by_id(1), Some(employee(1, None, None, None)));
}

#[test]
fn an_empty_text_is_not_an_absent_one() {
    let mut table = EmployeeTable::new();
    let a = table.insert(fields(Some(""), None, Some(""))).unwrap();
    assert_eq!(a, employee(1, Some(""), None, Some("")));
    assert_ne!(table.get_by_id(1), Some(employee(1, None, None, None)));
    assert_eq!(table.get_by_id(1), Some(employee(1, Some(""), None, Some(""))));
}

#[test]
fn get_finds_each_record_by_exact_identifier() {
    let mut table = EmployeeTable::new();
    for name in ["a", "b", "c", "d", "e"] {
        table.insert(fields(Some(name), None, None)).unwrap();
    }
    assert_eq!(table.get_by_id(1), Some(employee(1, Some("a"), None, None)));
    assert_eq!(table.get_by_id(3), Some(employee(3, Some("c"), None, None)));
    assert_eq!(table.get_by_id(5), Some(employee(5, Some("e"), None, None)));
    assert_eq!(table.get_by_id(0), None);
    assert_eq!(table.get_by_id(6), None);
    assert_eq!(table.get_by_id(-3), None);
    assert_eq!(table.get_by_id(i32::MIN), None);
    assert_eq!(table.get_by_id(i32::MAX), None);
}

#[test]
fn delete_then_get_is_absent_and_a_second_delete_affects_nothing() {
    let mut table = EmployeeTable::new();
    table.insert(fields(Some("a"), None, None)).unwrap();
    table.insert(fields(Some("b"), None, None)).unwrap();
    assert_eq!(table.delete_by_id(1), 1);
    assert_eq!(table.get_by_id(1), None);
    assert_eq!(table.delete_by_id(1), 0);
    assert_eq!(table.get_by_id(2), Some(employee(2, Some("b"), None, None)));
}

#[test]
fn delete_of_a_missing_identifier_changes_nothing() {
    let mut table = EmployeeTable::new();
    table.insert(fields(Some("a"), None, None)).unwrap();
    assert_eq!(table.delete_by_id(999999), 0);
    assert_eq!(table.delete_by_id(0), 0);
    assert_eq!(table.delete_by_id(-1), 0);
    assert_eq!(table.list_all(), vec![employee(1, Some("a"), None, None)]);
}

#[test]
fn a_deleted_identifier_is_not_given_out_again() {
    let mut table = EmployeeTable::new();
    table.insert(fields(Some("a"), None, None)).unwrap();
    assert_eq!(table.delete_by_id(1), 1);
    let next = table.insert(fields(Some("b"), None, None)).unwrap();
    assert_eq!(next.id, 2);
    assert_eq!(table.get_by_id(1), None);
}

#[test]
fn update_replaces_all_three_fields() {
    let mut table = EmployeeTable::new();
    table.insert(fields(Some("Ada"), Some("Lovelace"), Some("ada@x.com"))).unwrap();
    let updated = table.update_by_id(1, fields(Some("A"), None, Some("x@y")));
    assert_eq!(updated, Some(employee(1, Some("A"), None, Some("x@y"))));
    assert_eq!(table.get_by_id(1), Some(employee(1, Some("A"), None, Some("x@y"))));
}

#[test]
fn update_of_a_missing_identifier_returns_none_and_changes_nothing() {
    let mut table = EmployeeTable::new();
    table.insert(fields(Some("a"), None, None)).unwrap();
    assert_eq!(table.update_by_id(2, fields(Some("b"), None, None)), None);
    assert_eq!(table.update_by_id(999999, fields(Some("b"), None, None)), None);
    assert_eq!(table.list_all(), vec![employee(1, Some("a"), None, None)]);
}

#[test]
fn update_leaves_the_other_records_alone() {
    let mut table = EmployeeTable::new();
    table.insert(fields(Some("a"), None, None)).unwrap();
    table.insert(fields(Some("b"), None, None)).unwrap();
    table.insert(fields(Some("c"), None, None)).unwrap();
    table.update_by_id(2, fields(None, Some("B"), None)).unwrap();
    assert_eq!(
        table.list_all(),
        vec![
            employee(1, Some("a"), None, None),
            employee(2, None, Some("B"), None),
            employee(3, Some("c"), None, None),
        ]
    );
}

#[test]
fn listing_is_in_strictly_ascending_identifier_order() {
    let mut table = EmployeeTable::new();
    for name in ["zoe", "yan", "xi", "will", "vera", "uma"] {
        table.insert(fields(Some(name), None, None)).unwrap();
    }
    assert_eq!(table.delete_by_id(2), 1);
    assert_eq!(table.delete_by_id(5), 1);
    table.update_by_id(4, fields(Some("aaron"), None, None)).unwrap();
    table.insert(fields(Some("abe"), None, None)).unwrap();
    let listing = table.list_all();
    assert_eq!(ids(&listing), vec![1, 3, 4, 6, 7]);
    for pair in listing.windows(2) {
        assert!(pair[0].id < pair[1].id);
    }
    assert_eq!(listing[2], employee(4, Some("aaron"), None, None));
}

#[test]
fn a_new_record_is_listed_last() {
    let mut table = EmployeeTable::new();
    table.insert(fields(Some("a"), None, None)).unwrap();
    table.insert(fields(Some("b"), None, None)).unwrap();
    let before = table.list_all();
    let created = table.insert(fields(Some("c"), None, None)).unwrap();
    let mut expected = before;
    expected.push(created);
    assert_eq!(table.list_all(), expected);
}

#[test]
fn a_resumed_table_goes_on_after_the_last_identifier() {
    let mut table = EmployeeTable::resuming(41);
    assert_eq!(table.list_all(), vec![]);
    let created = table.insert(fields(Some("a"), None, None)).unwrap();
    assert_eq!(created.id, 42);
}

#[test]
fn a_negative_start_counts_as_zero() {
    let mut table = EmployeeTable::resuming(-5);
    let created = table.insert(fields(Some("a"), None, None)).unwrap();
    assert_eq!(created.id, 1);
}

#[test]
fn the_largest_identifier_can_be_given_out() {
    assert_eq!(MAX_ID, i32::MAX);
    let mut table = EmployeeTable::resuming(MAX_ID - 1);
    let created = table.insert(fields(Some("last"), None, None)).unwrap();
    assert_eq!(created.id, i32::MAX);
    assert_eq!(table.get_by_id(i32::MAX), Some(employee(i32::MAX, Some("last"), None, None)));
}

#[test]
fn insert_fails_and_changes_nothing_once_identifiers_are_exhausted() {
    let mut table = EmployeeTable::resuming(MAX_ID - 1);
    table.insert(fields(Some("last"), None, None)).unwrap();
    let before = table.list_all();
    assert_eq!(
        table.insert(fields(Some("one too many"), None, None)),
        Err(StoreError::IdentifiersExhausted)
    );
    assert_eq!(table.list_all(), before);
    assert_eq!(
        table.insert(fields(None, None, None)),
        Err(StoreError::IdentifiersExhausted)
    );
}

#[test]
fn a_copy_of_a_listing_equals_it() {
    let listing = vec![employee(1, Some("a"), None, None), employee(2, None, Some("b"), Some(""))];
    assert_eq!(copy_employees(&listing), listing);
    assert_eq!(copy_employees(&vec![]), vec![]);
}

#[test]
fn with_id_joins_identifier_and_fields() {
    assert_eq!(
        Employee::with_id(9, fields(Some("a"), None, Some("c"))),
        employee(9, Some("a"), None, Some("c"))
    );
}
