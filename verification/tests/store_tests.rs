use staff::store::{StaffFields, StaffTable};

fn fields(first: &str, last: &str) -> StaffFields {
    StaffFields {
        first_name: Some(first.to_string()),
        last_name: Some(last.to_string()),
        email: None,
        username: None,
        password: None,
    }
}

fn empty_fields() -> StaffFields {
    StaffFields { first_name: None, last_name: None, email: None, username: None, password: None }
}

#[test]
fn identities_are_assigned_in_order() {
    let mut t = StaffTable::new();
    let a = t.insert_staff(fields("A", "A"), 1).unwrap();
    let b = t.insert_staff(fields("B", "B"), 2).unwrap();
    assert_eq!(a, 1);
    assert_eq!(b, 2);
}

#[test]
fn insert_then_fetch_round_trip() {
    let mut t = StaffTable::new();
    let f = StaffFields {
        first_name: Some("Ana".to_string()),
        last_name: Some("Lee".to_string()),
        email: Some("a@x.com".to_string()),
        username: Some("ana".to_string()),
        password: Some("p".to_string()),
    };
    let id = t.insert_staff(f, 7).unwrap();
    assert!(id >= 0);
    let got = t.fetch_one(id).unwrap();
    assert_eq!(got.staff_id, id);
    assert_eq!(got.first_name, Some("Ana".to_string()));
    assert_eq!(got.last_name, Some("Lee".to_string()));
    assert_eq!(got.email, Some("a@x.com".to_string()));
    assert_eq!(got.username, Some("ana".to_string()));
    assert_eq!(got.password, Some("p".to_string()));
}

#[test]
fn fetch_of_absent_identity_is_none() {
    let mut t = StaffTable::new();
    assert!(t.fetch_one(42).is_none());
    t.insert_staff(fields("A", "A"), 1).unwrap();
    assert!(t.fetch_one(42).is_none());
}

#[test]
fn a_page_holds_at_most_ten_records() {
    let mut t = StaffTable::new();
    for i in 0..12u64 {
        t.insert_staff(empty_fields(), i).unwrap();
    }
    assert_eq!(t.fetch_page(0).len(), 10);
    assert_eq!(t.fetch_page(10).len(), 2);
    assert_eq!(t.fetch_page(12).len(), 0);
    assert_eq!(t.fetch_page(1000).len(), 0);
}

#[test]
fn first_page_lists_most_recent_updates_first() {
    let mut t = StaffTable::new();
    let early = t.insert_staff(fields("Early", "E"), 10).unwrap();
    let late = t.insert_staff(fields("Late", "L"), 30).unwrap();
    let middle = t.insert_staff(fields("Middle", "M"), 20).unwrap();
    let page = t.fetch_page(0);
    assert_eq!(page.len(), 3);
    assert_eq!(page[0].staff_id, late);
    assert_eq!(page[1].staff_id, middle);
    assert_eq!(page[2].staff_id, early);
}

#[test]
fn pages_continue_in_update_order() {
    let mut t = StaffTable::new();
    for i in 0..15u64 {
        t.insert_staff(empty_fields(), 100 + i).unwrap();
    }
    let first = t.fetch_page(0);
    let second = t.fetch_page(10);
    // identity i was stamped 100 + (i - 1); the most recent update is id 15
    assert_eq!(first[0].staff_id, 15);
    assert_eq!(first[9].staff_id, 6);
    assert_eq!(second[0].staff_id, 5);
    assert_eq!(second[4].staff_id, 1);
}
