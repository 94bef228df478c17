use staff::errors::StaffError;
use staff::handler::{get_single_staff, get_staff, post_staff, QueryParams};
use staff::router::{outcome_status, route, router, Outcome, RouteMatch};
use staff::store::{StaffFields, StaffTable};

fn no_params() -> QueryParams {
    QueryParams { page: None, new_flag: None, staff_id: None }
}

fn named_fields(first: &str) -> StaffFields {
    StaffFields {
        first_name: Some(first.to_string()),
        last_name: None,
        email: None,
        username: None,
        password: None,
    }
}

#[test]
fn routes_match_exactly() {
    assert_eq!(route("GET", "/staff"), RouteMatch::GetStaff);
    assert_eq!(route("POST", "/staff"), RouteMatch::PostStaff);
    assert_eq!(route("DELETE", "/staff"), RouteMatch::NotMatched);
    assert_eq!(route("GET", "/other"), RouteMatch::NotMatched);
    assert_eq!(route("GET", "/staff/"), RouteMatch::NotMatched);
    assert_eq!(route("get", "/staff"), RouteMatch::NotMatched);
}

#[test]
fn unmatched_route_is_a_structured_failure() {
    let mut t = StaffTable::new();
    let r = router("DELETE", "/staff", &no_params(), None, &mut t, 0);
    assert_eq!(r.unwrap_err(), StaffError::RouteNotMatched);
    let r = router("GET", "/other", &no_params(), None, &mut t, 0);
    assert_eq!(r.unwrap_err(), StaffError::RouteNotMatched);
}

#[test]
fn negative_page_lists_from_offset_zero() {
    let mut t = StaffTable::new();
    for i in 0..12u64 {
        t.insert_staff(named_fields(&format!("s{}", i)), i).unwrap();
    }
    let q = QueryParams { page: Some("-3".to_string()), new_flag: None, staff_id: None };
    let vm = get_staff(&t, &q).unwrap();
    assert_eq!(vm.pagination.page, 0);
    assert_eq!(vm.pagination.next, 1);
    assert_eq!(vm.pagination.prev, -1);
    assert_eq!(vm.staff.len(), 10);
    // offset zero: the listing starts with the most recently updated record
    assert_eq!(vm.staff[0].first_name, Some("s11".to_string()));
    assert!(!vm.show_form);
}

#[test]
fn lookup_miss_is_not_an_empty_listing() {
    let t = StaffTable::new();
    let q = QueryParams { page: None, new_flag: None, staff_id: Some("42".to_string()) };
    let r = get_staff(&t, &q);
    assert_eq!(r.unwrap_err(), StaffError::RecordNotFound);
}

#[test]
fn lookup_hit_yields_exactly_one_record() {
    let mut t = StaffTable::new();
    let id = t.insert_staff(named_fields("Ana"), 5).unwrap();
    let q = QueryParams { page: None, new_flag: None, staff_id: Some(id.to_string()) };
    let vm = get_staff(&t, &q).unwrap();
    assert_eq!(vm.staff.len(), 1);
    assert_eq!(vm.staff[0].staff_id, id);
    assert_eq!(vm.staff[0].first_name, Some("Ana".to_string()));
}

#[test]
fn unparsable_staff_id_is_a_lookup_miss() {
    let mut t = StaffTable::new();
    t.insert_staff(named_fields("Ana"), 5).unwrap();
    let r = get_single_staff(&t, "x1");
    assert_eq!(r.unwrap_err(), StaffError::RecordNotFound);
}

#[test]
fn create_form_shows_only_on_t() {
    let t = StaffTable::new();
    let q = QueryParams { page: None, new_flag: Some("t".to_string()), staff_id: None };
    assert!(get_staff(&t, &q).unwrap().show_form);
    let q = QueryParams { page: None, new_flag: Some("true".to_string()), staff_id: None };
    assert!(!get_staff(&t, &q).unwrap().show_form);
    assert!(!get_staff(&t, &no_params()).unwrap().show_form);
}

#[test]
fn absent_payload_is_invalid() {
    let mut t = StaffTable::new();
    let r = post_staff(&mut t, None, 0);
    assert_eq!(r.unwrap_err(), StaffError::PayloadInvalid);
    assert_eq!(t.fetch_page(0).len(), 0);
}

#[test]
fn created_record_is_found_by_its_identity() {
    let mut t = StaffTable::new();
    let r = router("POST", "/staff", &no_params(), Some(named_fields("Ana")), &mut t, 9);
    let id = match r.unwrap() {
        Outcome::Created { generated_id } => generated_id,
        _ => panic!("create must answer with a redirect outcome"),
    };
    let q = QueryParams { page: None, new_flag: None, staff_id: Some(id.to_string()) };
    let r = router("GET", "/staff", &q, None, &mut t, 0);
    match r.unwrap() {
        Outcome::View(vm) => {
            assert_eq!(vm.staff.len(), 1);
            assert_eq!(vm.staff[0].first_name, Some("Ana".to_string()));
        },
        _ => panic!("read must answer with a view outcome"),
    }
}

#[test]
fn outcomes_and_errors_map_to_their_statuses() {
    let mut t = StaffTable::new();
    let r = router("POST", "/staff", &no_params(), Some(named_fields("Ana")), &mut t, 0);
    assert_eq!(outcome_status(&r.unwrap()), 303);
    let r = router("GET", "/staff", &no_params(), None, &mut t, 0);
    assert_eq!(outcome_status(&r.unwrap()), 200);
    assert_eq!(StaffError::ConfigError.status_code(), 500);
    assert_eq!(StaffError::ConnectionError.status_code(), 503);
    assert_eq!(StaffError::RouteNotMatched.status_code(), 404);
    assert_eq!(StaffError::PayloadInvalid.status_code(), 400);
    assert_eq!(StaffError::RecordNotFound.status_code(), 404);
    assert_eq!(StaffError::StoreError.status_code(), 500);
}
