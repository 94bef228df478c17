//! The two operation flows: reading staff (single lookup or page listing,
//! ending in the view model handed to rendering) and creating staff.

use vstd::prelude::*;
use vstd::string::StrSliceExecFns;
use crate::errors::StaffError;
use crate::pagination::{Pagination, spec_resolved_page, resolve_page, compute_offset,
    make_pagination};
use crate::store::{Staff, StaffFields, StaffTable, StaffRowV, StaffV, lookup, page_slice,
    staff_of_fields, inserted_row};
use crate::text::{str_eq, spec_parse_nonneg_i32, parse_nonneg_i32};

verus! {

/// The three query parameters a read request may carry, each as its raw
/// text, or absent.
pub struct QueryParams {
    pub page: Option<String>,
    pub new_flag: Option<String>,
    pub staff_id: Option<String>,
}

/// Everything the renderer needs for one read request: the records to
/// show, the pagination triple, and whether to show the create form.
#[derive(Debug)]
pub struct ViewModel {
    pub staff: Vec<Staff>,
    pub pagination: Pagination,
    pub show_form: bool,
}

/// The create form is requested by a `new` parameter holding exactly `t`.
pub open spec fn spec_show_form(q: QueryParams) -> bool {
    q.new_flag matches Some(s) && s@ == "t"@
}

/// The record a single lookup with raw parameter `sid` finds: the one
/// carrying the parsed identity, and nothing when the parameter does not
/// parse or no record carries the identity.
pub open spec fn spec_single_lookup(rows: Seq<StaffRowV>, sid: Seq<char>) -> Option<StaffV> {
    match spec_parse_nonneg_i32(sid) {
        Some(id) => lookup(rows, id as i32),
        None => None,
    }
}

/// Whether the create form is requested, exactly as `spec_show_form`
/// describes.
pub fn resolve_show_form(q: &QueryParams) -> (r: bool)
    ensures
        r == spec_show_form(*q),
{
    match &q.new_flag {
        Option::Some(s) => str_eq(s.as_str(), "t"),
        Option::None => false,
    }
}

/// Fetches the page listing for a resolved page number: the ten records
/// at the page's offset, most recently updated first.
pub fn get_list_staff(table: &StaffTable, page_num: i32) -> (r: Vec<Staff>)
    requires
        table.inv(),
        0 <= page_num,
    ensures
        r.deep_view() == page_slice(table@, 10 * page_num as int),
        r@.len() <= 10,
{
    let offset = compute_offset(page_num);
    table.fetch_page(offset)
}

/// Fetches the one record named by the raw `staff_id` parameter, as a
/// sequence of exactly one record. A parameter that names no record — or
/// that does not parse as an identity — is a lookup miss, not a store
/// failure and not an empty listing.
pub fn get_single_staff(table: &StaffTable, staff_id: &str) -> (r: Result<Vec<Staff>, StaffError>)
    requires
        table.inv(),
    ensures
        r matches Ok(v) ==> (spec_single_lookup(table@, staff_id@) matches Some(s) && v.deep_view()
            == seq![s]),
        r matches Err(e) ==> e == StaffError::RecordNotFound,
        (r matches Err(e)) <==> spec_single_lookup(table@, staff_id@) is None,
{
    match parse_nonneg_i32(staff_id) {
        Option::None => Err(StaffError::RecordNotFound),
        Option::Some(id) => match table.fetch_one(id) {
            Option::None => Err(StaffError::RecordNotFound),
            Option::Some(s) => {
                let v = vec![s];
                proof {
                    assert(v.deep_view() =~= seq![lookup(table@, id)->Some_0]);
                }
                Ok(v)
            },
        },
    }
}

/// What a finished read flow guarantees: the pagination triple comes from
/// the resolved page, the form flag from the `new` parameter, and the
/// records from a single lookup when `staff_id` is present, else from the
/// page listing. The only failure is a lookup miss.
pub open spec fn read_flow_post(
    t: StaffTable,
    q: QueryParams,
    r: Result<ViewModel, StaffError>,
) -> bool {
    &&& (r matches Ok(vm) ==> {
        &&& vm.pagination.page as int == spec_resolved_page(q.page)
        &&& vm.pagination.next as int == spec_resolved_page(q.page) + 1
        &&& vm.pagination.prev as int == spec_resolved_page(q.page) - 1
        &&& vm.show_form == spec_show_form(q)
        &&& (match q.staff_id {
            Some(sid) => spec_single_lookup(t@, sid@) matches Some(s) && vm.staff.deep_view()
                == seq![s],
            None => vm.staff.deep_view() == page_slice(t@, 10 * spec_resolved_page(q.page)),
        })
    })
    &&& (r matches Err(e) ==> e == StaffError::RecordNotFound)
    &&& ((r matches Err(e)) <==> (q.staff_id matches Some(sid) && spec_single_lookup(t@, sid@)
        is None))
}

/// The read flow: resolve the page, branch on `staff_id` between single
/// lookup and page listing, and assemble the view model.
pub fn get_staff(table: &StaffTable, q: &QueryParams) -> (r: Result<ViewModel, StaffError>)
    requires
        table.inv(),
        spec_resolved_page(q.page) < i32::MAX as int,
    ensures
        read_flow_post(*table, *q, r),
{
    let page_num = resolve_page(&q.page);
    let show_form = resolve_show_form(q);
    let staff = match &q.staff_id {
        Option::Some(sid) => get_single_staff(table, sid.as_str()),
        Option::None => Ok(get_list_staff(table, page_num)),
    };
    match staff {
        Ok(records) => {
            let pagination = make_pagination(page_num);
            Ok(ViewModel { staff: records, pagination, show_form })
        },
        Err(e) => Err(e),
    }
}

/// What a finished create flow guarantees: an absent payload is invalid;
/// a present one is inserted with the store's next identity, which the
/// result carries; the store fails only out of identities.
pub open spec fn create_flow_post(
    pre: StaffTable,
    post: StaffTable,
    payload: Option<StaffFields>,
    last_update: u64,
    r: Result<i32, StaffError>,
) -> bool {
    &&& post.inv()
    &&& (payload is None ==> (r matches Err(e) && e == StaffError::PayloadInvalid && post == pre))
    &&& (payload matches Some(f) ==> {
        &&& ((r matches Ok(id)) <==> pre.spec_next_id() < i32::MAX as int)
        &&& (r matches Err(e) ==> e == StaffError::StoreError && post == pre)
        &&& (r matches Ok(id) ==> {
            &&& id as int == pre.spec_next_id()
            &&& post.spec_next_id() == id as int + 1
            &&& inserted_row(
                pre@,
                post@,
                StaffRowV { staff: staff_of_fields(f.deep_view(), id), last_update },
            )
            &&& lookup(post@, id) == Some(staff_of_fields(f.deep_view(), id))
        })
    })
}

/// The create flow: reject an unreadable payload, otherwise insert the
/// fields stamped `last_update` and hand back the generated identity —
/// for logging only, never for the HTTP response.
pub fn post_staff(table: &mut StaffTable, payload: Option<StaffFields>, last_update: u64) -> (r:
    Result<i32, StaffError>)
    requires
        old(table).inv(),
    ensures
        final(table).inv(),
        create_flow_post(*old(table), *final(table), payload, last_update, r),
{
    match payload {
        Option::None => Err(StaffError::PayloadInvalid),
        Option::Some(f) => table.insert_staff(f, last_update),
    }
}

} // verus!
