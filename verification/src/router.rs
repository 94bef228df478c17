//! Request routing: matching the method and path to one of the two
//! operation flows, dispatching, and the outcome handed back to the
//! HTTP boundary.

use vstd::prelude::*;
use crate::errors::StaffError;
use crate::handler::{QueryParams, ViewModel, get_staff, post_staff, read_flow_post,
    create_flow_post};
use crate::pagination::spec_resolved_page;
use crate::store::{StaffFields, StaffTable};
use crate::text::str_eq;

verus! {

/// Which handler an inbound method and path select. Comparison is exact:
/// no wildcard, no partial match.
#[derive(Clone, Copy, Debug, PartialEq, Eq, Structural)]
pub enum RouteMatch {
    /// `GET /staff`: the read flow.
    GetStaff,
    /// `POST /staff`: the create flow.
    PostStaff,
    /// Anything else: a structured routing failure, never a response.
    NotMatched,
}

/// What a finished invocation hands the HTTP boundary.
#[derive(Debug)]
pub enum Outcome {
    /// A read flow's view model, to be rendered and returned as HTML.
    View(ViewModel),
    /// A finished create flow: respond with a redirect to the listing.
    /// The generated identity is carried for logging only.
    Created { generated_id: i32 },
}

/// Matches a method and path against the two routes.
pub fn route(method: &str, path: &str) -> (r: RouteMatch)
    ensures
        (r == RouteMatch::GetStaff) <==> (method@ == "GET"@ && path@ == "/staff"@),
        (r == RouteMatch::PostStaff) <==> (method@ == "POST"@ && path@ == "/staff"@),
{
    proof {
        reveal_strlit("GET");
        reveal_strlit("POST");
        assert("GET"@.len() == 3);
        assert("POST"@.len() == 4);
    }
    if str_eq(path, "/staff") {
        if str_eq(method, "GET") {
            RouteMatch::GetStaff
        } else if str_eq(method, "POST") {
            RouteMatch::PostStaff
        } else {
            RouteMatch::NotMatched
        }
    } else {
        RouteMatch::NotMatched
    }
}

/// The HTTP status an outcome is returned with: a rendered view as OK,
/// a finished create as a redirect to the listing.
pub fn outcome_status(o: &Outcome) -> (s: u16)
    ensures
        (o matches Outcome::View(vm)) ==> s == 200,
        (o matches Outcome::Created { generated_id }) ==> s == 303,
{
    match o {
        Outcome::View(_) => 200,
        Outcome::Created { .. } => 303,
    }
}

/// Dispatches one invocation: exactly one of the two flows runs on a
/// matched route and its guarantees hold; on any other method and path
/// the table is untouched and the invocation fails as a routing mismatch.
pub fn router(
    method: &str,
    path: &str,
    q: &QueryParams,
    payload: Option<StaffFields>,
    table: &mut StaffTable,
    last_update: u64,
) -> (r: Result<Outcome, StaffError>)
    requires
        old(table).inv(),
        spec_resolved_page(q.page) < i32::MAX as int,
    ensures
        final(table).inv(),
        !(path@ == "/staff"@ && (method@ == "GET"@ || method@ == "POST"@)) ==> (r matches Err(e)
            && e == StaffError::RouteNotMatched && *final(table) == *old(table)),
        (method@ == "GET"@ && path@ == "/staff"@) ==> (*final(table) == *old(table) && (match r {
            Ok(Outcome::View(vm)) => read_flow_post(*old(table), *q, Ok(vm)),
            Err(e) => read_flow_post(*old(table), *q, Err(e)),
            _ => false,
        })),
        (method@ == "POST"@ && path@ == "/staff"@) ==> (match r {
            Ok(Outcome::Created { generated_id }) => create_flow_post(
                *old(table),
                *final(table),
                payload,
                last_update,
                Ok(generated_id),
            ),
            Err(e) => create_flow_post(*old(table), *final(table), payload, last_update, Err(e)),
            _ => false,
        }),
{
    match route(method, path) {
        RouteMatch::GetStaff => match get_staff(table, q) {
            Ok(vm) => Ok(Outcome::View(vm)),
            Err(e) => Err(e),
        },
        RouteMatch::PostStaff => match post_staff(table, payload, last_update) {
            Ok(id) => Ok(Outcome::Created { generated_id: id }),
            Err(e) => Err(e),
        },
        RouteMatch::NotMatched => Err(StaffError::RouteNotMatched),
    }
}

} // verus!
