//! Pagination: resolving the requested page number from its textual query
//! parameter, turning a page into a row offset, and the page/next/prev
//! triple handed to rendering.

use vstd::prelude::*;
use vstd::string::StrSliceExecFns;
use crate::text::{spec_parse_nonneg_i32, parse_nonneg_i32};

verus! {

/// The page/next/prev triple computed for one read request.
#[derive(Debug)]
pub struct Pagination {
    pub page: i32,
    pub next: i32,
    pub prev: i32,
}

/// The page resolved from the raw `page` query parameter: missing input,
/// input starting with a minus sign, and input that does not parse as a
/// non-negative 32-bit integer all resolve to page zero; anything else
/// resolves to the parsed value.
pub open spec fn spec_resolved_page(p: Option<String>) -> int {
    match p {
        Option::None => 0,
        Option::Some(s) => if s@.len() > 0 && s@[0] == '-' {
            0
        } else {
            match spec_parse_nonneg_i32(s@) {
                Option::Some(v) => v,
                Option::None => 0,
            }
        },
    }
}

/// Resolves the raw `page` query parameter to a page number, exactly as
/// `spec_resolved_page` describes.
pub fn resolve_page(p: &Option<String>) -> (r: i32)
    ensures
        r as int == spec_resolved_page(*p),
        r >= 0,
{
    match p {
        Option::None => 0,
        Option::Some(s) => {
            let sl: &str = s.as_str();
            if sl.unicode_len() > 0 && sl.get_char(0) == '-' {
                0
            } else {
                match parse_nonneg_i32(sl) {
                    Option::Some(v) => v,
                    Option::None => 0,
                }
            }
        },
    }
}

/// The row offset of a page: ten rows to a page.
pub fn compute_offset(page: i32) -> (off: i64)
    ensures
        off == 10 * page as int,
{
    (page as i64) * 10
}

/// Builds the pagination triple for a resolved page: the page itself, the
/// page after it, and the page before it. The previous page is not clamped,
/// so page zero reports a previous page of minus one.
pub fn make_pagination(page: i32) -> (p: Pagination)
    requires
        0 <= page < i32::MAX,
    ensures
        p.page == page,
        p.next == page + 1,
        p.prev == page - 1,
{
    Pagination { page, next: page + 1, prev: page - 1 }
}

} // verus!
