//! The staff store's semantics: records, the table they live in, and the
//! three operations issued against it — insert a record, fetch one record
//! by identity, fetch a page of ten ordered by most recent update.

use vstd::prelude::*;
use crate::errors::StaffError;

verus! {

/// The five editable fields of a staff record; all of them optional, with
/// no format validation beyond their type.
#[derive(Debug)]
pub struct StaffFields {
    pub first_name: Option<String>,
    pub last_name: Option<String>,
    pub email: Option<String>,
    pub username: Option<String>,
    pub password: Option<String>,
}

/// One staff record, with its store-assigned identity.
#[derive(Debug)]
pub struct Staff {
    pub staff_id: i32,
    pub first_name: Option<String>,
    pub last_name: Option<String>,
    pub email: Option<String>,
    pub username: Option<String>,
    pub password: Option<String>,
}

/// One row of the staff table: a record together with the moment it was
/// last updated, the table's sort key.
pub struct StaffRow {
    pub staff: Staff,
    pub last_update: u64,
}

/// Mathematical image of `StaffFields`: each text field as a character
/// sequence.
pub struct StaffFieldsV {
    pub first_name: Option<Seq<char>>,
    pub last_name: Option<Seq<char>>,
    pub email: Option<Seq<char>>,
    pub username: Option<Seq<char>>,
    pub password: Option<Seq<char>>,
}

/// Mathematical image of `Staff`.
pub struct StaffV {
    pub staff_id: i32,
    pub first_name: Option<Seq<char>>,
    pub last_name: Option<Seq<char>>,
    pub email: Option<Seq<char>>,
    pub username: Option<Seq<char>>,
    pub password: Option<Seq<char>>,
}

/// Mathematical image of `StaffRow`.
pub struct StaffRowV {
    pub staff: StaffV,
    pub last_update: u64,
}

impl DeepView for StaffFields {
    type V = StaffFieldsV;

    open spec fn deep_view(&self) -> StaffFieldsV {
        StaffFieldsV {
            first_name: self.first_name.deep_view(),
            last_name: self.last_name.deep_view(),
            email: self.email.deep_view(),
            username: self.username.deep_view(),
            password: self.password.deep_view(),
        }
    }
}

impl DeepView for Staff {
    type V = StaffV;

    open spec fn deep_view(&self) -> StaffV {
        StaffV {
            staff_id: self.staff_id,
            first_name: self.first_name.deep_view(),
            last_name: self.last_name.deep_view(),
            email: self.email.deep_view(),
            username: self.username.deep_view(),
            password: self.password.deep_view(),
        }
    }
}

impl DeepView for StaffRow {
    type V = StaffRowV;

    open spec fn deep_view(&self) -> StaffRowV {
        StaffRowV { staff: self.staff.deep_view(), last_update: self.last_update }
    }
}

/// The record that inserting `f` under identity `id` stores.
pub open spec fn staff_of_fields(f: StaffFieldsV, id: i32) -> StaffV {
    StaffV {
        staff_id: id,
        first_name: f.first_name,
        last_name: f.last_name,
        email: f.email,
        username: f.username,
        password: f.password,
    }
}

/// Rows stand in order of their last update, most recent first.
pub open spec fn sorted_by_update_desc(rows: Seq<StaffRowV>) -> bool {
    forall|i: int, j: int|
        0 <= i <= j < rows.len() ==> rows[i].last_update >= rows[j].last_update
}

/// No two rows share an identity.
pub open spec fn unique_ids(rows: Seq<StaffRowV>) -> bool {
    forall|i: int, j: int|
        0 <= i < j < rows.len() ==> rows[i].staff.staff_id != rows[j].staff.staff_id
}

/// Every identity was assigned: at least one, and below the next to assign.
pub open spec fn ids_assigned_below(rows: Seq<StaffRowV>, bound: int) -> bool {
    forall|i: int| 0 <= i < rows.len() ==> 1 <= #[trigger] rows[i].staff.staff_id < bound
}

/// `post` is `pre` with `row` inserted at one position.
pub open spec fn inserted_row(pre: Seq<StaffRowV>, post: Seq<StaffRowV>, row: StaffRowV) -> bool {
    exists|k: int| 0 <= k <= pre.len() && post =~= pre.insert(k, row)
}

/// The first record among `rows` carrying identity `id`, if any. With
/// unique identities it is the only one.
pub open spec fn lookup(rows: Seq<StaffRowV>, id: i32) -> Option<StaffV>
    decreases rows.len(),
{
    if rows.len() == 0 {
        None
    } else if rows[0].staff.staff_id == id {
        Some(rows[0].staff)
    } else {
        lookup(rows.drop_first(), id)
    }
}

/// The staff table. Its rows are kept ordered by last update, most recent
/// first, and identities are assigned by the table itself, in order.
pub struct StaffTable {
    rows: Vec<StaffRow>,
    next_id: i32,
}

impl View for StaffTable {
    type V = Seq<StaffRowV>;

    closed spec fn view(&self) -> Seq<StaffRowV> {
        self.rows.deep_view()
    }
}

impl StaffTable {
    /// The identity the next inserted record receives.
    pub closed spec fn spec_next_id(self) -> int {
        self.next_id as int
    }

    /// The table's invariant: rows sorted by last update descending,
    /// identities unique and assigned below the next one.
    pub open spec fn inv(self) -> bool {
        &&& sorted_by_update_desc(self@)
        &&& unique_ids(self@)
        &&& ids_assigned_below(self@, self.spec_next_id())
        &&& 1 <= self.spec_next_id() <= i32::MAX as int
    }

    /// An empty table, about to assign identity one.
    pub fn new() -> (t: StaffTable)
        ensures
            t.inv(),
            t@.len() == 0,
            t.spec_next_id() == 1,
    {
        let t = StaffTable { rows: Vec::new(), next_id: 1 };
        proof {
            assert(t@ =~= Seq::<StaffRowV>::empty());
        }
        t
    }

    /// Inserts a record built from `f`, stamped `last_update`, and returns
    /// the identity the table assigned to it. Fails only when the table has
    /// run out of identities to assign.
    pub fn insert_staff(&mut self, f: StaffFields, last_update: u64) -> (r: Result<
        i32,
        StaffError,
    >)
        requires
            old(self).inv(),
        ensures
            final(self).inv(),
            (r matches Ok(id)) <==> old(self).spec_next_id() < i32::MAX as int,
            r matches Err(e) ==> e == StaffError::StoreError && *final(self) == *old(self),
            r matches Ok(id) ==> ({
                &&& id as int == old(self).spec_next_id()
                &&& final(self).spec_next_id() == id as int + 1
                &&& inserted_row(
                    old(self)@,
                    final(self)@,
                    StaffRowV { staff: staff_of_fields(f.deep_view(), id), last_update },
                )
                &&& lookup(final(self)@, id) == Some(staff_of_fields(f.deep_view(), id))
            }),
    {
        if self.next_id == i32::MAX {
            return Err(StaffError::StoreError);
        }
        let id = self.next_id;
        let row = StaffRow {
            staff: Staff {
                staff_id: id,
                first_name: f.first_name,
                last_name: f.last_name,
                email: f.email,
                username: f.username,
                password: f.password,
            },
            last_update,
        };
        let ghost rowv = row.deep_view();
        let ghost pre = self@;
        let mut pos: usize = 0;
        while pos < self.rows.len() && self.rows[pos].last_update > last_update
            invariant
                0 <= pos <= self.rows.len(),
                self@ == pre,
                forall|k: int| 0 <= k < pos ==> pre[k].last_update > last_update,
            decreases self.rows.len() - pos,
        {
            pos += 1;
        }
        proof {
            assert(self@.len() == self.rows@.len());
        }
        self.rows.insert(pos, row);
        self.next_id = id + 1;
        proof {
            assert(self@ =~= pre.insert(pos as int, rowv));
            lemma_lookup_insert(pre, pos as int, rowv);
            assert(sorted_by_update_desc(self@)) by {
                assert(forall|k: int| 0 <= k < pos ==> self@[k] == pre[k]);
                assert(forall|k: int| pos < k < self@.len() ==> self@[k] == pre[k - 1]);
                assert(self@[pos as int] == rowv);
            }
        }
        Ok(id)
    }
}

/// The smaller of two integers.
pub open spec fn spec_min(a: int, b: int) -> int {
    if a < b {
        a
    } else {
        b
    }
}

/// The page of records starting at row `offset`: at most ten of the rows'
/// records, in the rows' own order.
pub open spec fn page_slice(rows: Seq<StaffRowV>, offset: int) -> Seq<StaffV> {
    let start = spec_min(offset, rows.len() as int);
    let end = spec_min(offset + 10, rows.len() as int);
    rows.subrange(start, end).map_values(|r: StaffRowV| r.staff)
}

fn clone_opt_string(s: &Option<String>) -> (r: Option<String>)
    ensures
        r.deep_view() == s.deep_view(),
{
    match s {
        Option::Some(x) => Option::Some(x.clone()),
        Option::None => Option::None,
    }
}

impl Clone for Staff {
    /// A copy of the record, field for field.
    fn clone(&self) -> (r: Staff)
        ensures
            r.deep_view() == self.deep_view(),
    {
        Staff {
            staff_id: self.staff_id,
            first_name: clone_opt_string(&self.first_name),
            last_name: clone_opt_string(&self.last_name),
            email: clone_opt_string(&self.email),
            username: clone_opt_string(&self.username),
            password: clone_opt_string(&self.password),
        }
    }
}

impl StaffTable {
    /// Fetches the one record carrying identity `staff_id`, or nothing
    /// when no record does.
    pub fn fetch_one(&self, staff_id: i32) -> (r: Option<Staff>)
        requires
            self.inv(),
        ensures
            r.deep_view() == lookup(self@, staff_id),
    {
        let mut i: usize = 0;
        proof {
            assert(self@.subrange(0, self@.len() as int) =~= self@);
        }
        while i < self.rows.len()
            invariant
                0 <= i <= self.rows.len(),
                self@.len() == self.rows@.len(),
                lookup(self@, staff_id) == lookup(self@.subrange(i as int, self@.len() as int), staff_id),
                forall|k: int| 0 <= k < self@.len() ==> self@[k] == #[trigger] self.rows@[k].deep_view(),
            decreases self.rows.len() - i,
        {
            let ghost rest = self@.subrange(i as int, self@.len() as int);
            if self.rows[i].staff.staff_id == staff_id {
                let found = self.rows[i].staff.clone();
                proof {
                    assert(rest[0] == self@[i as int]);
                }
                return Some(found);
            }
            proof {
                assert(rest.drop_first() =~= self@.subrange(i + 1, self@.len() as int));
                assert(rest[0] == self@[i as int]);
            }
            i += 1;
        }
        proof {
            assert(self@.subrange(i as int, self@.len() as int).len() == 0);
        }
        None
    }

    /// Fetches the page of records starting at row `offset`: at most ten,
    /// ordered by most recent update first, as the table's rows are.
    pub fn fetch_page(&self, offset: i64) -> (r: Vec<Staff>)
        requires
            self.inv(),
            0 <= offset,
        ensures
            r.deep_view() == page_slice(self@, offset as int),
            r@.len() <= 10,
    {
        let len = self.rows.len();
        let start: usize = if offset as u64 >= len as u64 {
            len
        } else {
            offset as usize
        };
        let mut out: Vec<Staff> = Vec::new();
        let mut i: usize = start;
        while i < len && out.len() < 10
            invariant
                start <= i <= len,
                len == self.rows@.len(),
                0 <= offset,
                start as int == spec_min(offset as int, len as int),
                self@.len() == self.rows@.len(),
                i - start == out@.len(),
                out@.len() <= 10,
                forall|k: int| 0 <= k < self@.len() ==> self@[k] == #[trigger] self.rows@[k].deep_view(),
                out.deep_view() =~= self@.subrange(start as int, i as int).map_values(
                    |r: StaffRowV| r.staff,
                ),
            decreases len - i,
        {
            out.push(self.rows[i].staff.clone());
            i += 1;
            proof {
                let s1 = self@.subrange(start as int, i - 1).map_values(|r: StaffRowV| r.staff);
                let s2 = self@.subrange(start as int, i as int).map_values(|r: StaffRowV| r.staff);
                assert(self@.subrange(start as int, i as int).drop_last() =~= self@.subrange(
                    start as int,
                    i - 1,
                ));
                assert(s2 =~= s1.push(self@[i - 1].staff));
                assert(out.deep_view() =~= s2);
            }
        }
        proof {
            assert(out.deep_view() =~= page_slice(self@, offset as int));
        }
        out
    }
}

/// A fetched page lists records most recently updated first: the page is
/// the slice of the table's rows starting at `offset`, and rows earlier in
/// the table were updated no earlier than rows after them.
pub proof fn lemma_fetch_page_ordered(t: StaffTable, offset: int)
    requires
        t.inv(),
        0 <= offset,
    ensures
        forall|i: int, j: int|
            spec_min(offset, t@.len() as int) <= i <= j < spec_min(offset + 10, t@.len() as int)
                ==> #[trigger] t@[i].last_update >= #[trigger] t@[j].last_update,
        forall|k: int|
            0 <= k < page_slice(t@, offset).len() ==> #[trigger] page_slice(t@, offset)[k]
                == t@[k + spec_min(offset, t@.len() as int)].staff,
{
}

/// A lookup finds a record exactly when some row carries the identity —
/// a miss means no such row, never an empty stand-in — and the record it
/// finds carries the identity it was asked for.
pub proof fn lemma_lookup_characterised(rows: Seq<StaffRowV>, id: i32)
    ensures
        (lookup(rows, id) is Some) <==> exists|i: int|
            0 <= i < rows.len() && (#[trigger] rows[i].staff.staff_id) == id,
        lookup(rows, id) matches Some(s) ==> s.staff_id == id && exists|i: int|
            0 <= i < rows.len() && (#[trigger] rows[i].staff) == s,
    decreases rows.len(),
{
    if rows.len() > 0 && rows[0].staff.staff_id != id {
        let tail = rows.drop_first();
        lemma_lookup_characterised(tail, id);
        assert(forall|i: int| 0 <= i < tail.len() ==> #[trigger] tail[i] == rows[i + 1]);
        if exists|i: int| 0 <= i < rows.len() && (#[trigger] rows[i].staff.staff_id) == id {
            let w = choose|i: int| 0 <= i < rows.len() && (#[trigger] rows[i].staff.staff_id)
                == id;
            assert(tail[w - 1].staff.staff_id == id);
        }
        if lookup(rows, id) is Some {
            let s = lookup(rows, id)->Some_0;
            let w = choose|i: int| 0 <= i < tail.len() && (#[trigger] tail[i].staff) == s;
            assert(rows[w + 1].staff == s);
        }
    }
}

/// Round trip: after an insert that assigned identity `id`, a single
/// lookup of `id` yields exactly the inserted fields under that identity.
pub proof fn lemma_insert_round_trip(
    pre: StaffTable,
    post: StaffTable,
    f: StaffFields,
    last_update: u64,
    id: i32,
)
    requires
        pre.inv(),
        id as int == pre.spec_next_id(),
        inserted_row(
            pre@,
            post@,
            StaffRowV { staff: staff_of_fields(f.deep_view(), id), last_update },
        ),
    ensures
        lookup(post@, id) == Some(staff_of_fields(f.deep_view(), id)),
{
    let row = StaffRowV { staff: staff_of_fields(f.deep_view(), id), last_update };
    let k = choose|k: int| 0 <= k <= pre@.len() && post@ =~= pre@.insert(k, row);
    lemma_lookup_insert(pre@, k, row);
}

/// Looking an identity up after inserting a row carrying it finds that row,
/// provided no other row carries the identity.
pub proof fn lemma_lookup_insert(rows: Seq<StaffRowV>, k: int, row: StaffRowV)
    requires
        0 <= k <= rows.len(),
        forall|i: int| 0 <= i < rows.len() ==> rows[i].staff.staff_id != row.staff.staff_id,
    ensures
        lookup(rows.insert(k, row), row.staff.staff_id) == Some(row.staff),
    decreases k,
{
    let post = rows.insert(k, row);
    if k == 0 {
        assert(post[0] == row);
    } else {
        assert(post[0] == rows[0]);
        assert(post.drop_first() =~= rows.drop_first().insert(k - 1, row));
        lemma_lookup_insert(rows.drop_first(), k - 1, row);
    }
}

} // verus!
