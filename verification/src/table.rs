//! An employee table held in memory. It behaves as the relation says a store
//! must, so the service can be run and examined without a database.

use vstd::prelude::*;
use crate::db::StoreError;
use crate::models::{copy_employees, row_of, rows_of, CreateEmployee, Employee, Fields, Row};
use crate::relation::{ascending, Relation, MAX_ID};

verus! {

/// Whether some row of `rows` has this identifier.
spec fn holds(rows: Seq<Row>, id: int) -> bool {
    exists|i: int| 0 <= i < rows.len() && #[trigger] rows[i].id == id
}

/// Where the row with this identifier stands in `rows`.
spec fn slot(rows: Seq<Row>, id: int) -> int {
    choose|i: int| 0 <= i < rows.len() && #[trigger] rows[i].id == id
}

/// The columns of each row of `rows`, by identifier.
spec fn columns(rows: Seq<Row>) -> Map<int, Fields> {
    Map::new(|id: int| holds(rows, id), |id: int| rows[slot(rows, id)].fields)
}

/// In an ascending sequence a row is found where it stands.
proof fn lemma_slot(rows: Seq<Row>, i: int)
    requires
        ascending(rows),
        0 <= i < rows.len(),
    ensures
        holds(rows, rows[i].id),
        slot(rows, rows[i].id) == i,
        columns(rows).contains_key(rows[i].id),
        columns(rows)[rows[i].id] == rows[i].fields,
{
    let k = slot(rows, rows[i].id);
    assert(0 <= k < rows.len() && rows[k].id == rows[i].id);
    if k < i {
        assert(rows[k].id < rows[i].id);
    } else if i < k {
        assert(rows[i].id < rows[k].id);
    }
}

/// A row with a larger identifier than all others goes to the end.
proof fn lemma_push(rows: Seq<Row>, row: Row)
    requires
        ascending(rows),
        forall|i: int| 0 <= i < rows.len() ==> (#[trigger] rows[i]).id < row.id,
    ensures
        ascending(rows.push(row)),
        columns(rows.push(row)) == columns(rows).insert(row.id, row.fields),
{
    let after = rows.push(row);
    assert(ascending(after));
    assert forall|id: int| holds(after, id) <==> (holds(rows, id) || id == row.id) by {
        if holds(rows, id) {
            let k = slot(rows, id);
            assert(after[k].id == id);
        }
        if id == row.id {
            assert(after[rows.len() as int].id == id);
        }
        if holds(after, id) {
            let k = slot(after, id);
            if k < rows.len() {
                assert(rows[k].id == id);
            }
        }
    }
    assert forall|id: int| holds(after, id) implies #[trigger] columns(after)[id] == columns(
        rows,
    ).insert(row.id, row.fields)[id] by {
        let k = slot(after, id);
        lemma_slot(after, k);
        if k < rows.len() {
            assert(rows[k].id == id);
            lemma_slot(rows, k);
        }
    }
    assert(columns(after) =~= columns(rows).insert(row.id, row.fields));
}

/// Replacing the columns of the row at `k` replaces them under its identifier.
proof fn lemma_replace(rows: Seq<Row>, k: int, fields: Fields)
    requires
        ascending(rows),
        0 <= k < rows.len(),
    ensures
        ascending(rows.update(k, Row { id: rows[k].id, fields })),
        columns(rows.update(k, Row { id: rows[k].id, fields })) == columns(rows).insert(
            rows[k].id,
            fields,
        ),
{
    let after = rows.update(k, Row { id: rows[k].id, fields });
    assert(ascending(after)) by {
        assert forall|i: int, j: int| 0 <= i < j < after.len() implies after[i].id
            < after[j].id by {
            assert(after[i].id == rows[i].id);
            assert(after[j].id == rows[j].id);
        }
    }
    assert forall|id: int| holds(after, id) <==> holds(rows, id) by {
        if holds(rows, id) {
            let i = slot(rows, id);
            assert(after[i].id == id);
        }
        if holds(after, id) {
            let i = slot(after, id);
            assert(rows[i].id == id);
        }
    }
    lemma_slot(rows, k);
    assert forall|id: int| holds(after, id) implies #[trigger] columns(after)[id] == columns(
        rows,
    ).insert(rows[k].id, fields)[id] by {
        let i = slot(after, id);
        lemma_slot(after, i);
        assert(rows[i].id == id);
        lemma_slot(rows, i);
    }
    assert(columns(after) =~= columns(rows).insert(rows[k].id, fields));
}

/// Taking out the row at `k` takes out its identifier and no other.
proof fn lemma_remove(rows: Seq<Row>, k: int)
    requires
        ascending(rows),
        0 <= k < rows.len(),
    ensures
        ascending(rows.remove(k)),
        columns(rows.remove(k)) == columns(rows).remove(rows[k].id),
{
    let after = rows.remove(k);
    assert forall|i: int| 0 <= i < after.len() implies #[trigger] after[i] == rows[if i < k {
        i
    } else {
        i + 1
    }] by {}
    assert(ascending(after)) by {
        assert forall|i: int, j: int| 0 <= i < j < after.len() implies after[i].id
            < after[j].id by {
            let a = if i < k { i } else { i + 1 };
            let b = if j < k { j } else { j + 1 };
            assert(after[i] == rows[a]);
            assert(after[j] == rows[b]);
            assert(rows[a].id < rows[b].id);
        }
    }
    assert forall|id: int| holds(after, id) <==> (holds(rows, id) && id != rows[k].id) by {
        if holds(rows, id) && id != rows[k].id {
            let i = slot(rows, id);
            let a = if i < k { i } else { i - 1 };
            assert(after[a] == rows[i]);
            assert(after[a].id == id);
        }
        if holds(after, id) {
            let i = slot(after, id);
            let a = if i < k { i } else { i + 1 };
            assert(after[i] == rows[a]);
            assert(rows[a].id == id);
            if a < k {
                assert(rows[a].id < rows[k].id);
            } else {
                assert(rows[k].id < rows[a].id);
            }
        }
    }
    assert forall|id: int| holds(after, id) implies #[trigger] columns(after)[id] == columns(
        rows,
    )[id] by {
        let i = slot(after, id);
        lemma_slot(after, i);
        let a = if i < k { i } else { i + 1 };
        assert(after[i] == rows[a]);
        lemma_slot(rows, a);
    }
    assert(columns(after) =~= columns(rows).remove(rows[k].id));
}

/// The employees of a directory, kept in memory in ascending order of
/// identifier.
pub struct EmployeeTable {
    rows: Vec<Employee>,
    last_id: i32,
}

impl View for EmployeeTable {
    type V = Relation;

    closed spec fn view(&self) -> Relation {
        Relation { rows: columns(rows_of(self.rows@)), last_id: self.last_id as int }
    }
}

impl EmployeeTable {
    /// What holds of every table: the rows stand in strictly ascending order
    /// of identifier, and no identifier is above the one given out last.
    #[verifier::type_invariant]
    pub closed spec fn inv(self) -> bool {
        &&& 0 <= self.last_id
        &&& ascending(rows_of(self.rows@))
        &&& forall|i: int|
            0 <= i < self.rows.len() ==> 1 <= (#[trigger] self.rows[i]).id <= self.last_id
    }

    /// The relation that a table stands for is well formed.
    pub proof fn lemma_wf(self)
        requires
            self.inv(),
        ensures
            self@.wf(),
    {
        self.lemma_view();
    }

    /// The rows are the listing of the relation that the table stands for.
    proof fn lemma_view(self)
        requires
            self.inv(),
        ensures
            self@.wf(),
            self@.lists(rows_of(self.rows@)),
    {
        let rows = rows_of(self.rows@);
        assert forall|id: int| self@.rows.contains_key(id) implies 1 <= id <= self.last_id by {
            let k = slot(rows, id);
            assert(rows[k].id == self.rows[k].id);
        }
        assert forall|i: int| 0 <= i < rows.len() implies self@.get(#[trigger] rows[i].id)
            == Some(rows[i]) by {
            lemma_slot(rows, i);
        }
        assert forall|id: int| #[trigger] self@.contains(id) implies exists|i: int|
            0 <= i < rows.len() && #[trigger] rows[i].id == id by {
            let k = slot(rows, id);
            assert(rows[k].id == id);
        }
    }

    /// A table without records, which has given out no identifier yet.
    pub fn new() -> (table: Self)
        ensures
            table@ == Relation::empty(),
            table@.wf(),
    {
        let table = EmployeeTable { rows: Vec::new(), last_id: 0 };
        proof {
            assert(table@.rows =~= Map::<int, Fields>::empty());
        }
        table
    }

    /// A table without records that has given out the identifiers up to
    /// `last_id` before, as one whose records were all deleted has. A negative
    /// `last_id` counts as 0.
    pub fn resuming(last_id: i32) -> (table: Self)
        ensures
            table@ == (Relation {
                rows: Map::empty(),
                last_id: if last_id < 0 {
                    0
                } else {
                    last_id as int
                },
            }),
            table@.wf(),
    {
        let table = EmployeeTable { rows: Vec::new(), last_id: if last_id < 0 {
            0
        } else {
            last_id
        } };
        proof {
            assert(table@.rows =~= Map::<int, Fields>::empty());
        }
        table
    }

    /// The place of the first row whose identifier is not below `id`.
    fn position(&self, id: i32) -> (k: usize)
        ensures
            k <= self.rows.len(),
            forall|i: int| 0 <= i < k ==> (#[trigger] self.rows[i]).id < id,
            forall|i: int| k <= i < self.rows.len() ==> (#[trigger] self.rows[i]).id >= id,
    {
        proof {
            use_type_invariant(self);
        }
        let mut low: usize = 0;
        let mut high: usize = self.rows.len();
        while low < high
            invariant
                low <= high <= self.rows.len(),
                ascending(rows_of(self.rows@)),
                forall|i: int| 0 <= i < low ==> (#[trigger] self.rows[i]).id < id,
                forall|i: int| high <= i < self.rows.len() ==> (#[trigger] self.rows[i]).id >= id,
            decreases high - low,
        {
            let mid: usize = low + (high - low) / 2;
            if self.rows[mid].id < id {
                proof {
                    assert forall|i: int| 0 <= i < mid + 1 implies (#[trigger] self.rows[i]).id
                        < id by {
                        if i < mid {
                            assert(rows_of(self.rows@)[i].id < rows_of(self.rows@)[mid as int].id);
                        }
                    }
                }
                low = mid + 1;
            } else {
                proof {
                    assert forall|i: int| mid <= i < self.rows.len() implies (
                    #[trigger] self.rows[i]).id >= id by {
                        if mid < i {
                            assert(rows_of(self.rows@)[mid as int].id < rows_of(self.rows@)[i].id);
                        }
                    }
                }
                high = mid;
            }
        }
        low
    }

    /// Where the row with this identifier stands, if there is one.
    fn find(&self, id: i32) -> (place: Option<usize>)
        ensures
            match place {
                Some(k) => k < self.rows.len() && self.rows[k as int].id == id,
                None => !self@.contains(id as int),
            },
    {
        proof {
            use_type_invariant(self);
        }
        let k = self.position(id);
        if k < self.rows.len() && self.rows[k].id == id {
            Some(k)
        } else {
            proof {
                let rows = rows_of(self.rows@);
                if holds(rows, id as int) {
                    let i = slot(rows, id as int);
                    assert(self.rows[i].id == id);
                    if k < i {
                        assert(rows[k as int].id < rows[i].id);
                    }
                }
            }
            None
        }
    }

    /// Every record, in ascending order of identifier.
    pub fn list_all(&self) -> (listing: Vec<Employee>)
        ensures
            rows_of(listing@) == self@.listing(),
    {
        proof {
            use_type_invariant(self);
            self.lemma_view();
            self@.lemma_listing();
            self@.lemma_listing_unique(rows_of(self.rows@), self@.listing());
        }
        copy_employees(&self.rows)
    }

    /// The record with this identifier, if there is one.
    pub fn get_by_id(&self, id: i32) -> (found: Option<Employee>)
        ensures
            row_of(found) == self@.get(id as int),
    {
        proof {
            use_type_invariant(self);
            self.lemma_view();
        }
        match self.find(id) {
            Some(k) => {
                proof {
                    lemma_slot(rows_of(self.rows@), k as int);
                }
                Some(self.rows[k].clone())
            },
            None => None,
        }
    }

    /// Creates a record with these columns under the next identifier and
    /// answers with it as stored. Fails, and changes nothing, once the
    /// largest identifier has been given out.
    pub fn insert(&mut self, fields: CreateEmployee) -> (created: Result<Employee, StoreError>)
        ensures
            old(self)@.has_room() ==> final(self)@ == old(self)@.insert(fields@) && (
            created matches Ok(e) && e@ == Row { id: old(self)@.next_id(), fields: fields@ }),
            !old(self)@.has_room() ==> final(self)@ == old(self)@ && (created matches Err(e) && e
                == StoreError::IdentifiersExhausted),
            final(self)@.wf(),
    {
        proof {
            use_type_invariant(&*self);
            self.lemma_view();
        }
        if self.last_id >= MAX_ID {
            return Err(StoreError::IdentifiersExhausted);
        }
        let id: i32 = self.last_id + 1;
        let stored = Employee::with_id(id, fields);
        let answer = stored.clone();
        let mut rows: Vec<Employee> = Vec::new();
        std::mem::swap(&mut rows, &mut self.rows);
        proof {
            lemma_push(rows_of(rows@), stored@);
            assert(rows_of(rows@.push(stored)) =~= rows_of(rows@).push(stored@));
        }
        rows.push(stored);
        self.last_id = id;
        self.rows = rows;
        proof {
            self.lemma_view();
        }
        Ok(answer)
    }

    /// Replaces all three columns of the record with this identifier and
    /// answers with the record as it now stands, or with `None`, having
    /// changed nothing, where no record has the identifier.
    pub fn update_by_id(&mut self, id: i32, fields: CreateEmployee) -> (updated: Option<Employee>)
        ensures
            final(self)@ == old(self)@.update(id as int, fields@),
            row_of(updated) == (if old(self)@.contains(id as int) {
                Some(Row { id: id as int, fields: fields@ })
            } else {
                None
            }),
            final(self)@.wf(),
    {
        proof {
            use_type_invariant(&*self);
            self.lemma_view();
        }
        if let Some(k) = self.find(id) {
            let stored = Employee::with_id(id, fields);
            let answer = stored.clone();
            let mut rows: Vec<Employee> = Vec::new();
            std::mem::swap(&mut rows, &mut self.rows);
            proof {
                let before = rows_of(rows@);
                lemma_slot(before, k as int);
                lemma_replace(before, k as int, fields@);
                assert(rows_of(rows@.update(k as int, stored)) =~= before.update(
                    k as int,
                    stored@,
                ));
            }
            rows.set(k, stored);
            self.rows = rows;
            proof {
                self.lemma_view();
            }
            Some(answer)
        } else {
            None
        }
    }

    /// Deletes the record with this identifier and answers with the number of
    /// records that went: 1, or 0 where no record has the identifier.
    pub fn delete_by_id(&mut self, id: i32) -> (affected: u64)
        ensures
            final(self)@ == old(self)@.delete(id as int),
            affected == old(self)@.affected(id as int),
            final(self)@.wf(),
    {
        proof {
            use_type_invariant(&*self);
            self.lemma_view();
        }
        if let Some(k) = self.find(id) {
            let mut rows: Vec<Employee> = Vec::new();
            std::mem::swap(&mut rows, &mut self.rows);
            proof {
                let before = rows_of(rows@);
                lemma_slot(before, k as int);
                lemma_remove(before, k as int);
                assert(rows_of(rows@.remove(k as int)) =~= before.remove(k as int));
            }
            let _ = rows.remove(k);
            self.rows = rows;
            proof {
                self.lemma_view();
            }
            1
        } else {
            proof {
                assert(self@.rows.remove(id as int) =~= self@.rows);
            }
            0
        }
    }
}

} // verus!
