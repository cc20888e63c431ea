//! The employee relation as a mathematical object: which identifiers are in
//! use, what each one holds, and which identifier was given out last.
//!
//! Every operation of the store is a function from one relation to the next.
//! The service expects this behaviour of whatever store stands behind it.

use vstd::prelude::*;
use crate::models::{Fields, Row};

verus! {

/// The largest identifier that a record can have.
pub const MAX_ID: i32 = 2147483647;

/// The state of the employee relation.
#[verifier::ext_equal]
pub struct Relation {
    /// The columns of each record, by identifier.
    pub rows: Map<int, Fields>,
    /// The identifier given to the record created last, 0 before the first.
    pub last_id: int,
}

impl Relation {
    /// Identifiers are positive, and none in use is larger than the one given
    /// out last.
    pub open spec fn wf(self) -> bool {
        &&& 0 <= self.last_id <= MAX_ID
        &&& forall|id: int| self.rows.contains_key(id) ==> 1 <= id <= self.last_id
    }

    /// The relation before any record was created.
    pub open spec fn empty() -> Relation {
        Relation { rows: Map::empty(), last_id: 0 }
    }

    /// Whether a record has this identifier.
    pub open spec fn contains(self, id: int) -> bool {
        self.rows.contains_key(id)
    }

    /// The record with this identifier, if there is one.
    pub open spec fn get(self, id: int) -> Option<Row> {
        if self.contains(id) {
            Some(Row { id, fields: self.rows[id] })
        } else {
            None
        }
    }

    /// Whether an identifier is left for one more record.
    pub open spec fn has_room(self) -> bool {
        self.last_id < MAX_ID
    }

    /// The identifier that the next record gets.
    pub open spec fn next_id(self) -> int {
        self.last_id + 1
    }

    /// The relation after a record with these columns was created.
    pub open spec fn insert(self, fields: Fields) -> Relation {
        Relation { rows: self.rows.insert(self.next_id(), fields), last_id: self.next_id() }
    }

    /// The relation after the record with this identifier had all three
    /// columns replaced. Without such a record nothing changes.
    pub open spec fn update(self, id: int, fields: Fields) -> Relation {
        if self.contains(id) {
            Relation { rows: self.rows.insert(id, fields), last_id: self.last_id }
        } else {
            self
        }
    }

    /// How many records a delete of this identifier removes.
    pub open spec fn affected(self, id: int) -> nat {
        if self.contains(id) {
            1
        } else {
            0
        }
    }

    /// The relation after the record with this identifier was deleted. The
    /// identifier is not given out again.
    pub open spec fn delete(self, id: int) -> Relation {
        Relation { rows: self.rows.remove(id), last_id: self.last_id }
    }

    /// Whether `listing` holds every record of the relation once, in
    /// ascending order of identifier.
    pub open spec fn lists(self, listing: Seq<Row>) -> bool {
        &&& ascending(listing)
        &&& forall|i: int|
            0 <= i < listing.len() ==> self.get(#[trigger] listing[i].id) == Some(listing[i])
        &&& forall|id: int| #[trigger]
            self.contains(id) ==> exists|i: int|
                0 <= i < listing.len() && #[trigger] listing[i].id == id
    }

    /// The records with identifiers from 1 to `bound`, in ascending order of
    /// identifier.
    pub open spec fn listing_to(self, bound: int) -> Seq<Row>
        decreases bound,
    {
        if bound <= 0 {
            Seq::empty()
        } else if self.contains(bound) {
            self.listing_to(bound - 1).push(Row { id: bound, fields: self.rows[bound] })
        } else {
            self.listing_to(bound - 1)
        }
    }

    /// Every record, in ascending order of identifier: what a query for all
    /// employees returns.
    pub open spec fn listing(self) -> Seq<Row> {
        self.listing_to(self.last_id)
    }

    /// `listing_to` holds exactly the records with identifiers from 1 to
    /// `bound`, each once and in ascending order.
    pub proof fn lemma_listing_to(self, bound: int)
        ensures
            ascending(self.listing_to(bound)),
            forall|i: int|
                0 <= i < self.listing_to(bound).len() ==> {
                    &&& 1 <= (#[trigger] self.listing_to(bound)[i]).id <= bound
                    &&& self.get(self.listing_to(bound)[i].id) == Some(self.listing_to(bound)[i])
                },
            forall|id: int|
                1 <= id <= bound && #[trigger] self.contains(id) ==> exists|i: int|
                    0 <= i < self.listing_to(bound).len() && #[trigger] self.listing_to(
                        bound,
                    )[i].id == id,
        decreases bound,
    {
        if bound > 0 {
            self.lemma_listing_to(bound - 1);
            let before = self.listing_to(bound - 1);
            let now = self.listing_to(bound);
            assert forall|id: int| 1 <= id <= bound && #[trigger] self.contains(id) implies exists|
                i: int,
            |
                0 <= i < now.len() && #[trigger] now[i].id == id by {
                if id == bound {
                    assert(now[before.len() as int].id == id);
                } else {
                    let i = choose|i: int| 0 <= i < before.len() && #[trigger] before[i].id == id;
                    assert(now[i].id == id);
                }
            }
        }
    }

    /// The listing of a well-formed relation holds every record once, in
    /// strictly ascending order of identifier.
    pub proof fn lemma_listing(self)
        requires
            self.wf(),
        ensures
            self.lists(self.listing()),
    {
        self.lemma_listing_to(self.last_id);
    }

    /// A relation has one listing: two sequences that both hold every record
    /// once in ascending order are the same sequence.
    pub proof fn lemma_listing_unique(self, a: Seq<Row>, b: Seq<Row>)
        requires
            self.lists(a),
            self.lists(b),
        ensures
            a == b,
        decreases a.len(),
    {
        if a.len() == 0 {
            // An empty listing means a relation without records, so `b` has no row either.
            if b.len() > 0 {
                assert(self.contains(b[0].id));
            }
            assert(a =~= b);
        } else {
            // The last row of a listing is the record with the largest identifier.
            let top = a.last();
            assert(self.contains(top.id));
            let j = choose|j: int| 0 <= j < b.len() && #[trigger] b[j].id == top.id;
            assert(self.contains(b.last().id));
            let i = choose|i: int| 0 <= i < a.len() && #[trigger] a[i].id == b.last().id;
            assert(b.last() == top);
            // What stands before it lists the relation without that record.
            let rest = self.delete(top.id);
            lemma_all_but_last(self, a);
            lemma_all_but_last(self, b);
            rest.lemma_listing_unique(a.drop_last(), b.drop_last());
            assert(a =~= a.drop_last().push(top));
            assert(b =~= b.drop_last().push(top));
        }
    }
}

/// Without its last row, a listing lists the relation without that record.
proof fn lemma_all_but_last(relation: Relation, listing: Seq<Row>)
    requires
        relation.lists(listing),
        listing.len() > 0,
    ensures
        relation.delete(listing.last().id).lists(listing.drop_last()),
{
    let rest = relation.delete(listing.last().id);
    let front = listing.drop_last();
    assert forall|i: int| 0 <= i < front.len() implies rest.get(#[trigger] front[i].id) == Some(
        front[i],
    ) by {}
    assert forall|id: int| #[trigger] rest.contains(id) implies exists|i: int|
        0 <= i < front.len() && #[trigger] front[i].id == id by {
        assert(relation.contains(id));
        let i = choose|i: int| 0 <= i < listing.len() && #[trigger] listing[i].id == id;
        assert(front[i].id == id);
    }
}

/// Whether the identifiers of `listing` grow strictly from each row to the
/// next.
pub open spec fn ascending(listing: Seq<Row>) -> bool {
    forall|i: int, j: int| 0 <= i < j < listing.len() ==> listing[i].id < listing[j].id
}

} // verus!
