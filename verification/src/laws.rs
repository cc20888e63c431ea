//! What holds of the service whatever the requests are. Each law is stated
//! over the relation and over the responses that the service gives, and is
//! proved from their definitions.

use vstd::prelude::*;
use crate::db::StoreError;
use crate::handlers::employee_handler::{
    spec_delete_employee,
    spec_get_employee_by_id,
    spec_list_employees,
    spec_update_employee,
};
use crate::models::{Fields, Row};
use crate::relation::{ascending, Relation};
use crate::response::{BodyView, ResponseView};
use crate::service::{insert_outcome, next_relation, response_to, RequestView};
use crate::status::Status;

verus! {

/// The relation after a store that works has served these requests one after
/// the other.
pub open spec fn after_all(relation: Relation, requests: Seq<RequestView>) -> Relation
    decreases requests.len(),
{
    if requests.len() == 0 {
        relation
    } else {
        next_relation(after_all(relation, requests.drop_last()), requests.last())
    }
}

/// No request takes a well-formed relation to one that is not.
pub proof fn law_requests_keep_well_formed(relation: Relation, request: RequestView)
    requires
        relation.wf(),
    ensures
        next_relation(relation, request).wf(),
{
}

/// A record that was created is found under the identifier it was given, with
/// the columns it was created with: the create answers 200 with the record,
/// and a read of its identifier right after answers 200 with the same record.
/// Where no identifier is left, the create answers 500 and changes nothing.
pub proof fn law_created_is_found(relation: Relation, fields: Fields)
    ensures
        match insert_outcome(relation, fields) {
            Ok(row) => {
                &&& row.fields == fields
                &&& response_to(relation, RequestView::Create(fields)) == ResponseView::employee(
                    Some(row),
                )
                &&& next_relation(relation, RequestView::Create(fields)).get(row.id) == Some(row)
                &&& response_to(
                    next_relation(relation, RequestView::Create(fields)),
                    RequestView::Get(row.id),
                ) == ResponseView::employee(Some(row))
            },
            Err(_) => {
                &&& response_to(relation, RequestView::Create(fields)) == ResponseView::bare(
                    Status::InternalServerError,
                )
                &&& next_relation(relation, RequestView::Create(fields)) == relation
            },
        },
{
}

/// A new record gets an identifier that no record has, and creating it
/// leaves every other record as it was.
pub proof fn law_created_is_new(relation: Relation, fields: Fields, other: int)
    requires
        relation.wf(),
        relation.has_room(),
    ensures
        !relation.contains(relation.next_id()),
        other != relation.next_id() ==> relation.insert(fields).get(other) == relation.get(other),
{
}

/// After a delete the identifier resolves to no record: the delete answers
/// 204 where there was a record and 404 where there was none, a read right
/// after answers 200 with `null`, and a second delete removes nothing,
/// answers 404 and changes nothing.
pub proof fn law_deleted_is_gone(relation: Relation, id: int)
    ensures
        response_to(relation, RequestView::Delete(id)) == ResponseView::bare(
            if relation.contains(id) {
                Status::NoContent
            } else {
                Status::NotFound
            },
        ),
        next_relation(relation, RequestView::Delete(id)).get(id) == None::<Row>,
        response_to(next_relation(relation, RequestView::Delete(id)), RequestView::Get(id))
            == ResponseView::employee(None),
        next_relation(relation, RequestView::Delete(id)).affected(id) == 0,
        response_to(next_relation(relation, RequestView::Delete(id)), RequestView::Delete(id))
            == ResponseView::bare(Status::NotFound),
        next_relation(next_relation(relation, RequestView::Delete(id)), RequestView::Delete(id))
            == next_relation(relation, RequestView::Delete(id)),
{
    let after = relation.delete(id);
    assert(after.rows.remove(id) =~= after.rows);
}

/// A delete leaves every other record as it was.
pub proof fn law_delete_spares_others(relation: Relation, id: int, other: int)
    requires
        other != id,
    ensures
        relation.delete(id).get(other) == relation.get(other),
{
}

/// An update replaces all three columns: the update of a record answers 200
/// with the identifier and exactly the columns of the request, and a read
/// right after answers 200 with the same. Nothing of the earlier columns is
/// kept, an absent column included.
pub proof fn law_update_replaces(relation: Relation, id: int, fields: Fields)
    requires
        relation.contains(id),
    ensures
        response_to(relation, RequestView::Update(id, fields)) == ResponseView::employee(
            Some(Row { id, fields }),
        ),
        next_relation(relation, RequestView::Update(id, fields)).get(id) == Some(
            Row { id, fields },
        ),
        response_to(
            next_relation(relation, RequestView::Update(id, fields)),
            RequestView::Get(id),
        ) == ResponseView::employee(Some(Row { id, fields })),
{
}

/// An update leaves every other record as it was, and gives out no
/// identifier.
pub proof fn law_update_spares_others(relation: Relation, id: int, fields: Fields, other: int)
    requires
        other != id,
    ensures
        relation.update(id, fields).get(other) == relation.get(other),
        relation.update(id, fields).last_id == relation.last_id,
{
}

/// The answer to a request for all employees is 200 with every record once,
/// in strictly ascending order of identifier.
pub proof fn law_listing_ascends(relation: Relation)
    requires
        relation.wf(),
    ensures
        response_to(relation, RequestView::List) == ResponseView::employees(relation.listing()),
        ascending(relation.listing()),
        relation.lists(relation.listing()),
{
    relation.lemma_listing();
}

/// Whatever requests were served since the relation was empty, and in
/// whatever order, the listing is in strictly ascending order of identifier
/// and holds every record once.
pub proof fn law_listing_ascends_after_any_requests(requests: Seq<RequestView>)
    ensures
        after_all(Relation::empty(), requests).wf(),
        ascending(after_all(Relation::empty(), requests).listing()),
        after_all(Relation::empty(), requests).lists(
            after_all(Relation::empty(), requests).listing(),
        ),
    decreases requests.len(),
{
    if requests.len() > 0 {
        law_listing_ascends_after_any_requests(requests.drop_last());
        law_requests_keep_well_formed(
            after_all(Relation::empty(), requests.drop_last()),
            requests.last(),
        );
    }
    after_all(Relation::empty(), requests).lemma_listing();
}

/// A new record goes to the end of the listing, and the rows before it stay
/// as they were.
pub proof fn law_created_is_listed_last(relation: Relation, fields: Fields)
    requires
        relation.wf(),
        relation.has_room(),
    ensures
        relation.insert(fields).listing() == relation.listing().push(
            Row { id: relation.next_id(), fields },
        ),
{
    let row = Row { id: relation.next_id(), fields };
    let before = relation.listing();
    let after = relation.insert(fields);
    let extended = before.push(row);
    relation.lemma_listing();
    after.lemma_listing();
    assert(after.lists(extended)) by {
        assert forall|i: int, j: int| 0 <= i < j < extended.len() implies extended[i].id
            < extended[j].id by {
            if j < before.len() {
                assert(before[i].id < before[j].id);
            } else {
                assert(relation.get(before[i].id) == Some(before[i]));
            }
        }
        assert forall|i: int| 0 <= i < extended.len() implies after.get(
            #[trigger] extended[i].id,
        ) == Some(extended[i]) by {
            if i < before.len() {
                assert(relation.get(before[i].id) == Some(before[i]));
            }
        }
        assert forall|id: int| #[trigger] after.contains(id) implies exists|i: int|
            0 <= i < extended.len() && #[trigger] extended[i].id == id by {
            if id == row.id {
                assert(extended[before.len() as int].id == id);
            } else {
                assert(relation.contains(id));
                let i = choose|i: int| 0 <= i < before.len() && #[trigger] before[i].id == id;
                assert(extended[i].id == id);
            }
        }
    }
    after.lemma_listing_unique(after.listing(), extended);
}

/// An identifier that no record has is answered in three ways that a client
/// can tell apart: an update answers 404 and a delete answers 404, both
/// without a body and without a change to the relation, while a read answers
/// 200 with `null`.
pub proof fn law_missing_record(relation: Relation, id: int, fields: Fields)
    requires
        !relation.contains(id),
    ensures
        response_to(relation, RequestView::Update(id, fields)) == ResponseView::bare(
            Status::NotFound,
        ),
        next_relation(relation, RequestView::Update(id, fields)) == relation,
        response_to(relation, RequestView::Delete(id)) == ResponseView::bare(Status::NotFound),
        next_relation(relation, RequestView::Delete(id)) == relation,
        response_to(relation, RequestView::Get(id)) == ResponseView::employee(None),
        response_to(relation, RequestView::Get(id)).status == Status::Success,
        response_to(relation, RequestView::Get(id)).body == BodyView::Employee(None),
{
    assert(relation.rows.remove(id) =~= relation.rows);
}

/// A read never tells a client that the store failed: a failure looks like a
/// store without data. An update or a delete always does: a failure answers
/// 500, which no answer to a missing record is.
pub proof fn law_reads_forgive_writes_do_not(failure: StoreError)
    ensures
        spec_list_employees(Err(failure)) == spec_list_employees(Ok(Seq::empty())),
        spec_get_employee_by_id(Err(failure)) == spec_get_employee_by_id(Ok(None)),
        spec_update_employee(Err(failure)) == ResponseView::bare(Status::InternalServerError),
        spec_update_employee(Err(failure)) != spec_update_employee(Ok(None)),
        spec_delete_employee(Err(failure)) == ResponseView::bare(Status::InternalServerError),
        spec_delete_employee(Err(failure)) != spec_delete_employee(Ok(0)),
{
}

} // verus!
