//! The service as one step: a request and the state of the employee relation
//! go in, a response and the next state come out.

use vstd::prelude::*;
use vstd::string::StringExecFns;
use crate::db::StoreError;
use crate::handlers::employee_handler::{
    create_employee,
    delete_employee,
    get_employee_by_id,
    list_employees,
    spec_create_employee,
    spec_delete_employee,
    spec_get_employee_by_id,
    spec_list_employees,
    spec_update_employee,
    update_employee,
};
use crate::models::{CreateEmployee, Fields, Row};
use crate::relation::Relation;
use crate::response::{Body, BodyView, Response, ResponseView};
use crate::status::Status;
use crate::table::EmployeeTable;

verus! {

/// A request, once the route was matched and the path and body were read.
#[derive(Debug, PartialEq, Eq)]
pub enum Request {
    /// `GET /`
    Liveness,
    /// `GET /api/employees`
    List,
    /// `POST /api/employees`
    Create(CreateEmployee),
    /// `GET /api/employees/{id}`
    Get(i32),
    /// `PUT /api/employees/{id}`
    Update(i32, CreateEmployee),
    /// `DELETE /api/employees/{id}`
    Delete(i32),
}

/// What a request holds.
#[verifier::ext_equal]
pub enum RequestView {
    Liveness,
    List,
    Create(Fields),
    Get(int),
    Update(int, Fields),
    Delete(int),
}

impl View for Request {
    type V = RequestView;

    open spec fn view(&self) -> RequestView {
        match self {
            Request::Liveness => RequestView::Liveness,
            Request::List => RequestView::List,
            Request::Create(fields) => RequestView::Create(fields@),
            Request::Get(id) => RequestView::Get(*id as int),
            Request::Update(id, fields) => RequestView::Update(*id as int, fields@),
            Request::Delete(id) => RequestView::Delete(*id as int),
        }
    }
}

/// The answer to `GET /`: 200 and a line of text.
pub open spec fn spec_liveness() -> ResponseView {
    ResponseView { status: Status::Success, body: BodyView::Text("Employee API is running"@) }
}

/// Answers `GET /`, which tells a client that the service is up.
pub fn liveness() -> (response: Response)
    ensures
        response@ == spec_liveness(),
{
    Response {
        status: Status::Success,
        body: Body::Text(String::from_str("Employee API is running")),
    }
}

/// What a store that works answers to the insert of these columns: the new
/// record, or a failure where no identifier is left.
pub open spec fn insert_outcome(relation: Relation, fields: Fields) -> Result<Row, StoreError> {
    if relation.has_room() {
        Ok(Row { id: relation.next_id(), fields })
    } else {
        Err(StoreError::IdentifiersExhausted)
    }
}

/// The relation after a request was served by a store that works.
pub open spec fn next_relation(relation: Relation, request: RequestView) -> Relation {
    match request {
        RequestView::Liveness => relation,
        RequestView::List => relation,
        RequestView::Create(fields) => if relation.has_room() {
            relation.insert(fields)
        } else {
            relation
        },
        RequestView::Get(_) => relation,
        RequestView::Update(id, fields) => relation.update(id, fields),
        RequestView::Delete(id) => relation.delete(id),
    }
}

/// The response to a request that was served by a store that works.
pub open spec fn response_to(relation: Relation, request: RequestView) -> ResponseView {
    match request {
        RequestView::Liveness => spec_liveness(),
        RequestView::List => spec_list_employees(Ok(relation.listing())),
        RequestView::Create(fields) => spec_create_employee(insert_outcome(relation, fields)),
        RequestView::Get(id) => spec_get_employee_by_id(Ok(relation.get(id))),
        RequestView::Update(id, fields) => spec_update_employee(
            Ok(relation.update(id, fields).get(id)),
        ),
        RequestView::Delete(id) => spec_delete_employee(Ok(relation.affected(id) as int)),
    }
}

/// Serves one request from the table: performs the store operation that the
/// request asks for and answers as the handler of that operation decides.
pub fn serve(table: &mut EmployeeTable, request: Request) -> (response: Response)
    ensures
        final(table)@ == next_relation(old(table)@, request@),
        response@ == response_to(old(table)@, request@),
        final(table)@.wf(),
{
    proof {
        use_type_invariant(&*table);
        table.lemma_wf();
    }
    match request {
        Request::Liveness => liveness(),
        Request::List => list_employees(Ok(table.list_all())),
        Request::Create(fields) => create_employee(table.insert(fields)),
        Request::Get(id) => get_employee_by_id(Ok(table.get_by_id(id))),
        Request::Update(id, fields) => update_employee(Ok(table.update_by_id(id, fields))),
        Request::Delete(id) => delete_employee(Ok(table.delete_by_id(id))),
    }
}

} // verus!
