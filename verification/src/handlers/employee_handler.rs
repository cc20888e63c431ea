//! One handler for each operation on employees. A handler is given what the
//! store answered and decides what the client is told.
//!
//! Reads are forgiving: a store that fails looks to the client like a store
//! without data. Writes are not: a failure is answered as a failure and
//! never passed off as a missing record.

use vstd::prelude::*;
use crate::db::StoreError;
use crate::models::{row_of, rows_of, Employee, Row};
use crate::response::{Body, Response, ResponseView};
use crate::status::Status;

verus! {

/// What a store's answer to a query for all employees holds.
pub open spec fn rows_outcome(outcome: Result<Vec<Employee>, StoreError>) -> Result<
    Seq<Row>,
    StoreError,
> {
    match outcome {
        Ok(employees) => Ok(rows_of(employees@)),
        Err(e) => Err(e),
    }
}

/// What a store's answer with one employee holds.
pub open spec fn row_outcome(outcome: Result<Employee, StoreError>) -> Result<Row, StoreError> {
    match outcome {
        Ok(employee) => Ok(employee@),
        Err(e) => Err(e),
    }
}

/// What a store's answer with at most one employee holds.
pub open spec fn found_outcome(outcome: Result<Option<Employee>, StoreError>) -> Result<
    Option<Row>,
    StoreError,
> {
    match outcome {
        Ok(employee) => Ok(row_of(employee)),
        Err(e) => Err(e),
    }
}

/// What a store's answer to a delete holds: how many records went.
pub open spec fn affected_outcome(outcome: Result<u64, StoreError>) -> Result<int, StoreError> {
    match outcome {
        Ok(affected) => Ok(affected as int),
        Err(e) => Err(e),
    }
}

/// The answer to a request for all employees: always 200, with the
/// employees in the store's order, or with none where the store failed.
pub open spec fn spec_list_employees(outcome: Result<Seq<Row>, StoreError>) -> ResponseView {
    match outcome {
        Ok(rows) => ResponseView::employees(rows),
        Err(_) => ResponseView::employees(Seq::empty()),
    }
}

/// The answer to a request that creates an employee: 200 with the employee
/// as stored, or 500 with nothing where the store failed.
pub open spec fn spec_create_employee(outcome: Result<Row, StoreError>) -> ResponseView {
    match outcome {
        Ok(row) => ResponseView::employee(Some(row)),
        Err(_) => ResponseView::bare(Status::InternalServerError),
    }
}

/// The answer to a request for one employee: always 200, with the employee,
/// or with `null` where there is none or the store failed.
pub open spec fn spec_get_employee_by_id(outcome: Result<Option<Row>, StoreError>) -> ResponseView {
    match outcome {
        Ok(row) => ResponseView::employee(row),
        Err(_) => ResponseView::employee(None),
    }
}

/// The answer to a request that replaces an employee: 200 with the employee
/// as it now stands, 404 with nothing where no record matched, 500 with
/// nothing where the store failed.
pub open spec fn spec_update_employee(outcome: Result<Option<Row>, StoreError>) -> ResponseView {
    match outcome {
        Ok(Some(row)) => ResponseView::employee(Some(row)),
        Ok(None) => ResponseView::bare(Status::NotFound),
        Err(_) => ResponseView::bare(Status::InternalServerError),
    }
}

/// The answer to a request that deletes an employee, from the number of
/// records that went: 204 where one did, 404 where none did, 500 where the
/// store failed. The body is always empty.
pub open spec fn spec_delete_employee(outcome: Result<int, StoreError>) -> ResponseView {
    match outcome {
        Ok(affected) => if affected > 0 {
            ResponseView::bare(Status::NoContent)
        } else {
            ResponseView::bare(Status::NotFound)
        },
        Err(_) => ResponseView::bare(Status::InternalServerError),
    }
}

/// Answers a request for all employees, given what the store returned for
/// the query in ascending order of identifier.
pub fn list_employees(outcome: Result<Vec<Employee>, StoreError>) -> (response: Response)
    ensures
        response@ == spec_list_employees(rows_outcome(outcome)),
{
    let employees = match outcome {
        Ok(employees) => employees,
        Err(_) => Vec::new(),
    };
    proof {
        assert(rows_of(Seq::<Employee>::empty()) =~= Seq::<Row>::empty());
    }
    Response { status: Status::Success, body: Body::Employees(employees) }
}

/// Answers a request that creates an employee, given the record that the
/// store returned from the insert.
pub fn create_employee(outcome: Result<Employee, StoreError>) -> (response: Response)
    ensures
        response@ == spec_create_employee(row_outcome(outcome)),
{
    match outcome {
        Ok(employee) => Response { status: Status::Success, body: Body::Employee(Some(employee)) },
        Err(_) => Response { status: Status::InternalServerError, body: Body::Empty },
    }
}

/// Answers a request for one employee, given what the store returned for
/// the lookup.
pub fn get_employee_by_id(outcome: Result<Option<Employee>, StoreError>) -> (response: Response)
    ensures
        response@ == spec_get_employee_by_id(found_outcome(outcome)),
{
    let employee = match outcome {
        Ok(employee) => employee,
        Err(_) => None,
    };
    Response { status: Status::Success, body: Body::Employee(employee) }
}

/// Answers a request that replaces an employee, given the record that the
/// store returned from the update, `None` where no record matched.
pub fn update_employee(outcome: Result<Option<Employee>, StoreError>) -> (response: Response)
    ensures
        response@ == spec_update_employee(found_outcome(outcome)),
{
    match outcome {
        Ok(Some(employee)) => Response {
            status: Status::Success,
            body: Body::Employee(Some(employee)),
        },
        Ok(None) => Response { status: Status::NotFound, body: Body::Empty },
        Err(_) => Response { status: Status::InternalServerError, body: Body::Empty },
    }
}

/// Answers a request that deletes an employee, given the number of records
/// that the store reports as deleted.
pub fn delete_employee(outcome: Result<u64, StoreError>) -> (response: Response)
    ensures
        response@ == spec_delete_employee(affected_outcome(outcome)),
{
    let status = match outcome {
        Ok(affected) => {
            if affected > 0 {
                Status::NoContent
            } else {
                Status::NotFound
            }
        },
        Err(_) => Status::InternalServerError,
    };
    Response { status, body: Body::Empty }
}

} // verus!
