//! What an endpoint answers with: a status and a body.

use vstd::prelude::*;
use crate::models::{row_of, rows_of, Employee, Row};
use crate::status::Status;

verus! {

/// The body of a response.
#[derive(Debug, PartialEq, Eq)]
pub enum Body {
    /// Nothing is sent.
    Empty,
    /// Plain text.
    Text(String),
    /// One employee as JSON, or JSON `null` where there is none.
    Employee(Option<Employee>),
    /// A JSON array of employees, in this order.
    Employees(Vec<Employee>),
}

/// A response as the client receives it.
#[derive(Debug, PartialEq, Eq)]
pub struct Response {
    pub status: Status,
    pub body: Body,
}

/// What a body holds.
#[verifier::ext_equal]
pub enum BodyView {
    Empty,
    Text(Seq<char>),
    Employee(Option<Row>),
    Employees(Seq<Row>),
}

/// What a response holds.
#[verifier::ext_equal]
pub struct ResponseView {
    pub status: Status,
    pub body: BodyView,
}

impl View for Body {
    type V = BodyView;

    open spec fn view(&self) -> BodyView {
        match self {
            Body::Empty => BodyView::Empty,
            Body::Text(words) => BodyView::Text(words@),
            Body::Employee(employee) => BodyView::Employee(row_of(*employee)),
            Body::Employees(employees) => BodyView::Employees(rows_of(employees@)),
        }
    }
}

impl View for Response {
    type V = ResponseView;

    open spec fn view(&self) -> ResponseView {
        ResponseView { status: self.status, body: self.body@ }
    }
}

impl ResponseView {
    /// A response with this status and nothing in its body.
    pub open spec fn bare(status: Status) -> ResponseView {
        ResponseView { status, body: BodyView::Empty }
    }

    /// The response that carries one employee, or `null`, with status 200.
    pub open spec fn employee(row: Option<Row>) -> ResponseView {
        ResponseView { status: Status::Success, body: BodyView::Employee(row) }
    }

    /// The response that carries these employees with status 200.
    pub open spec fn employees(rows: Seq<Row>) -> ResponseView {
        ResponseView { status: Status::Success, body: BodyView::Employees(rows) }
    }
}

} // verus!
