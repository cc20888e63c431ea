//! The employee record and the request that creates or replaces one.

use vstd::prelude::*;

verus! {

/// What an optional text column holds, as a sequence of characters.
pub open spec fn text(column: Option<String>) -> Option<Seq<char>> {
    match column {
        Some(s) => Some(s@),
        None => None,
    }
}

/// The three columns that a client can set. Each may be absent, and an absent
/// column is not the same as an empty one.
#[verifier::ext_equal]
pub struct Fields {
    pub first_name: Option<Seq<char>>,
    pub last_name: Option<Seq<char>>,
    pub email: Option<Seq<char>>,
}

/// One row of the employee relation: the identifier that the store assigned
/// and the three columns.
#[verifier::ext_equal]
pub struct Row {
    pub id: int,
    pub fields: Fields,
}

/// The body of a request that creates an employee or replaces one. No column
/// is required.
#[derive(Debug, PartialEq, Eq)]
pub struct CreateEmployee {
    pub first_name: Option<String>,
    pub last_name: Option<String>,
    pub email: Option<String>,
}

/// A stored employee.
#[derive(Debug, PartialEq, Eq)]
pub struct Employee {
    pub id: i32,
    pub first_name: Option<String>,
    pub last_name: Option<String>,
    pub email: Option<String>,
}

impl View for CreateEmployee {
    type V = Fields;

    open spec fn view(&self) -> Fields {
        Fields {
            first_name: text(self.first_name),
            last_name: text(self.last_name),
            email: text(self.email),
        }
    }
}

impl View for Employee {
    type V = Row;

    open spec fn view(&self) -> Row {
        Row {
            id: self.id as int,
            fields: Fields {
                first_name: text(self.first_name),
                last_name: text(self.last_name),
                email: text(self.email),
            },
        }
    }
}

/// The rows that a vector of employees stands for, in the vector's order.
pub open spec fn rows_of(employees: Seq<Employee>) -> Seq<Row> {
    Seq::new(employees.len(), |i: int| employees[i]@)
}

/// The row that an optional employee stands for.
pub open spec fn row_of(employee: Option<Employee>) -> Option<Row> {
    match employee {
        Some(e) => Some(e@),
        None => None,
    }
}

/// A copy of an optional text column.
fn copy_text(column: &Option<String>) -> (copy: Option<String>)
    ensures
        text(copy) == text(*column),
{
    match column {
        Some(s) => Some(s.clone()),
        None => None,
    }
}

impl Clone for CreateEmployee {
    fn clone(&self) -> (copy: Self)
        ensures
            copy@ == self@,
    {
        CreateEmployee {
            first_name: copy_text(&self.first_name),
            last_name: copy_text(&self.last_name),
            email: copy_text(&self.email),
        }
    }
}

impl Clone for Employee {
    fn clone(&self) -> (copy: Self)
        ensures
            copy@ == self@,
    {
        Employee {
            id: self.id,
            first_name: copy_text(&self.first_name),
            last_name: copy_text(&self.last_name),
            email: copy_text(&self.email),
        }
    }
}

impl Employee {
    /// The employee that the store holds once it has given `id` to the
    /// columns of `fields`.
    pub fn with_id(id: i32, fields: CreateEmployee) -> (employee: Self)
        ensures
            employee@ == (Row { id: id as int, fields: fields@ }),
    {
        Employee {
            id,
            first_name: fields.first_name,
            last_name: fields.last_name,
            email: fields.email,
        }
    }
}

/// A copy of a vector of employees, row for row.
pub fn copy_employees(employees: &Vec<Employee>) -> (copy: Vec<Employee>)
    ensures
        rows_of(copy@) == rows_of(employees@),
{
    let mut copy: Vec<Employee> = Vec::new();
    let mut i: usize = 0;
    while i < employees.len()
        invariant
            i <= employees.len(),
            copy.len() == i,
            forall|k: int| 0 <= k < i ==> copy[k]@ == employees[k]@,
        decreases employees.len() - i,
    {
        copy.push(employees[i].clone());
        i += 1;
    }
    assert(rows_of(copy@) =~= rows_of(employees@));
    copy
}

} // verus!
