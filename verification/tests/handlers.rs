use employee_directory::db::{init_pool, PoolSettings, StartupError, StoreError, MAX_CONNECTIONS};
use employee_directory::handlers::employee_handler::{
    create_employee, delete_employee, get_employee_by_id, list_employees, update_employee,
};
use employee_directory::models::{CreateEmployee, Employee};
use employee_directory::response::{Body, Response};
use employee_directory::service::liveness;
use employee_directory::status::Status;

fn ada() -> Employee {
    Employee {
        id: 1,
        first_name: Some("Ada".to_string()),
        last_name: Some("Lovelace".to_string()),
        email: Some("ada@x.com".to_string()),
    }
}

fn grace() -> Employee {
    Employee { id: 7, first_name: Some("Grace".to_string()), last_name: None, email: None }
}

fn bare(status: Status) -> Response {
    Response { status, body: Body::Empty }
}

#[test]
fn status_codes_are_the_documented_numbers() {
    assert_eq!(Status::Success.code(), 200);
    assert_eq!(Status::NoContent.code(), 204);
    assert_eq!(Status::NotFound.code(), 404);
    assert_eq!(Status::InternalServerError.code(), 500);
}

#[test]
fn list_answers_200_with_the_rows_in_the_stores_order() {
    let response = list_employees(Ok(vec![ada(), grace()]));
    assert_eq!(
        response,
        Response { status: Status::Success, body: Body::Employees(vec![ada(), grace()]) }
    );
}

#[test]
fn list_answers_200_with_an_empty_array_for_an_empty_store() {
    let response = list_employees(Ok(vec![]));
    assert_eq!(response, Response { status: Status::Success, body: Body::Employees(vec![]) });
}

#[test]
fn list_hides_a_store_failure_behind_an_empty_array() {
    let response = list_employees(Err(StoreError::Unavailable));
    assert_eq!(response, Response { status: Status::Success, body: Body::Employees(vec![]) });
    assert_eq!(response, list_employees(Ok(vec![])));
}

#[test]
fn create_answers_200_with_the_stored_record() {
    let response = create_employee(Ok(ada()));
    assert_eq!(
        response,
        Response { status: Status::Success, body: Body::Employee(Some(ada())) }
    );
}

#[test]
fn create_answers_500_when_the_store_fails() {
    assert_eq!(
        create_employee(Err(StoreError::Unavailable)),
        bare(Status::InternalServerError)
    );
    assert_eq!(
        create_employee(Err(StoreError::IdentifiersExhausted)),
        bare(Status::InternalServerError)
    );
}

#[test]
fn get_answers_200_with_the_record() {
    let response = get_employee_by_id(Ok(Some(grace())));
    assert_eq!(
        response,
        Response { status: Status::Success, body: Body::Employee(Some(grace())) }
    );
}

#[test]
fn get_answers_200_with_null_for_a_missing_record() {
    let response = get_employee_by_id(Ok(None));
    assert_eq!(response, Response { status: Status::Success, body: Body::Employee(None) });
    assert_ne!(response.status, Status::NotFound);
}

#[test]
fn get_hides_a_store_failure_behind_null() {
    let response = get_employee_by_id(Err(StoreError::Unavailable));
    assert_eq!(response, Response { status: Status::Success, body: Body::Employee(None) });
}

#[test]
fn update_answers_200_with_the_record_as_it_now_stands() {
    let response = update_employee(Ok(Some(ada())));
    assert_eq!(
        response,
        Response { status: Status::Success, body: Body::Employee(Some(ada())) }
    );
}

#[test]
fn update_answers_404_without_a_body_when_nothing_matched() {
    assert_eq!(update_employee(Ok(None)), bare(Status::NotFound));
}

#[test]
fn update_answers_500_and_not_404_when_the_store_fails() {
    let response = update_employee(Err(StoreError::Unavailable));
    assert_eq!(response, bare(Status::InternalServerError));
    assert_ne!(response, update_employee(Ok(None)));
}

#[test]
fn delete_answers_204_when_a_record_went() {
    assert_eq!(delete_employee(Ok(1)), bare(Status::NoContent));
}

#[test]
fn delete_answers_204_for_any_positive_count() {
    assert_eq!(delete_employee(Ok(2)), bare(Status::NoContent));
    assert_eq!(delete_employee(Ok(u64::MAX)), bare(Status::NoContent));
}

#[test]
fn delete_answers_404_when_nothing_went() {
    assert_eq!(delete_employee(Ok(0)), bare(Status::NotFound));
}

#[test]
fn delete_answers_500_and_not_404_when_the_store_fails() {
    let response = delete_employee(Err(StoreError::Unavailable));
    assert_eq!(response, bare(Status::InternalServerError));
    assert_ne!(response, delete_employee(Ok(0)));
}

#[test]
fn liveness_answers_200_with_its_line_of_text() {
    assert_eq!(
        liveness(),
        Response {
            status: Status::Success,
            body: Body::Text("Employee API is running".to_string()),
        }
    );
}

#[test]
fn pool_is_bounded_by_five_connections() {
    assert_eq!(MAX_CONNECTIONS, 5);
    let settings = init_pool(Some("postgres://localhost/directory".to_string()));
    assert_eq!(
        settings,
        Ok(PoolSettings {
            database_url: "postgres://localhost/directory".to_string(),
            max_connections: 5,
        })
    );
}

#[test]
fn pool_keeps_an_empty_connection_string_as_it_is() {
    let settings = init_pool(Some(String::new()));
    assert_eq!(settings, Ok(PoolSettings { database_url: String::new(), max_connections: 5 }));
}

#[test]
fn startup_fails_without_a_connection_string() {
    assert_eq!(init_pool(None), Err(StartupError::MissingDatabaseUrl));
}

#[test]
fn startup_errors_have_their_diagnostics() {
    assert_eq!(StartupError::MissingDatabaseUrl.message(), "DATABASE_URL must be set");
    assert_eq!(StartupError::CannotConnect.message(), "Can't connect to database");
}

#[test]
fn a_copy_of_a_request_body_equals_it() {
    let body = CreateEmployee {
        first_name: Some("Ada".to_string()),
        last_name: None,
        email: Some(String::new()),
    };
    assert_eq!(body.clone(), body);
    assert_eq!(ada().clone(), ada());
}
