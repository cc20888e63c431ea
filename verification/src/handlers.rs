//! The endpoints of the service.

pub mod employee_handler;
