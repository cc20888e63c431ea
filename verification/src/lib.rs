//! A verified core for an employee directory service.

pub mod db;
pub mod handlers;
pub mod laws;
pub mod models;
pub mod relation;
pub mod response;
pub mod service;
pub mod status;
pub mod table;
