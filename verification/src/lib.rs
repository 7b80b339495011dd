//! Verified core of a learning-management backend: request models, pagination,
//! payload validation, activity labels and the calendar recurrence logic.
pub mod datetime;
pub mod db;
pub mod ids;
pub mod models;
pub mod text;
pub mod types;
pub mod validation;
