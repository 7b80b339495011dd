//! Activity tracking: the object kinds and actions it records.
pub use crate::models::tracking::{ActionType, ActivityLog, ModelType};
