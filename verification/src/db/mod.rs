pub mod crud;
pub mod error;
pub mod helpers;
