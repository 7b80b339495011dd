pub mod read;
pub mod update;
pub mod delete;
