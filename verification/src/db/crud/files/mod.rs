pub mod file;
