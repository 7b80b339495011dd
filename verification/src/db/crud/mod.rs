pub mod account;
pub mod calendar;
pub mod files;
pub mod flashcards;
pub mod tasks;
pub mod tracking;
pub mod words;
