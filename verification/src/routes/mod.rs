pub mod catalog;
pub mod cavp;
pub mod health;
pub mod kem;
pub mod subtasks;
pub mod tests;
