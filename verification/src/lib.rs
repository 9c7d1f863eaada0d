//! A persistent singly-linked list with shared tails, and a line search.

pub mod config;
pub mod list;
pub mod list_laws;
pub mod search;
