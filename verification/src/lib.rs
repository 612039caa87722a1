//! Ticket booking for the events of a local club: orders of tickets, the
//! messages that carry them, and the rules by which an order is realized in
//! the ticket store.

pub mod decimal;
pub mod model;
pub mod repository;
pub mod rest_api;
