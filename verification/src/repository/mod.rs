pub mod errors;
pub mod interface;
pub mod storage;
pub mod kafka_event_repository;
pub mod message;
