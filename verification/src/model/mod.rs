pub mod order;
pub mod order_id;
pub mod ticket;
