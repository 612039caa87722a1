pub mod mappers;
pub mod response;
