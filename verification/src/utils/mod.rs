pub mod dtos;
pub mod jwt;
pub mod pagination;
pub mod password;
pub mod text;
pub mod time;
