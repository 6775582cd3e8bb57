pub mod dtos;
pub mod services;
