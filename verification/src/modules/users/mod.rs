pub mod dtos;
pub mod models;
pub mod services;
