//! The front door to the fleet.

pub mod auth;
pub mod cli;
pub mod clock;
pub mod config;
pub mod db;
pub mod error;
pub mod json;
pub mod openapi;
pub mod request_id;
pub mod sse;
pub mod table;
pub mod text;
pub mod upstream;
pub mod v1;
