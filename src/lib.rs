pub mod address;
pub mod auth;
pub mod collector;
pub mod constants;
pub mod coordinator;
pub mod error;
pub mod hashfunction;
pub mod models;
pub mod protocol;
pub mod ratelimiter;
pub mod ring;
pub mod settings;
pub mod storage;
pub mod text;
pub mod textsearch;
