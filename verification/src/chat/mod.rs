//! Rules of the chat service.
pub mod error;
pub mod response;
pub mod file;
pub mod models;
pub mod requests;
pub mod config;
pub mod rules;
pub mod auth;
pub mod notify;
pub mod password;
pub mod jwt;
