//! Verified core of a small collection of Rust exercises: a command-line
//! toolbox (base64, password generation, text signing), and the rules of a
//! chat service (file naming, chat membership, authentication decisions,
//! notifications, error reporting).
pub mod chars;
pub mod numtext;
pub mod cli;
pub mod chat;
