//! The command-line toolbox: options, password generation, base64 and text
//! signing.
pub mod genpass;
pub mod opts;
pub mod base64;
pub mod text;
