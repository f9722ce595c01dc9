//! A lambda that converts office files to PDF, and a client of it.
//!
//! The library holds the decisions of both sides. It does no input or output
//! of its own: where a file is to be read, a service to be called or time to
//! pass, a function of the library says so, and another one takes the reply.

pub mod aws;
pub mod client;
pub mod encrypted;
pub mod environment;
pub mod error;
pub mod event_handler;
pub mod office;
mod outside;
pub mod packed_libreoffice;
pub mod path;
pub mod service;
pub mod storage;
pub mod temp_files;
pub mod text;
