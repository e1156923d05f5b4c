//! A small URL shortener: a list of short paths and their destinations, with
//! the operations that keep it, and the decisions that answer a request.
pub mod links;
pub mod serve;
pub mod assets;
pub mod settings;
