//! A graph of parsers and a driver that walks it over layered input.
pub mod error;
pub mod parser;
pub mod graph;
pub mod traverse;
pub mod example;
pub mod packet;
pub mod laws;
