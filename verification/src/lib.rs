//! The decision logic of a mesh of coding agents: who is registered where, how a message
//! finds its agent, what peers tell each other, and what the command line says.
//!
//! Every item here is plain data in and plain data out. Sockets, processes, clocks and the
//! environment belong to the program around the library.

pub mod address;
pub mod cli;
pub mod connector;
pub mod errors;
pub mod json;
pub mod jsontext;
pub mod laws;
pub mod laws_cli;
pub mod laws_commands;
pub mod laws_edges;
pub mod laws_mesh;
pub mod laws_network;
pub mod laws_pages;
pub mod laws_service;
pub mod laws_text;
pub mod machine;
pub mod mesh;
pub mod message;
pub mod order;
pub mod pages;
pub mod paths;
pub mod reply;
pub mod state;
pub mod steps;
pub mod table;
pub mod tailscale;
pub mod text;
