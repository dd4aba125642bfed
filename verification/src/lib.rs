//! The logic of a worker for distributed chess analysis.
//!
//! A worker fetches positions from a server, has a UCI engine analyse them, shows the results
//! and hands them in. The modules hold what the worker computes and decides; the program around
//! them talks to the engine, the server and the terminal.

pub mod chess;
pub mod cpu;
pub mod pv;
pub mod report;
pub mod score;
pub mod session;
pub mod style;
pub mod text;
pub mod uci;
pub mod worker;
