//! Keeps a local TruckersMP content directory in step with the remote file
//! manifest: manifest model, planning, hash verification, bounded batches and
//! the retrying synchronisation state machine, together with the game and
//! server rules that the command-line front end relies on.

pub mod batch;
pub mod cmd;
pub mod convergence;
pub mod digest;
pub mod download;
pub mod error;
pub mod game;
pub mod gate;
pub mod manifest;
pub mod plan;
pub mod select;
pub mod server;
pub mod sync;
pub mod text;
pub mod verify;
