//! Shareable terminal sessions: bounded output history, viewport
//! reconciliation across attached clients, and the decisions of the
//! streaming protocol, each stated and proved over a mathematical model.

pub mod api;
pub mod assets;
pub mod auth;
pub mod db;
pub mod events;
pub mod history;
pub mod monitor;
pub mod pty_manager;
pub mod registry;
pub mod server;
pub mod session;
pub mod viewport;
pub mod wire;
pub mod ws;

pub use events::GlobalEvent;
