//! Verified core of a small libp2p chat: configuration files and command
//! lines, username rules of the mobile gateway, dial bookkeeping, and the
//! command/event decisions of the mobile node.
pub mod api_types;
pub mod config;
pub mod node;
pub mod sync;
pub mod dial;
pub mod gateway;
pub mod logging;
pub mod text;
pub mod timetable;
pub mod username;
