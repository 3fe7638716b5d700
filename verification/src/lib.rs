//! In-memory status aggregation for a file-synchronization daemon.
//!
//! A stream of completion and disconnection events is folded into a
//! pending-transfer table, with lazy display-name lookups, a monotone
//! event watermark, connection-state pruning, and a pure renderer that
//! turns the table into a one-line JSON status object.  Every operation
//! carries a contract over the table's map model, and the properties of
//! the reconciliation step are proved in `laws`.

pub mod args;
pub mod directory;
pub mod events;
pub mod format;
pub mod ids;
pub mod laws;
pub mod output;
pub mod pending;
pub mod render;
pub mod runner;
