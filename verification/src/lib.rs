//! Finite-state machines as tables: events with guarded clauses, their
//! evaluation on a state, records of the transitions that succeed, and the
//! transition table and graph of a whole machine.
//!
//! Around them stand the plain-value parts of the tools that exercise such
//! machines: the host names of benchmark scenarios, the report of a
//! simulated connection, and ranges given on a command line.

pub mod events;
pub mod graph;
pub mod laws;
pub mod machine;
pub mod observe;
pub mod range;
pub mod scenario;
pub mod state;
pub mod table;
pub mod text;
