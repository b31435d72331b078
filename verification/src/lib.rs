//! Watches the minimization state of desktop windows and decides which
//! process-control signals to send: minimized windows' owners are stopped,
//! visible windows' owners are continued, and a final drain pass continues
//! everything.
//!
//! The library holds the verified core: parsing the line-oriented output of
//! the window queries into descriptors, and turning descriptors into control
//! actions. Running the external queries and dispatching the signals is left
//! to the embedding program.

pub mod control;
pub mod enumerate;
pub mod text;
pub mod window;
