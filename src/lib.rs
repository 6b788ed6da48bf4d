//! The state of a TodoMVC list: todo items, a display filter, and a reducer
//! that applies one action at a time to produce the next snapshot.
pub mod filter;
pub mod laws;
pub mod state;
pub mod todo;
