//! Shader and program objects of a graphics context, built without touching the
//! context.
//!
//! Every operation here is a small machine. It hands out one [`protocol::Request`]
//! at a time, the caller performs it on the thread that owns the context, and the
//! [`protocol::Reply`] is handed back to the machine, which answers with the next
//! request or with the finished object. The machines decide the order of the
//! native calls, what is read back, and what is released on every path; the
//! contracts state each transition exactly over the views of the values involved.
//!
//! [`shader`] and [`program`] hold the objects and their machines, [`error`]
//! what they fail with. [`ledger`] models what a context holds and what playing
//! a machine against a context comes to; [`compile_runs`], [`link_runs`] and
//! [`load_runs`] prove, over that model, what whole runs ask of a context and
//! what they leave behind; [`residue`] proves that a machine leaves nothing
//! behind whatever it is answered.
pub mod compile_runs;
pub mod error;
pub mod ledger;
pub mod link_runs;
pub mod load_runs;
pub mod program;
pub mod protocol;
pub mod residue;
pub mod shader;
pub mod text;
