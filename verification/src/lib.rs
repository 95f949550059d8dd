//! A fixed-size worker pool and the small servers around it, verified.
//!
//! The core is the pool: a fixed set of workers that take work items from
//! one shared first-in, first-out queue, and a teardown that closes the
//! queue and joins every worker. It is written as a state machine.
//! [`pool::ThreadPool`] holds the state and decides, at each event, what
//! happens next; the code that owns the threads performs it. [`model`] says
//! what a pool is, [`safety`] that its invariant holds, [`laws`] what follows
//! for every pool, and [`progress`] that no item gets stuck.
//!
//! Around it stand the decisions of the servers that use such a pool or a
//! web framework: [`http`] reads request lines and headers and frames
//! responses over the byte strings of [`text`], [`routes`] holds the table of
//! routes and the rule of the greeting form, and [`writer`] and [`message`]
//! serve the JSON endpoints.

pub mod http;
pub mod laws;
pub mod message;
pub mod model;
pub mod pool;
pub mod progress;
pub mod queue;
pub mod routes;
pub mod safety;
pub mod text;
pub mod worker;
pub mod writer;

pub use message::{Message, JSON_MSG_SIZE};
pub use pool::ThreadPool;
pub use routes::rocket;
pub use writer::Writer;
