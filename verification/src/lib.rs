//! A minimal request-serving core: a fixed-size pool of workers shares one
//! FIFO dispatch queue, every submitted job is dispatched exactly once, and
//! shutdown drains the queue with one terminate sentinel per worker.
//!
//! The pool itself is modelled and verified here as a sequential state
//! machine; a driver that wants real OS threads performs the blocking parts
//! outside and feeds this model, whose contracts pin down validation,
//! FIFO dispatch order, exactly-once delivery and the shutdown protocol.

pub mod calc;
pub mod client;
pub mod config;
pub mod pool;
pub mod server;
pub mod text;
