//! A family of verified linked-list containers, each built on a chain of
//! heap-allocated nodes under a different ownership discipline:
//!
//! - [`int_stack`]: an owned singly-linked LIFO stack of integers;
//! - [`stack`]: a generic owned stack with peeking and iteration;
//! - [`persistent`]: an immutable, structurally shared list over
//!   reference-counted nodes;
//! - [`thread_safe`]: the same persistent list over atomically
//!   reference-counted nodes, safe to share across threads;
//! - [`deque`]: a double-ended queue with access at both ends;
//! - [`queue`]: a FIFO queue with constant-time amortized append.
//!
//! Every container is specified against an abstract view: the sequence of
//! its elements, front first. Operations state exactly how they move that
//! sequence, and absence (pop or peek on an empty container) is always an
//! explicit `None`, never a panic.

pub mod deque;
pub mod int_stack;
pub mod persistent;
pub mod queue;
pub mod stack;
pub mod thread_safe;
