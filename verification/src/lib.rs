//! Building blocks for a small DynamoDB command-line client: a retry policy
//! with Fibonacci backoff, the values that make up read and write requests,
//! and the rules of the interactive command loop.
//!
//! Nothing here performs I/O. Every function maps plain values to plain
//! values, so a caller owns the network client, the clock and the terminal.

pub mod command_line;
pub mod dynamodb;
pub mod error;
pub mod retry;
pub mod text;
