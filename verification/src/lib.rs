//! A small blogging backend: users write posts, posts receive comments.
//!
//! The rows live in a [`store::Store`]. Every write and every read is stated
//! over the store's mathematical view, a [`state::StoreState`], and proved to
//! do what is stated. The part with an algorithm in it is the
//! [`assembler`]: it turns the flat rows of two reads into nested rows, each
//! parent with its children, and keeps the order of both.

pub mod assembler;
pub mod errors;
pub mod graphs;
pub mod models;
pub mod queries;
pub mod resolver;
pub mod seqs;
pub mod state;
pub mod store;
