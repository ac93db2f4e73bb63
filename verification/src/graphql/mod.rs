//! The GraphQL interface: pages, catalog queries, mutations, jobs and the server around
//! them.

pub mod browser;
pub mod catalog;
pub mod feeds;
pub mod ids;
pub mod jobs;
pub mod mutations;
pub mod pages;
pub mod pool;
pub mod queue;
pub mod server;
pub mod tracks;
