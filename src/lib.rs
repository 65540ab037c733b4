//! The execution core of a build engine: canonical process requests,
//! memoized dispatch of identical work, and materialization of process
//! outcomes from a content-addressed store.

pub mod digest;
pub mod text;
pub mod request;
pub mod outcome;
pub mod registry;
pub mod error;
pub mod materialize;
pub mod store;
pub mod engine;
