//! Planning core of a parallel package-build orchestrator: every decision the
//! run makes is a function from plain values to plain values, with a contract.

pub mod seqs;
pub mod text;
pub mod source;
pub mod recipe;
pub mod manifest;
pub mod child;
pub mod deps;
pub mod builder;
pub mod version;
pub mod domain;
pub mod repo;
pub mod janitor;
pub mod publish;
pub mod scheduler;
pub mod pipeline;
