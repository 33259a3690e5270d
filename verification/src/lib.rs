//! An incremental acceptance-query engine for abstract argumentation.
//!
//! The engine owns a directed framework of arguments and attacks, forwards
//! structural edits to a backend solving strategy, and answers credulous and
//! skeptical acceptance queries for a staged assumption, caching the witness
//! extension returned by the last query.  The combinatorial search itself is
//! delegated to the `crustabri` argumentation library behind a small set of
//! trusted wrappers; everything around it — the framework store, the
//! semantics selector and the query lifecycle — is verified.

pub mod semantics;
pub mod framework;
pub mod backend;
pub mod engine;

pub use semantics::IpafairSolverSemantics;
pub use backend::BackendChoice;
pub use backend::ExternalSatSolverFactory;
pub use engine::IpafairSolver;
