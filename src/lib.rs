//! A sequential command pipeline: declarative steps, their resolution into
//! concrete invocations, and the state machine that drives them one at a time.
pub mod text;
pub mod context;
pub mod drivers;
pub mod executor;
pub mod helpers;
pub mod lemmas;
pub mod resolver;
pub mod rng;
pub mod scan;
pub mod session;
pub mod types;
