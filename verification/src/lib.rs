//! Verified host-side logic of the ARLE inference stack: expert-parallel
//! placement, activation dispatch and tape bookkeeping, model-repository
//! planning, chat prompt rendering, grammar-matcher configuration,
//! checkpoint read plans and recurrent-state snapshots.

pub mod activation;
pub mod arith;
pub mod chat;
pub mod checkpoint;
pub mod expert_state;
pub mod json;
pub mod modelscope;
pub mod recurrent_state;
pub mod text;
pub mod xgrammar;
