//! Coroutine contexts and the stacks they run on.
pub mod context;
pub mod stack;
