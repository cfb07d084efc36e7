//! Configurations: what they hold, how they are put together and checked.
pub mod loader;
pub mod schema;
pub mod validator;
pub mod workflow;
