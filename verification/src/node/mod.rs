//! Nodes: what they declare, how they reach the workflow, and how they are made.
pub mod base;
pub mod custom;
pub mod registry;
