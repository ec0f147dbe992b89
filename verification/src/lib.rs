pub mod errors;
pub mod forms;
pub mod notify;
pub mod outside;
pub mod queue;
pub mod support;
pub mod token;
pub mod workflow;
