//! What stands beside the models: the cache's clock and the routing of messages.

pub mod cache;
pub mod communication;
