pub mod engine;
pub mod events;
