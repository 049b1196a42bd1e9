pub mod postgres;
pub mod scylla;
