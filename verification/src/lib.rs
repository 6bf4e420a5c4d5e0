pub mod catalog;
pub mod exposition;
pub mod gauges;
pub mod identity;
pub mod parser;
pub mod registry;
pub mod sampler;
