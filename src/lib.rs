//! Moving-average crossover over fixed-point price samples.

pub mod mean;
pub mod strategy;
pub mod window;
