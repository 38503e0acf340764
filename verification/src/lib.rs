//! A micro-benchmark workload: streams of synthetic employee records, built
//! from a random source and reduced to the mean of their salaries.

pub mod source;
pub mod employee;
pub mod char_pool;
pub mod stream;
pub mod aggregate;
pub mod trial;
pub mod fast_rand;
pub mod small_random;
