//! The gamma function.

pub mod stirling_approximation;

pub use stirling_approximation::gamma_case;
