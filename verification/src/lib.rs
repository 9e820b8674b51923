//! Observation and action spaces for reinforcement-learning environments,
//! with the box space (a closed interval per element) as the central type.

pub mod common;
pub mod environment;
pub mod envs;
pub mod spaces;
pub mod tensor;
pub mod text;
pub mod utils;
