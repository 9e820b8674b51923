//! Helpers shared by the spaces.

pub mod seeding;
