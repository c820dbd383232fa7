//! Core logic of a competitive-programming workspace tool: where solution
//! files live, which problems to practise next, how test runs are judged,
//! how stress tests proceed, and the colour rules of the terminal UI.

pub mod text;
pub mod paths;
pub mod models;
pub mod config;
pub mod workspace;
pub mod update;
pub mod recommender;
pub mod runner;
pub mod stress;
pub mod theme;
pub mod progress;
pub mod analytics;
pub mod setup;
