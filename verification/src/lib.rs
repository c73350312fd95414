//! A discrete-time stochastic simulation of agents spread across
//! capacity-bounded tiers: congestion-driven hazards, policy interventions
//! and periodic narrated status reports, with every real-valued quantity
//! carried in fixed-point micro-units.

pub mod agent;
pub mod config;
pub mod dynamics;
pub mod engine;
pub mod event;
pub mod fixed;
pub mod language;
pub mod policy;
pub mod rng;
pub mod stability;
pub mod template;
pub mod text;
pub mod tier;

pub use agent::Agent;
pub use engine::SimulationEngine;
pub use engine::SimulationResults;
pub use event::Event;
pub use tier::CapacityTier;
