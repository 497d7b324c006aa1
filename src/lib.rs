//! A discrete-time traffic simulation on a rectangular grid: vehicles drive
//! along grid lines toward their destinations while intersection lights cycle
//! through their phases.

pub mod grid;
pub mod light;
pub mod point;
pub mod scheduler;
mod random;
pub mod vehicle;
