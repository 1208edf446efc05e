//! Robots moving over a bounded rectangular grid, driven by left / right /
//! forward commands, with a shared registry of scents that keeps later robots
//! from falling off the grid where an earlier robot was lost.
pub mod laws;
pub mod mission_instructions;
pub mod parser;
pub mod robots;
pub mod scent;
pub mod text;

pub use mission_instructions::{
    run_mission, Command, Coordinates, MissionError, Orientation, RobotCommands,
};
pub use parser::parse_input_to_command;
pub use robots::{Robot, RobotPosition, RobotStatus};
pub use scent::ScentTracker;
