//! Simulation core of a squad-based dodgeball battle: the crowd density grid,
//! squad aggregates, the ball lifecycle, contact routing and the decisions of
//! bot-controlled squads.
pub mod ball;
pub mod collision;
pub mod grid2;
pub mod occupancy_grid;
pub mod opponent_ai;
pub mod parameters;
pub mod physics;
pub mod player;
pub mod scoreboard;
pub mod settings;
pub mod squad;
pub mod team;
pub mod timer;
