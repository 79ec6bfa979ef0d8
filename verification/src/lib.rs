//! Simulation core of a small real-time arcade battle: one player, a
//! sequence of scripted enemies, and the bullets that both sides fire.
//!
//! The world ([`app::App`]) is stepped by [`app::App::tick`], which takes the
//! time that has passed and works off the events that were queued since the
//! last step. Drawing the world and reading the keyboard, the mouse and the
//! clock are left to the caller.
//!
//! All quantities are fixed-point integers (see [`fixed`]), so that a step is
//! a total, deterministic function of the state, the queued events and the
//! elapsed time. Each type that holds state comes with a model, and each
//! function says in terms of the models what it does.
//!
//! - [`fixed`], [`trig`], [`vecmath`]: numbers, angles and plane vectors
//! - [`app`]: the player, the bullets, the world and its tick
//! - [`collision`]: what happens to a pool of bullets
//! - [`battle`]: the enemies and their attack schedules
//! - [`handler`]: what the keys do
//! - [`skill`], [`text`]: queued abilities, and numbers as text for the log

pub mod app;
pub mod battle;
pub mod collision;
pub mod fixed;
pub mod handler;
pub mod skill;
pub mod text;
pub mod trig;
pub mod vecmath;
