//! Verified core of a terminal dashboard for Godot projects whose editor is
//! provided by a Nix flake: the `project.godot` reader, the flake and project
//! generators, the registry and its ordering rules, and the decisions that the
//! dashboard takes on the results of Nix and of the release catalogue.
pub mod text;
pub mod json;
pub mod project;
pub mod model;
pub mod nix;
pub mod generator;
pub mod readback;
pub mod release;
pub mod order;
pub mod forms;
pub mod registry;
pub mod launcher;
pub mod dashboard;
pub mod workflow;
pub mod keys;
pub mod shell;
pub mod paths;
pub mod view;
