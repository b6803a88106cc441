//! Game logic of a small action game: entity states, combo attacks and
//! enemy AI decisions, input key state, action- and level-file parsing,
//! skeleton joint layout, grid meshes, polygon bookkeeping and resource
//! names.

pub mod action;
pub mod action_loader;
pub mod action_parser;
pub mod action_system;
pub mod ai;
pub mod animation_player;
pub mod behaviour;
pub mod camera;
pub mod collision_shape;
pub mod commands;
pub mod controls;
pub mod deltatime;
pub mod entities;
pub mod entity;
pub mod float_text;
pub mod grid;
pub mod ik;
pub mod level;
pub mod manager;
pub mod mesh_data;
pub mod model;
pub mod physics;
pub mod resources;
pub mod shot;
pub mod skeleton;
pub mod state;
pub mod text;
pub mod update;
