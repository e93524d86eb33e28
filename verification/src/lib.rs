//! A turn-based action-resolution engine.
//!
//! Every actor owns a queue of pending actions. A scene drains the queues in
//! ascending order of actor id and applies each action to the shared table of
//! actors; an action may change resources, write to the scene's output log and
//! hand back reactions addressed to other actors.
//!
//! All quantities are whole numbers (`i64`); the contracts speak of them as
//! mathematical integers.

pub mod action;
pub mod action_collection;
pub mod action_laws;
pub mod actor;
pub mod catalog;
pub mod name_map;
pub mod order;
pub mod processing;
pub mod processing_laws;
pub mod resource;
pub mod scene;
pub mod text;
