//! The verified core of a multi-room game session service.
//!
//! A client asks for a room over HTTP; the room gets a record in a document
//! store and a runtime that talks to the players over an MQTT broker. This
//! crate holds what is decided along the way: the wire formats of the
//! messages and of the topics, the state machine of the game, and the
//! decisions of the three actors (the repository actor, the creation of a
//! room, the runtime of a room) as functions from what has happened to
//! what to do next. Whoever drives an actor performs what it is told: the
//! store, the broker and the clock are outside this crate.
pub mod client;
pub mod config;
pub mod deps;
pub mod http;
pub mod message;
pub mod repository;
pub mod room;
pub mod service;
pub mod text;
pub mod topic;
