//! The core of a multi-backend Minecraft proxy: the decisions that turn one
//! client session into traffic for several backend servers, with the
//! identifier tables that keep the backends consistent from the client's
//! point of view.
//!
//! The library holds no socket and no lock. Callers read and write packets,
//! hand the library what they read, and perform the actions it returns.

pub mod bijection;
pub mod client;
pub mod commands;
pub mod dictionary;
pub mod error;
pub mod ids;
pub mod keyed;
pub mod kick;
pub mod lifecycle;
pub mod mapping;
pub mod packet;
pub mod playersave;
pub mod proxy;
pub mod relay;
pub mod tags;
pub mod version;
pub mod zoning;
