//! Verified core of the Lattice audiovisual instrument: key tables, scale
//! definitions, the integer skeleton of the generative scheduler, the
//! multitouch pointer tracker, the one-shot voice pool, the procedural noise
//! source, the WAV encoder, the gesture outbox and the renderer's sizes.
pub mod audio;
pub mod control;
pub mod dom;
pub mod events;
pub mod input;
pub mod music;
pub mod offline;
pub mod perf;
pub mod render;
