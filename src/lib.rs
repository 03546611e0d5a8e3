//! Edge-triggered button events from the raw status reports of a game controller.
//!
//! The report model (byte offsets, bit masks and the directional-pad nibble) lives in
//! [`report`]; the diffing of two reports into ordered events in [`events`]; stateful
//! per-control tracking with change handlers in [`controls`]; the polling state
//! (previous report, pacing) in [`polling`]; and the proved properties of the model and
//! of the diffing in [`theorems`].
pub mod report;
pub mod events;
pub mod controls;
pub mod polling;
pub mod theorems;
