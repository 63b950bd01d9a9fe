//! Core event pipeline of a mechanical-keyboard firmware: matrix grid
//! sampling, anti-bounce filtering, layered keymap resolution with hold-tap
//! disambiguation and macro playback, and HID report assembly.
//!
//! The hardware edge (pin drive/read, USB transport, timer interrupts and the
//! fatal device-action hook) is supplied by the embedding program; this crate
//! holds the verified logic between raw grid samples and wire-level reports.

pub mod keycodes;
pub mod grid;
pub mod event;
pub mod debounce;
pub mod action;
pub mod layout;
pub mod report;
pub mod pipeline;
pub mod laws;
