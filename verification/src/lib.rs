//! Bridge logic between a grid control surface and a remote production
//! system: decoding raw input frames into typed events, tracking which
//! scene, video source and audio source each physical control is bound to,
//! deciding which remote operation each event requires, and keeping the
//! surface's indicator LEDs consistent with confirmed remote state.

pub mod apcmini;
pub mod config;
pub mod control;
pub mod supervisor;
