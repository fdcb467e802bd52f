//! A step-sequencer audio engine: a tempo clock that maps output frames to
//! positions on a fixed grid, tracks that play integer PCM samples when their
//! grid step comes round, a reducer for control commands, and a mixer that
//! renders stereo output buffers.
pub mod config;
pub mod engine;
pub mod looper;
pub mod sample;
pub mod state;
pub mod track;
