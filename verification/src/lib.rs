//! Capture-to-text pipeline core: devices, sample conditioning, segment
//! windowing, recognition bookkeeping and shared-state synchronization.

pub mod audio;
pub mod capture;
pub mod devices;
pub mod handler;
pub mod ident;
pub mod model;
pub mod sample;
pub mod types;
pub mod whisper;
pub mod window;
pub mod ws;
