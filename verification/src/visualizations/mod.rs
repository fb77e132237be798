//! Visualization building blocks.
pub mod aurora;
pub mod feedback;
pub mod history;
pub mod life;
pub mod milkdrop;
pub mod registry;
pub mod render;
pub mod spectrogram;
pub mod spectrum;
pub mod starfield;
pub mod tunnel;
pub mod waveform;
