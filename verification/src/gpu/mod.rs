//! Bookkeeping for the GPU shader mode.
pub mod audio_texture;
pub mod shader_loader;
