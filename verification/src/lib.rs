//! Verified core of a terminal music visualizer: canvases that turn pixel
//! grids into terminal cells, palettes and mode cycles, the visualization
//! carousel, shader bookkeeping, audio frame framing and configuration
//! defaults.
pub mod audio;
pub mod beat;
pub mod config;
pub mod gpu;
pub mod pipeline;
pub mod processing;
pub mod text;
pub mod ui;
pub mod visualizations;
