//! Verified core of the Maxwell 2D FDTD workbench: project model, TOML
//! document layout, scene bookkeeping, simulation control and grid indexing.
pub mod config;
pub mod dialog;
pub mod document;
pub mod grid;
pub mod objects;
pub mod scene;
pub mod simulation;
pub mod temp_config;
pub mod text;
pub mod toml_text;
