//! Logic of the map editor that does not depend on its user interface.

pub mod asset_registry;
pub mod canvas;
pub mod canvas_input;
pub mod config;
pub mod cutscene_editor;
pub mod event_editor;
pub mod fill;
pub mod ground;
pub mod ids;
pub mod import;
pub mod labels;
pub mod outliner;
pub mod placement;
pub mod stamp;
pub mod terrain;
pub mod terrain_names;
pub mod tools;
pub mod workspace;
pub mod zone_presets;
