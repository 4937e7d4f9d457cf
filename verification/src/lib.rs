//! Build Bridge: the project registry, preferences and bridge-serving logic of
//! the Build Bridge desktop tool, with their behaviour stated as contracts.
pub mod text;
pub mod models;
pub mod config;
pub mod sorting;
pub mod settings;
pub mod store;
pub mod builds;
pub mod listing;
pub mod terminal;
pub mod bridge;
pub mod icons;
pub mod selection;
pub mod dashboard;
pub mod qr;
pub mod timestamps;
