//! Launcher logic for VoxelRuler: version metadata, launch command
//! construction, mod loader version handling and instance bookkeeping.
pub mod text;
pub mod mc_types;
pub mod settings;
pub mod order;
pub mod mc_instance;
pub mod paths;
pub mod mc_parser;
pub mod mc_compat;
pub mod launch;
pub mod mc_modloader;
pub mod mc_legacy_fml;
pub mod skin_history;
pub mod mc_paths;
pub mod instance_assets;
pub mod nbt;
pub mod mc_install;
pub mod ipc;
pub mod deeplink;
pub mod java_scan;
pub mod mc_api;
pub mod view;
pub mod skin_images;
pub mod auth;
