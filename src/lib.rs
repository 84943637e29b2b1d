//! Updater for a Minecraft modpack: chooses a launcher, computes where the
//! release goes, finds the matching release asset, plans the install and
//! patches the instance metadata afterwards.

mod cli;
mod config_patch;
mod error;
mod install;
mod json_patch;
mod launcher;
mod release;
mod time_format;

pub use cli::Cli;
pub use config_patch::patch_instance_config;
pub use error::{EnvVar, UpdateError};
pub use install::{
    missing_asset_message, plan_update, removal_plan, target_preparation, DirEntryInfo, Removal,
    TargetPrep, UpdatePlan,
};
pub use json_patch::{update_json_value, JsonValue};
pub use launcher::{
    instance_name, join, launcher_for_key, staging_dir, staging_file, EnvValues, InstallMethod,
    Launcher, PACK_NAME,
};
pub use release::{find_asset, Asset, Release, INSTANCE_CONFIG, INSTANCE_METADATA};
pub use time_format::ShortTime;
