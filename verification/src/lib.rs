//! A manually pumped Tauri bridge: the request routing, event subscription
//! bookkeeping, host asset answers and Windows path rules, verified.

pub mod text;
pub mod order;
pub mod error;
pub mod webviews;
pub mod events;
pub mod paths;
pub mod shortcut;
pub mod data_dir;
pub mod assets;
pub mod bridge;
pub mod headless;
