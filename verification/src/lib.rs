//! The ReviveL Companion core: settings, the lbrynet configuration and
//! supervisor, URLs and origins, native messaging, and the release archive.

pub mod text;
pub mod settings;
pub mod urls;
pub mod config;
pub mod daemon;
pub mod native;
pub mod archive;
pub mod logs;
pub mod ui;
