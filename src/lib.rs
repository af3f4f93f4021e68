//! Verified core of a remote game-server manager: the secure wire protocol's
//! framing and login rules, the per-server supervisor state machine, the
//! notification outbox, mod-directory bookkeeping and the backup engine's
//! progress accounting.

pub mod backup;
pub mod config;
pub mod console;
pub mod crypto;
pub mod dispatch;
pub mod menu;
pub mod modmeta;
pub mod mods;
pub mod notify;
pub mod protocol;
pub mod staging;
pub mod status;
pub mod supervisor;
pub mod text;
pub mod wire;
