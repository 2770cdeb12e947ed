//! The service core of CodexManager: background-task settings, usage snapshot
//! decisions, account warmup, proxy selection, settings files, installation ids
//! and RPC tokens, each stated and proved with Verus.
pub mod text;
pub mod num;
pub mod usage;
pub mod settings;
pub mod idset;
pub mod warmup;
pub mod dotenv;
pub mod proxy;
pub mod ids;
pub mod paths;
pub mod laws;
