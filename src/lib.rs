//! Provisioning of a native inference backend and of model weights:
//! execution planning, package-index selection, cache discovery, download
//! bookkeeping and the one-shot backend initialisation guard.

pub mod text;
pub mod version;
pub mod platform;
pub mod cache;
pub mod pypi;
pub mod cli;
pub mod runtime;
pub mod download;
pub mod model;
pub mod request;
pub mod compose;
