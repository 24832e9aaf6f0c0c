//! Build-and-cache core of a markdown directory server: an artifact store
//! keyed by logical path, single-flight build coordination, change-event
//! normalisation, discovery and subscriber fan-out.

pub mod builder;
pub mod discovery;
pub mod markdown;
pub mod msg;
pub mod order;
pub mod path;
pub mod router;
pub mod store;
pub mod text;
pub mod textmap;
pub mod ui;
pub mod watch;
