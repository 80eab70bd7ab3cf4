//! Verified core of a logging HTTP proxy: the request/response record model,
//! the VSCode REST (`.http`) log format, the log's destination, and the
//! proxy's routing decisions.

pub mod codecs;
pub mod config;
pub mod logger;
pub mod proxy;
pub mod record;
pub mod text;
pub mod writer;
