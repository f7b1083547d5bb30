//! The decisions of a wallet storage server: how requests are routed, how a
//! client's sync chunk is merged into the store, and how a chunk is read back.

pub mod backup;
pub mod backup_laws;
pub mod codec;
pub mod dispatch;
pub mod dispatch_laws;
pub mod entities;
pub mod error;
pub mod http;
pub mod http_laws;
pub mod json;
pub mod json_laws;
pub mod r2;
pub mod route_laws;
pub mod sql;
pub mod storage;
pub mod text;
pub mod text_laws;
pub mod time;
pub mod types;
