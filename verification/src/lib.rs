//! SSH management shell of an EasyTier node.
pub mod address;
pub mod auth;
pub mod command;
pub mod config;
pub mod pty;
pub mod router;
pub mod rpc_readonly;
pub mod runtime;
pub mod session;
pub mod sftp;
pub mod sftp_attrs;
pub mod sftp_path;
pub mod sftp_request;
pub mod text;
pub mod wire;
