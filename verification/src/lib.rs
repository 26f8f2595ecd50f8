//! Verified decision logic behind a coding agent's client sessions.
pub mod app_event;
pub mod auth;
pub mod backend_client;
pub mod bash_env;
pub mod capture;
pub mod environment;
pub mod event_delivery;
pub mod git_env;
pub mod ids;
pub mod in_process;
pub mod json;
pub mod plugin_snapshot;
pub mod referral;
pub mod referral_confirmation;
pub mod referral_session;
pub mod referral_widget;
pub mod request_id;
pub mod rpc_error;
pub mod runtime;
pub mod runtime_loop;
pub mod selection_view;
pub mod shutdown;
pub mod text;
pub mod unix_path;
