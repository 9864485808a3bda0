//! Decision logic of the session server.

pub mod acp;
pub mod acp_history;
pub mod acp_session;
pub mod compaction;
pub mod config_options;
pub mod edit_requests;
pub mod goal;
pub mod goal_requests;
pub mod ids;
pub mod inputs;
pub mod json;
pub mod message_edit;
pub mod pages;
pub mod paths;
pub mod protocol;
pub mod queue;
pub mod queue_requests;
pub mod replay;
pub mod rollback;
pub mod rollback_preview;
pub mod rollback_workspace;
pub mod schedule;
pub mod session_admin;
pub mod session_fork;
pub mod session_list;
pub mod session_metadata;
pub mod session_state;
pub mod session_tree;
pub mod sessions;
pub mod slash_commands;
pub mod subscription;
pub mod text;
pub mod transcript;
pub mod turn_cut;
pub mod turn_model;
pub mod turn_start;
pub mod workspace_restore;
