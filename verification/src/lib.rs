//! World-server core of a multi-startup agent town: task lifecycle, room
//! routing and movement, worker liveness, permissions and the small pure
//! policies that the server's I/O shell applies.

pub mod task_sm;
pub mod path;
pub mod health;
pub mod state;
pub mod seed;
pub mod move_sys;
pub mod view;
pub mod text;
pub mod permissions;
pub mod auth;
pub mod mcp_dispatch;
pub mod skills;
pub mod agent_tools;
pub mod self_review;
pub mod scheduler;
pub mod presence;
pub mod metrics;
pub mod budget;
pub mod agent_supervisor;
pub mod protocol;
pub mod console;
pub mod api_startups;
pub mod config;
pub mod det;
pub mod action_locks;
pub mod backend_catalog;
pub mod sandbox;
pub mod execenv_gc;
pub mod loop_;
pub mod mcp_http;
pub mod proximity;
pub mod api_tasks;
pub mod backup;
