//! A task list in the style of Taskwarrior: tasks, their life cycle, filters,
//! urgency, the in-memory document that holds them, and the small amount of
//! session and sync vocabulary shared by the web client and the server.

pub mod client;
pub mod components;
pub mod config;
pub mod dates;
pub mod document;
pub mod filters;
pub mod input;
pub mod pages;
pub mod server;
pub mod session;
pub mod sort;
pub mod suggest;
pub mod styles;
pub mod sync;
pub mod task;
pub mod task_list;
pub mod text;
pub mod time;
pub mod urgency;
