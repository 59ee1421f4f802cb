//! The state and message handling of the web client's pages.

pub mod auth;
pub mod home;
pub mod view_task;
