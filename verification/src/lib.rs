//! Core logic of a terminal user interface: actions and key bindings,
//! navigation and focus, help, layout helpers, configuration, error
//! classification and recovery, user feedback, terminal capability
//! detection, and the bookkeeping of rendering, startup and memory.

pub mod action;
pub mod app;
pub mod cache;
pub mod config;
pub mod dispatch;
pub mod engine;
pub mod error;
pub mod event;
pub mod feedback;
pub mod focus;
pub mod help;
pub mod keys;
pub mod layout;
pub mod memory;
pub mod monitoring;
pub mod named;
pub mod navigation;
pub mod performance;
pub mod platform;
pub mod startup;
pub mod templates;
pub mod state;
pub mod text;
pub mod widget;
