//! Verified core of the Bugs agent runtime.
pub mod clock;
pub mod html;
pub mod text;
pub mod types;
pub mod scheduler;
pub mod tools;
pub mod search;
pub mod security;
pub mod weixin;
pub mod skill;
pub mod tui;
pub mod agent;
pub mod envvars;
pub mod models;
pub mod stream;
pub mod wire;
pub mod daemon;
pub mod scene;
pub mod module;
pub mod browser;
pub mod browser_manager;
pub mod lsp;
pub mod hotreload;
pub mod chromium;
pub mod memory;
pub mod cron;
pub mod persistence;
pub mod config;
pub mod mcp;
pub mod cli;
pub mod web;
