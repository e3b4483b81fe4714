pub mod bytes;
pub mod change_tree;
pub mod cli;
pub mod clipboard;
pub mod config;
pub mod dashboard;
pub mod diff;
pub mod file_icon;
pub mod git_diff;
pub mod highlight;
pub mod order;
pub mod path;
pub mod repository;
pub mod session;
pub mod state;
pub mod theme;
pub mod viewer;
pub mod worker;
