//! A permissioned tree of directories, addressed by POSIX-style paths.
//!
//! `path_normalizer` resolves raw paths, `permission` decides who may do
//! what, `storage` states what a store of nodes owes its callers, `memory`
//! is such a store, and `manager` sequences each operation: resolve, fetch,
//! authorize, act. `command`, `account`, `auth` and `captcha` hold the rules
//! of the terminal commands and of the sessions around the tree.

pub mod account;
pub mod auth;
pub mod captcha;
pub mod clock;
pub mod command;
pub mod crypt;
pub mod ledger;
pub mod manager;
pub mod memory;
pub mod model;
pub mod path_normalizer;
pub mod pattern;
pub mod permission;
pub mod storage;
pub mod text;
