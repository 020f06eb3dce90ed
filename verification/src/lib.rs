use vstd::prelude::*;

pub mod approvals;
pub mod chat;
pub mod hardening;
pub mod investigations;
pub mod json;
pub mod kubernetes;
pub mod logs;
pub mod models;
pub mod nacos;
pub mod profiles;
pub mod qwen;
pub mod redis;
pub mod resp;
pub mod secrets;
pub mod settings;
pub mod ssh;
pub mod system;
pub mod text;
pub mod tidb;
pub mod tools;

verus! {
} // verus!
