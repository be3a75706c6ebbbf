//! Verified core of the DeepSeek Harness desktop shell: link routing, the
//! harness-server launch plan, checkout discovery, the captured server-output
//! tail and the decisions of the boot sequence.

pub mod text;
pub mod web_url;
pub mod server_log;
pub mod paths;
pub mod launch;
pub mod boot;
pub mod commands;
