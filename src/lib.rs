//! Short-lived cloud credentials: resolving the role to assume, deriving the
//! MFA code, retrying the exchange with the identity service, and handing the
//! resulting credentials to a shell or a child process.

pub mod duration;
pub mod text;
pub mod config;
pub mod profiles;
pub mod ini;
pub mod mfa;
pub mod cli;
pub mod broker;
pub mod sink;
