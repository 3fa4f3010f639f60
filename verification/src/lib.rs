//! The application manager's library: the configuration engine (values,
//! schemas, rules, and the cascade that carries a configuration change to the
//! dependent applications), the commands and their arguments, and the
//! manifest and the inspection of application packages.

pub mod api;
pub mod config;
pub mod error;
pub mod inspect;
pub mod manifest;
pub mod text;
