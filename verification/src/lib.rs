pub mod role;
pub mod errors;
pub mod diag;
pub mod strutil;
pub mod snippet;
pub mod actions;
pub mod environ;
pub mod rules;
pub mod escape;
pub mod run;
pub mod annotate;
