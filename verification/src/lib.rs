//! The verified core of `nix-init`, a generator of Nix packages.
#![allow(unused_imports)]

pub mod builder;
pub mod command;
pub mod error;
pub mod fod;
pub mod license;
pub mod nesting;
pub mod pname;
pub mod ranking;
pub mod render;
pub mod revision;
pub mod session;
pub mod source;
pub mod text;
