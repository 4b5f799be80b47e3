//! The IPK packager: archive layers, package manifests, input validation,
//! the control member, and the data member's entry layout.

pub mod archive;
pub mod control;
pub mod data;
pub mod ipk;
pub mod validation;
pub mod manifest;
