//! Diagnosis and repair logic for the bundled plugins of Codex Desktop on Windows.
//!
//! The library holds every decision the repair tool makes: how paths are derived,
//! how directory listings and process lists are read, what a diagnosis reports and
//! which repair steps follow. The program around it only touches the file system,
//! the process table and the screen.
#![allow(non_snake_case, non_camel_case_types)]

pub mod text;
pub mod order;
pub mod versions;
pub mod paths;
pub mod log;
pub mod manifest;
pub mod diagnose;
pub mod processes;
pub mod repair;
pub mod ui;
pub mod win32;
