//! Acquisition pipeline for rhythm-game song packs: the decisions that turn
//! a remote archive into converted charts mirrored into a song folder.

pub mod catalog;
pub mod convert;
pub mod converting;
pub mod download;
pub mod error;
pub mod extract;
pub mod locate;
pub mod maps;
pub mod mirror;
pub mod paths;
pub mod pipeline;
pub mod progress;
pub mod sort;
pub mod text;
pub mod transfer;
pub mod types;
pub mod walk;
pub mod url;
