//! Core of a terminal directory player: a live index of the media files under
//! the watched roots, a fuzzy filter over that index, and the decisions that
//! drive the audio backends.

pub mod archives;
pub mod backend_trait;
pub mod config;
pub mod constants;
pub mod data;
pub mod directories;
pub mod echo_area;
pub mod external;
pub mod files;
pub mod filter;
pub mod in_process;
pub mod index;
pub mod keys;
pub mod order;
pub mod session;
pub mod style;
pub mod text;
pub mod ui;
pub mod utils;
pub mod watch;
