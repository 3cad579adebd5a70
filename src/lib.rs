//! A wallpaper daemon's state engine: a bounded, navigable history of shown
//! images, the selection policy that picks the next image, and the text
//! protocol that clients use to drive the daemon.

pub mod command;
pub mod config;
pub mod daemon;
pub mod history;
pub mod number;
pub mod path;
pub mod protocol;
pub mod selection;
pub mod setter;
pub mod state;
