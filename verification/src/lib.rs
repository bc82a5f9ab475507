//! Core logic of the Prayer terminal music player: the music library index,
//! synced lyrics, the metadata editor, the downloader state and the keyboard
//! driven navigation state, each with its contract.

pub mod config;
pub mod display;
pub mod downloader;
pub mod keys;
pub mod library;
pub mod lyrics;
pub mod metadata;
pub mod order;
pub mod player;
pub mod playlists;
pub mod text;
