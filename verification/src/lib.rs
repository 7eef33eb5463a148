//! The decisions of a terminal player for YouTube Music.
//!
//! Everything the player decides is here, and nothing that it does to the world
//! around it: sockets, pipes, the audio device and the screen belong to the
//! program. What the program observes comes in as plain values, and what is to
//! be done about it goes out as plain values.
//!
//! - [`app`] is the state of the program, what each key does to it and what each
//!   answer of the source does; [`now_playing`] is the player page and its
//!   endless queue, and [`faces`] the terminal and the tray icon taking turns.
//! - [`player`] plays one track and recovers its stream when that dies, and
//!   [`player::chunked`] walks a file in ranges.
//! - [`resolver`] hunts for the stream of a video.
//! - [`sixel`], [`kitty`], [`graphics`], [`art`] and [`cover`] put pictures on
//!   the terminal, and [`terminal`] follows its cursor.
//! - [`console`] speaks with the window of a helper process, [`discord`] with
//!   Discord, and [`session`] with the sign-in window.
//! - [`config`] and [`diagnostics`] decide what is kept on disk and what is
//!   written to the log.

pub mod app;
pub mod art;
pub mod clock;
pub mod config;
pub mod console;
pub mod cover;
pub mod diagnostics;
pub mod discord;
pub mod faces;
pub mod graphics;
pub mod json;
pub mod keys;
pub mod kitty;
pub mod now_playing;
pub mod player;
pub mod resolver;
pub mod session;
pub mod sixel;
pub mod source;
pub mod terminal;
pub mod text;
