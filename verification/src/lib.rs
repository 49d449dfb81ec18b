//! Client-side logic of the Lemon Colonies game: persistent key-value
//! storage and its on-disk format, calendar conversion of server time,
//! locale selection, translation keys, the identifiers, settings and icon
//! images the user interface is built from, and the states of the
//! connection to the game server and of requests to its HTTP API.

pub mod text;
pub mod raster;
pub mod storage;
pub mod server_time;
pub mod i18n;
pub mod ui;
pub mod settings;
pub mod game;
pub mod ws;
pub mod http;
