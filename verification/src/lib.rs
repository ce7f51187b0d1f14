//! Library of the water quality monitoring station: the text formats of the
//! station's files, the channel registry's rules, the display state and the
//! command language of the chat bot.

pub mod text;
pub mod error;
pub mod config;
pub mod cli;
pub mod models;
pub mod users;
pub mod analog;
pub mod channel;
pub mod display;
pub mod bot;
pub mod clock;
pub mod nitri;
pub mod wifi;
pub mod collect;
pub mod prop;
