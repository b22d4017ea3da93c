pub mod bot;
pub mod bytes;
pub mod config;
pub mod framer;
pub mod irc;
pub mod irc_parser;
