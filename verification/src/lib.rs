//! An interactive command line for a mail client: a text-edit buffer with a
//! cursor, a multi-level command grammar, fuzzy command completion over that
//! grammar, and the key-event loop that ties them together, next to the plain
//! data (configuration, envelopes, editing choices) the surrounding program
//! displays and decides on.

pub mod chars;
pub mod text_buffer;
pub mod tokens;
pub mod grammar;
pub mod fuzzy;
pub mod completer;
pub mod input_loop;
pub mod command;
pub mod color;
pub mod config;
pub mod backend;
pub mod cli;
pub mod editor;
pub mod envelope;
