pub mod buffer;
pub mod editor;
pub mod ids;
pub mod paths;
pub mod session;
pub mod text;
pub mod workspace;
pub mod cursor;
pub mod viewport;
pub mod editor_state;
pub mod command;
pub mod config;
pub mod event_bus;
pub mod runtime;
pub mod keys;
