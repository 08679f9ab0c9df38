//! The logic of a small desktop shell: a screen border, a status bar that slides
//! out of the top edge and a notification stack that grows out of the bottom
//! one. Nothing here talks to a compositor or a bus; every function computes
//! from plain values and states what it computes.

pub mod app;
pub mod bar;
pub mod config;
pub mod edge;
pub mod geometry;
pub mod ipc;
pub mod names;
pub mod notify;
pub mod pixmap;
pub mod preview;
pub mod render;
pub mod script;
pub mod shell;
pub mod text;
pub mod time;
