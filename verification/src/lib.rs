//! Core logic of a Pomodoro timer: the work/break phases, the session and
//! pause records kept in storage, the queries run over them, the timer state
//! machine driven by the user interface, and the text shown on screen.

pub mod timer;
pub mod session;
pub mod queries;
pub mod text;
pub mod input;
pub mod settings;
pub mod tasks;
pub mod controller;
pub mod error;
pub mod schema;
