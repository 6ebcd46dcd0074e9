//! The core of a terminal monitor for the jobs of a Slurm cluster: what it knows, how it reacts,
//! and what it shows.

pub mod app;
pub mod command;
pub mod dialog;
pub mod display;
pub mod event;
pub mod geometry;
pub mod job;
pub mod job_acct;
pub mod key_laws;
pub mod laws;
pub mod list_laws;
pub mod list_state;
pub mod path;
pub mod record_laws;
pub mod screen_laws;
pub mod text;
pub mod text_input;
pub mod text_laws;
pub mod update;
pub mod view;
