//! Core of a dictation companion: the history of dictation runs and the
//! corrections users make to them, kept in SQLite; the prompt context mined
//! from those corrections; the `KEY="value"` settings file; and the decisions
//! of the tailer that shows the pipeline's debug log.
pub mod config;
pub mod context;
pub mod display;
pub mod records;
pub mod store;
pub mod tailer;
pub mod text;
