//! Decision and text logic of the `riff` session recorder.

pub mod annotations;
pub mod audio;
pub mod bus;
pub mod chunk;
pub mod cli;
pub mod config;
pub mod daemon;
pub mod delivery;
pub mod engine;
pub mod error;
pub mod events;
pub mod history;
pub mod html;
pub mod http;
pub mod images;
pub mod json;
pub mod locate;
pub mod measure;
pub mod models;
pub mod moment;
pub mod note;
pub mod number;
pub mod pages;
pub mod parakeet;
pub mod paths;
pub mod pattern;
pub mod perf;
pub mod pipeline;
pub mod probe;
pub mod recorder;
pub mod servers;
pub mod session;
pub mod setup;
pub mod shots;
pub mod stopping;
pub mod template;
pub mod text;
pub mod transcription;
pub mod watch;
pub mod watcher;
pub mod wire;
