pub mod args;
pub mod create;
pub mod watch;

pub use args::{BuildArgs, CreateArgs, ServerArgs, WatchMode};
pub use watch::{WatchAction, WatchEvent, WatchPhase, WatchState};
