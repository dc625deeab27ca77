//! The choices that a command is run with.

use vstd::prelude::*;

verus! {

/// The choices of a build.
#[derive(Debug, Clone, Copy, PartialEq, Eq, Structural)]
pub struct BuildArgs {
    /// Watch for changes after the build.
    pub watch: bool,
    /// Watch beside the caller rather than in its place.
    pub watch_in_spawn: bool,
    /// Clean old files before the build.
    pub clean: bool,
    /// Pack the built files into one archive.
    pub archive: bool,
}

/// The choices of serving a site.
#[derive(Debug, Clone, Copy, PartialEq, Eq, Structural)]
pub struct ServerArgs {
    /// The port to listen on.
    pub port: u16,
    /// Clean old files before the build.
    pub clean: bool,
}

/// The choices of creating a document.
#[derive(Debug)]
pub struct CreateArgs {
    /// The path of the new document below its content directory.
    pub path: String,
    /// Create a page rather than a post.
    pub page: bool,
}

/// How a build watches for changes once it is done.
#[derive(Debug, Clone, Copy, PartialEq, Eq, Structural)]
pub enum WatchMode {
    /// It does not watch.
    Off,
    /// It watches beside the caller, who goes on.
    Spawned,
    /// It watches in the caller's place.
    Inline,
}

impl BuildArgs {
    /// How a build with these choices watches: not at all unless asked
    /// to, else beside the caller or in its place.
    pub open spec fn spec_watch_mode(&self) -> WatchMode {
        if !self.watch {
            WatchMode::Off
        } else if self.watch_in_spawn {
            WatchMode::Spawned
        } else {
            WatchMode::Inline
        }
    }

    /// How a build with these choices watches.
    pub fn watch_mode(&self) -> (mode: WatchMode)
        ensures
            mode == self.spec_watch_mode(),
    {
        if !self.watch {
            WatchMode::Off
        } else if self.watch_in_spawn {
            WatchMode::Spawned
        } else {
            WatchMode::Inline
        }
    }

    /// The choices of the build that serving starts with: it watches
    /// beside the server, packs no archive, and cleans as the server is
    /// asked to.
    pub fn for_serve(args: &ServerArgs) -> (build: BuildArgs)
        ensures
            build == (BuildArgs {
                watch: true,
                watch_in_spawn: true,
                archive: false,
                clean: args.clean,
            }),
    {
        BuildArgs { watch: true, watch_in_spawn: true, archive: false, clean: args.clean }
    }
}

} // verus!
