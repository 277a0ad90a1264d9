//! What a build reports back to its caller when it fails.
use vstd::prelude::*;

verus! {

/// A failed build, with the message to show.
#[derive(Debug)]
pub struct BuildError {
    pub message: String,
}

impl From<String> for BuildError {
    fn from(message: String) -> (r: BuildError)
        ensures
            r.message == message,
    {
        BuildError { message }
    }
}

impl vstd::std_specs::convert::FromSpecImpl<String> for BuildError {
    open spec fn obeys_from_spec() -> bool {
        true
    }

    open spec fn from_spec(v: String) -> BuildError {
        BuildError { message: v }
    }
}


/// A build asked for: the profile, the target, whether to rebuild everything,
/// whether to print the commands, and the workspace member to build. (The
/// caller watches for cancellation and tells the build driver when it comes.)
#[derive(Debug)]
pub struct BuildRequest {
    pub profile: String,
    pub target: Option<String>,
    pub force: bool,
    pub verbose: bool,
    pub workspace: Option<String>,
}

/// What the build engine reports while it works.
#[derive(Debug)]
pub enum BuildEvent {
    TargetStart { index: usize, total: usize, target: String },
    ProjectStart { name: String, profile: String, target: String },
    DepBuilding { name: String, version: String },
    DepReady { name: String, version: String, rebuilt: bool },
    Compiling { name: String, version: String },
    Packing { path: String },
    CompilerOutput { stream: String, text: String },
    /// The whole build took this many hundredths of a second.
    Finished { hundredths: u64 },
}

/// Receives the events of a build: a command-line, editor or other frontend.
pub trait BuildReporter {
    /// Called for each event, in order.
    fn on_event(&mut self, event: BuildEvent);
}

} // verus!
