//! What running a module as an actor on a capability host needs decided:
//! which capabilities the actor is bound to, and what a failed step comes to.

use vstd::prelude::*;
use vstd::string::*;

use crate::pod::label_views;

verus! {

/// The architecture of a node that runs actors.
pub const TARGET_WASM32_WASCC: &'static str = "wasm32-wascc";

/// The name of the capability that serves HTTP.
pub const HTTP_CAPABILITY: &'static str = "wascc:http_server";

/// The name of the capability that writes logs.
pub const LOG_CAPABILITY: &'static str = "wascc:logging";

/// The directory of the actors' logs below the data directory.
pub const LOG_DIR_NAME: &'static str = "wascc-logs";

/// A capability as an actor is bound to it: its name, and the settings it
/// is configured with for that actor.
#[derive(Debug)]
pub struct Capability {
    pub name: &'static str,
    pub env: Vec<(String, String)>,
}

/// A capability as plain characters.
pub struct CapabilityView {
    pub name: Seq<char>,
    pub env: Seq<(Seq<char>, Seq<char>)>,
}

impl View for Capability {
    type V = CapabilityView;

    open spec fn view(&self) -> CapabilityView {
        CapabilityView { name: self.name@, env: label_views(self.env@) }
    }
}

/// Capabilities as plain characters.
pub open spec fn capability_views(capabilities: Seq<Capability>) -> Seq<CapabilityView> {
    capabilities.map_values(|c: Capability| c@)
}

/// The capabilities of an actor that serves HTTP: the HTTP server with the
/// container's environment, then the logger with the path of the log file
/// under the host's key for it.
pub fn http_actor_capabilities(env: Vec<(String, String)>, log_path_key: &str, log_path: &str) -> (
    capabilities: Vec<Capability>)
    ensures
        capability_views(capabilities@) == seq![
            CapabilityView { name: HTTP_CAPABILITY@, env: label_views(env@) },
            CapabilityView { name: LOG_CAPABILITY@, env: seq![(log_path_key@, log_path@)] },
        ],
{
    let mut capabilities: Vec<Capability> = Vec::new();
    capabilities.push(Capability { name: HTTP_CAPABILITY, env });
    let mut log_env: Vec<(String, String)> = Vec::new();
    log_env.push((String::from_str(log_path_key), String::from_str(log_path)));
    assert(label_views(log_env@) =~= seq![(log_path_key@, log_path@)]);
    capabilities.push(Capability { name: LOG_CAPABILITY, env: log_env });
    assert(capability_views(capabilities@) =~= seq![
        CapabilityView { name: HTTP_CAPABILITY@, env: label_views(env@) },
        CapabilityView { name: LOG_CAPABILITY@, env: seq![(log_path_key@, log_path@)] },
    ]);
    capabilities
}

/// A step of bringing an actor up, or of taking it down.
#[derive(Clone, Copy, Debug, PartialEq, Eq, Structural)]
pub enum ActorStep {
    /// Read the actor from the module's bytes.
    Load,
    /// Add the actor to the host.
    Add,
    /// Bind the actor to a capability.
    Bind,
    /// Remove the actor from the host.
    Remove,
}

/// What is said of a step that failed, before the cause.
pub open spec fn step_failure_prefix(step: ActorStep) -> Seq<char> {
    match step {
        ActorStep::Load => "Error loading WASM: "@,
        ActorStep::Add => "Error adding actor: "@,
        ActorStep::Bind => "Error configuring capabilities for module: "@,
        ActorStep::Remove => "unable to remove actor: "@,
    }
}

/// The error of a step that failed: what the step was at, then the cause.
pub fn step_failure(step: ActorStep, cause: &str) -> (text: String)
    ensures
        text@ == step_failure_prefix(step) + cause@,
{
    let prefix = match step {
        ActorStep::Load => "Error loading WASM: ",
        ActorStep::Add => "Error adding actor: ",
        ActorStep::Bind => "Error configuring capabilities for module: ",
        ActorStep::Remove => "unable to remove actor: ",
    };
    String::from_str(prefix).concat(cause)
}

} // verus!
