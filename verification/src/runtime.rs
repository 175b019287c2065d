//! The life of one run of a WebAssembly module: the steps that the runtime
//! takes, and the status that it reports after each.

use vstd::prelude::*;
use vstd::string::*;

use crate::container::{rank, ContainerStatus, ContainerStatusView, StatusStream};
use crate::time::Timestamp;

verus! {

/// A step of a module's run.
#[derive(Clone, Copy, Debug, PartialEq, Eq, Structural)]
pub enum RunStage {
    /// Compile the module.
    CreateModule,
    /// Find what the module imports.
    LoadModule,
    /// Instantiate the module.
    InstantiateModule,
    /// Call the module's entry point.
    RunModule,
    /// The run is over.
    Finished,
}

/// The step after a step that went well.
pub open spec fn following(stage: RunStage) -> RunStage {
    match stage {
        RunStage::CreateModule => RunStage::LoadModule,
        RunStage::LoadModule => RunStage::InstantiateModule,
        RunStage::InstantiateModule => RunStage::RunModule,
        RunStage::RunModule => RunStage::Finished,
        RunStage::Finished => RunStage::Finished,
    }
}

/// What the status says when a step fails.
pub open spec fn failure_message(stage: RunStage) -> Seq<char> {
    match stage {
        RunStage::CreateModule => "unable to create module"@,
        RunStage::LoadModule => "unable to load module"@,
        RunStage::InstantiateModule => "unable to instantiate module"@,
        RunStage::RunModule => "unable to run module"@,
        RunStage::Finished => Seq::empty(),
    }
}

/// The error of a run that failed at a step: the step's message, a colon and
/// the cause; for a module that could not be loaded, and for a run that was
/// over already, the cause alone.
pub open spec fn failure_text(stage: RunStage, cause: Seq<char>) -> Seq<char> {
    match stage {
        RunStage::LoadModule | RunStage::Finished => cause,
        _ => failure_message(stage) + ": "@ + cause,
    }
}

/// The interface version that an import's module names.
#[derive(Clone, Copy, Debug, PartialEq, Eq, Structural)]
pub enum WasiVersion {
    /// `wasi_snapshot_preview1`.
    SnapshotPreview1,
    /// `wasi_unstable`.
    Unstable,
}

/// The interface version that a module name stands for.
pub open spec fn version_named(module: Seq<char>) -> Option<WasiVersion> {
    if module == "wasi_snapshot_preview1"@ {
        Some(WasiVersion::SnapshotPreview1)
    } else if module == "wasi_unstable"@ {
        Some(WasiVersion::Unstable)
    } else {
        None
    }
}

/// The interface version that an import's module names, or the error that
/// says that no such module is known.
pub fn import_source(module: &str) -> (r: Result<WasiVersion, String>)
    ensures
        match version_named(module@) {
            Some(version) => r == Ok::<WasiVersion, String>(version),
            None => r is Err && r->Err_0@ == "import module `"@ + module@ + "` was not found"@,
        },
{
    if crate::text::same_text(module, "wasi_snapshot_preview1") {
        Ok(WasiVersion::SnapshotPreview1)
    } else if crate::text::same_text(module, "wasi_unstable") {
        Ok(WasiVersion::Unstable)
    } else {
        Err(String::from_str("import module `").concat(module).concat("` was not found"))
    }
}

/// The error that says that a module does not export what is imported from
/// it.
pub fn missing_import(name: &str, module: &str) -> (text: String)
    ensures
        text@ == "import `"@ + name@ + "` was not found in module `"@ + module@ + "`"@,
{
    String::from_str("import `").concat(name).concat("` was not found in module `").concat(
        module,
    ).concat("`")
}

/// The status that a run reports before the runtime has said anything.
pub open spec fn first_status(now: Timestamp) -> ContainerStatusView {
    ContainerStatusView::Waiting {
        timestamp: now,
        message: "No status has been received from the process"@,
    }
}

/// What a step's outcome makes the run report, if anything: a failure is
/// reported as terminated; instantiating the module as running; the end of
/// the module's run as terminated without failure.
pub open spec fn report_after(stage: RunStage, ok: bool, now: Timestamp) -> Option<
    ContainerStatusView,
> {
    if stage == RunStage::Finished {
        None
    } else if !ok {
        Some(
            ContainerStatusView::Terminated {
                timestamp: now,
                failed: true,
                message: failure_message(stage),
            },
        )
    } else if stage == RunStage::InstantiateModule {
        Some(ContainerStatusView::Running { timestamp: now })
    } else if stage == RunStage::RunModule {
        Some(
            ContainerStatusView::Terminated {
                timestamp: now,
                failed: false,
                message: "Module run completed"@,
            },
        )
    } else {
        None
    }
}

/// Whether a step's outcome is one to report: a failure of any step, the
/// module's instantiation, and the end of its run.
pub fn report_due(stage: RunStage, ok: bool) -> (due: bool)
    ensures
        forall|now: Timestamp| due == (#[trigger] report_after(stage, ok, now) is Some),
{
    match stage {
        RunStage::Finished => false,
        RunStage::InstantiateModule | RunStage::RunModule => true,
        _ => !ok,
    }
}

/// One run of a module: the step that comes next, and the statuses reported
/// so far.
pub struct ModuleRun {
    stage: RunStage,
    statuses: StatusStream,
}

impl ModuleRun {
    #[verifier::type_invariant]
    spec fn inv(self) -> bool {
        match self.stage {
            RunStage::CreateModule | RunStage::LoadModule | RunStage::InstantiateModule => rank(
                self.statuses.latest(),
            ) == 0,
            RunStage::RunModule => rank(self.statuses.latest()) == 1,
            RunStage::Finished => true,
        }
    }

    /// The step that comes next.
    pub closed spec fn stage(&self) -> RunStage {
        self.stage
    }

    /// Every status that the run has reported, oldest first.
    pub closed spec fn reported(&self) -> Seq<ContainerStatusView> {
        self.statuses.reported()
    }

    /// A run that has not begun: it waits, and its first step is to compile
    /// the module.
    pub fn new(now: Timestamp) -> (run: ModuleRun)
        ensures
            run.stage() == RunStage::CreateModule,
            run.reported() == Seq::<ContainerStatusView>::empty().push(first_status(now)),
    {
        let statuses = StatusStream::new(
            ContainerStatus::waiting(now, "No status has been received from the process"),
        );
        ModuleRun { stage: RunStage::CreateModule, statuses }
    }

    /// The step that comes next.
    pub fn next_stage(&self) -> (stage: RunStage)
        ensures
            stage == self.stage(),
    {
        self.stage
    }

    /// The latest status of the run.
    pub fn status(&self) -> (status: ContainerStatus)
        ensures
            self.reported().len() >= 1,
            status@ == self.reported().last(),
            crate::container::never_regresses(self.reported()),
    {
        self.statuses.current().duplicate()
    }

    /// Takes the outcome of the step that was due. A step that went well
    /// leads to the next; a failure ends the run. Where the outcome is one
    /// to report, the status is added to the run's statuses, which never
    /// fall back. Gives the run's result once it is over: nothing, or the
    /// error.
    pub fn advance(&mut self, outcome: Result<(), String>, now: Timestamp) -> (done: Option<
        Result<(), String>,
    >)
        ensures
            final(self).stage() == if outcome is Ok {
                following(old(self).stage())
            } else {
                RunStage::Finished
            },
            final(self).reported() == match report_after(old(self).stage(), outcome is Ok, now) {
                Some(status) => old(self).reported().push(status),
                None => old(self).reported(),
            },
            crate::container::never_regresses(final(self).reported()),
            match done {
                None => final(self).stage() != RunStage::Finished,
                Some(Ok(_)) => final(self).stage() == RunStage::Finished && outcome is Ok,
                Some(Err(e)) => outcome is Err && e@ == failure_text(
                    old(self).stage(),
                    outcome->Err_0@,
                ),
            },
    {
        proof {
            use_type_invariant(&*self);
        }
        let stage = self.stage;
        let mut run = ModuleRun::new(now);
        core::mem::swap(self, &mut run);
        let ModuleRun { stage: _, statuses } = run;
        let mut statuses = statuses;
        // Looking at the stream recalls that it has never fallen back.
        let _ = statuses.current();
        let (next, done) = match outcome {
            Ok(_) => {
                match stage {
                    RunStage::CreateModule => (RunStage::LoadModule, None),
                    RunStage::LoadModule => (RunStage::InstantiateModule, None),
                    RunStage::InstantiateModule => {
                        let taken = statuses.report(ContainerStatus::running(now));
                        assert(taken);
                        (RunStage::RunModule, None)
                    },
                    RunStage::RunModule => {
                        let taken = statuses.report(
                            ContainerStatus::terminated(now, "Module run completed", false),
                        );
                        assert(taken);
                        (RunStage::Finished, Some(Ok(())))
                    },
                    RunStage::Finished => (RunStage::Finished, Some(Ok(()))),
                }
            },
            Err(cause) => {
                let text = match stage {
                    RunStage::CreateModule => {
                        let taken = statuses.report(
                            ContainerStatus::terminated(now, "unable to create module", true),
                        );
                        assert(taken);
                        String::from_str("unable to create module").concat(": ").concat(
                            cause.as_str(),
                        )
                    },
                    RunStage::LoadModule => {
                        let taken = statuses.report(
                            ContainerStatus::terminated(now, "unable to load module", true),
                        );
                        assert(taken);
                        cause
                    },
                    RunStage::InstantiateModule => {
                        let taken = statuses.report(
                            ContainerStatus::terminated(now, "unable to instantiate module", true),
                        );
                        assert(taken);
                        String::from_str("unable to instantiate module").concat(": ").concat(
                            cause.as_str(),
                        )
                    },
                    RunStage::RunModule => {
                        let taken = statuses.report(
                            ContainerStatus::terminated(now, "unable to run module", true),
                        );
                        assert(taken);
                        String::from_str("unable to run module").concat(": ").concat(
                            cause.as_str(),
                        )
                    },
                    RunStage::Finished => cause,
                };
                (RunStage::Finished, Some(Err(text)))
            },
        };
        let mut advanced = ModuleRun { stage: next, statuses };
        core::mem::swap(self, &mut advanced);
        done
    }
}

/// The status of a container that could not be started: terminated, failed,
/// with the cause in the message.
pub fn start_failure_status(cause: &str, now: Timestamp) -> (status: ContainerStatus)
    ensures
        status@ == (ContainerStatusView::Terminated {
            timestamp: now,
            failed: true,
            message: "Error while starting container: "@ + cause@,
        }),
{
    let message = String::from_str("Error while starting container: ").concat(cause);
    ContainerStatus::terminated(now, message.as_str(), true)
}

/// The error of a pod one of whose containers could not be started.
pub fn start_failure_error(cause: &str) -> (text: String)
    ensures
        text@ == "Failed to run pod: "@ + cause@,
{
    String::from_str("Failed to run pod: ").concat(cause)
}

} // verus!
