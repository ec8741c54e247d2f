//! How a local workspace is made and removed, step by step.

use vstd::prelude::*;

use crate::error::{ErrorView, SymphonyError};
use crate::path;
use crate::workspace;
use crate::workspace::{PathState, WorkspaceInfo, WorkspaceStep};

verus! {

/// What is wanted of a workspace.
#[derive(Debug, Clone, Copy, PartialEq, Eq)]
pub enum LocalGoal {
    Ensure,
    Cleanup,
}

/// What is to be done next about a workspace.
#[derive(Debug, Clone, Copy, PartialEq, Eq)]
pub enum LocalPhase {
    Resolve,
    Inspect,
    Create,
    Verify,
    Hook,
    Remove,
    Finished,
}

/// What came of what was done. Resolving and verifying give the canonical paths of the workspace and
/// of the root; verifying gives nothing where nothing is at the path.
#[derive(Debug)]
pub enum LocalEvent {
    Resolved(Result<(String, String), SymphonyError>),
    Inspected(PathState),
    Created(Result<(), String>),
    Verified(Option<Result<(String, String), SymphonyError>>),
    HookRan,
    Removed(Result<(), String>),
}

/// A workspace that is being made or removed.
#[derive(Debug)]
pub struct LocalWorkspace {
    pub goal: LocalGoal,
    pub path: String,
    pub phase: LocalPhase,
    pub contained: bool,
    pub created_now: bool,
    pub fault: Option<SymphonyError>,
}

/// The model of a workspace that is being made or removed.
#[verifier::ext_equal]
pub struct FlowView {
    pub goal: LocalGoal,
    pub path: Seq<char>,
    pub phase: LocalPhase,
    pub contained: bool,
    pub created_now: bool,
    pub fault: Option<ErrorView>,
}

impl View for LocalWorkspace {
    type V = FlowView;

    open spec fn view(&self) -> FlowView {
        FlowView {
            goal: self.goal,
            path: self.path@,
            phase: self.phase,
            contained: self.contained,
            created_now: self.created_now,
            fault: match self.fault {
                Some(error) => Some(error@),
                None => None,
            },
        }
    }
}

impl FlowView {
    /// It ends with an error.
    pub open spec fn fail(self, fault: ErrorView) -> FlowView {
        FlowView { phase: LocalPhase::Finished, fault: Some(fault), ..self }
    }

    /// It goes on with the given step.
    pub open spec fn go(self, phase: LocalPhase) -> FlowView {
        FlowView { phase, ..self }
    }

    /// What comes after the path has been inspected: a workspace that is wanted is created where
    /// nothing is and used where a directory is; one that is not wanted is removed where a directory
    /// is.
    pub open spec fn after_inspection(self, state: PathState) -> FlowView {
        match workspace::path_fault(self.path, state) {
            Some(fault) => self.fail(fault),
            None => match self.goal {
                LocalGoal::Ensure => self.go(
                    if state is Missing {
                        LocalPhase::Create
                    } else {
                        LocalPhase::Verify
                    },
                ),
                LocalGoal::Cleanup => self.go(
                    if state is Directory {
                        LocalPhase::Hook
                    } else {
                        LocalPhase::Finished
                    },
                ),
            },
        }
    }

    /// What comes after an event. An event that does not belong to the step changes nothing.
    pub open spec fn after(self, event: LocalEvent) -> FlowView {
        match (self.phase, event) {
            (LocalPhase::Resolve, LocalEvent::Resolved(Ok((canonical, root)))) => if path::inside(
                canonical@,
                root@,
            ) {
                FlowView { phase: LocalPhase::Inspect, contained: true, ..self }
            } else {
                self.fail(workspace::outside_root(self.path))
            },
            (LocalPhase::Resolve, LocalEvent::Resolved(Err(error))) => self.fail(error@),
            (LocalPhase::Inspect, LocalEvent::Inspected(state)) => self.after_inspection(state),
            (LocalPhase::Create, LocalEvent::Created(Ok(()))) => FlowView {
                phase: LocalPhase::Verify,
                created_now: true,
                ..self
            },
            (LocalPhase::Create, LocalEvent::Created(Err(source))) => self.fail(
                workspace::io_failure("create workspace"@, self.path, source@),
            ),
            (LocalPhase::Verify, LocalEvent::Verified(None)) => self.go(LocalPhase::Finished),
            (LocalPhase::Verify, LocalEvent::Verified(Some(Ok((canonical, root))))) =>
                if path::inside(canonical@, root@) {
                    self.go(LocalPhase::Finished)
                } else {
                    self.fail(workspace::symlink_escape(self.path, canonical@, root@))
                },
            (LocalPhase::Verify, LocalEvent::Verified(Some(Err(error)))) => self.fail(error@),
            (LocalPhase::Hook, LocalEvent::HookRan) => self.go(LocalPhase::Remove),
            (LocalPhase::Remove, LocalEvent::Removed(Ok(()))) => self.go(LocalPhase::Finished),
            (LocalPhase::Remove, LocalEvent::Removed(Err(source))) => self.fail(
                workspace::io_failure("remove workspace"@, self.path, source@),
            ),
            _ => self,
        }
    }
}

impl LocalWorkspace {
    /// A workspace at a path, with nothing done yet.
    pub fn new(goal: LocalGoal, path: String) -> (r: Self)
        ensures
            r@ == (FlowView {
                goal,
                path: path@,
                phase: LocalPhase::Resolve,
                contained: false,
                created_now: false,
                fault: None,
            }),
    {
        LocalWorkspace {
            goal,
            path,
            phase: LocalPhase::Resolve,
            contained: false,
            created_now: false,
            fault: None,
        }
    }

    fn fail(&mut self, error: SymphonyError)
        ensures
            final(self)@ == old(self)@.fail(error@),
    {
        self.phase = LocalPhase::Finished;
        self.fault = Some(error);
    }

    fn resolved(&mut self, canonical: &str, root: &str)
        ensures
            final(self)@ == (if path::inside(canonical@, root@) {
                FlowView { phase: LocalPhase::Inspect, contained: true, ..old(self)@ }
            } else {
                old(self)@.fail(workspace::outside_root(old(self)@.path))
            }),
    {
        match workspace::check_containment(self.path.as_str(), canonical, root) {
            Ok(()) => {
                self.phase = LocalPhase::Inspect;
                self.contained = true;
            },
            Err(error) => self.fail(error),
        }
    }

    fn inspected(&mut self, state: &PathState)
        ensures
            final(self)@ == old(self)@.after_inspection(*state),
    {
        match self.goal {
            LocalGoal::Ensure => match workspace::ensure_step(self.path.as_str(), state) {
                Ok(WorkspaceStep::Create) => {
                    self.phase = LocalPhase::Create;
                },
                Ok(WorkspaceStep::Use) => {
                    self.phase = LocalPhase::Verify;
                },
                Err(error) => self.fail(error),
            },
            LocalGoal::Cleanup => match workspace::cleanup_step(self.path.as_str(), state) {
                Ok(true) => {
                    self.phase = LocalPhase::Hook;
                },
                Ok(false) => {
                    self.phase = LocalPhase::Finished;
                },
                Err(error) => self.fail(error),
            },
        }
    }

    fn verified(&mut self, canonical: &str, root: &str)
        ensures
            final(self)@ == (if path::inside(canonical@, root@) {
                old(self)@.go(LocalPhase::Finished)
            } else {
                old(self)@.fail(
                    workspace::symlink_escape(old(self)@.path, canonical@, root@),
                )
            }),
    {
        match workspace::check_symlink_escape(self.path.as_str(), canonical, root) {
            Ok(()) => {
                self.phase = LocalPhase::Finished;
            },
            Err(error) => self.fail(error),
        }
    }

    /// Takes into account what came of a step.
    pub fn advance(&mut self, event: LocalEvent)
        ensures
            final(self)@ == old(self)@.after(event),
    {
        match (self.phase, event) {
            (LocalPhase::Resolve, LocalEvent::Resolved(Ok((canonical, root)))) => self.resolved(
                canonical.as_str(),
                root.as_str(),
            ),
            (LocalPhase::Resolve, LocalEvent::Resolved(Err(error))) => self.fail(error),
            (LocalPhase::Inspect, LocalEvent::Inspected(state)) => self.inspected(&state),
            (LocalPhase::Create, LocalEvent::Created(Ok(()))) => {
                self.phase = LocalPhase::Verify;
                self.created_now = true;
            },
            (LocalPhase::Create, LocalEvent::Created(Err(source))) => {
                let error = workspace::workspace_io_error(
                    "create workspace",
                    self.path.as_str(),
                    source.as_str(),
                );
                self.fail(error)
            },
            (LocalPhase::Verify, LocalEvent::Verified(None)) => {
                self.phase = LocalPhase::Finished;
            },
            (LocalPhase::Verify, LocalEvent::Verified(Some(Ok((canonical, root))))) =>
                self.verified(canonical.as_str(), root.as_str()),
            (LocalPhase::Verify, LocalEvent::Verified(Some(Err(error)))) => self.fail(error),
            (LocalPhase::Hook, LocalEvent::HookRan) => {
                self.phase = LocalPhase::Remove;
            },
            (LocalPhase::Remove, LocalEvent::Removed(Ok(()))) => {
                self.phase = LocalPhase::Finished;
            },
            (LocalPhase::Remove, LocalEvent::Removed(Err(source))) => {
                let error = workspace::workspace_io_error(
                    "remove workspace",
                    self.path.as_str(),
                    source.as_str(),
                );
                self.fail(error)
            },
            _ => {},
        }
    }

    /// The workspace once everything is done, or why it could not be done.
    pub fn result(self) -> (r: Result<WorkspaceInfo, SymphonyError>)
        ensures
            match self@.fault {
                Some(fault) => r matches Err(error) && error@ == fault,
                None => r matches Ok(info) && info.path@ == self@.path && info.created_now
                    == self@.created_now,
            },
    {
        match self.fault {
            Some(error) => Err(error),
            None => Ok(WorkspaceInfo { path: self.path, created_now: self.created_now }),
        }
    }
}

/// What holds at every step: an error ends everything, and without one nothing but resolving is done
/// before the workspace is known to lie inside the root.
pub open spec fn flow_sound(flow: FlowView) -> bool {
    &&& flow.fault is Some ==> flow.phase == LocalPhase::Finished
    &&& flow.fault is None && flow.phase != LocalPhase::Resolve ==> flow.contained
}

/// Every event keeps the steps sound, and a workspace counts as lying inside the root only once its
/// canonical path does.
pub proof fn lemma_flow_stays_sound(flow: FlowView, event: LocalEvent)
    requires
        flow_sound(flow),
    ensures
        flow_sound(flow.after(event)),
        flow.contained ==> flow.after(event).contained,
        flow.after(event).contained && !flow.contained ==> (event matches LocalEvent::Resolved(
            Ok((canonical, root)),
        ) && path::inside(canonical@, root@)),
{
}

/// No directory is created or removed outside the root.
pub proof fn lemma_only_contained_is_touched(flow: FlowView)
    requires
        flow_sound(flow),
        flow.phase == LocalPhase::Create || flow.phase == LocalPhase::Remove,
    ensures
        flow.contained,
{
}

/// The number of steps that can still come.
pub open spec fn steps_left(phase: LocalPhase) -> nat {
    match phase {
        LocalPhase::Resolve => 4,
        LocalPhase::Inspect => 3,
        LocalPhase::Create | LocalPhase::Hook => 2,
        LocalPhase::Verify | LocalPhase::Remove => 1,
        LocalPhase::Finished => 0,
    }
}

/// Every event that belongs to its step brings the end nearer; no other event changes anything.
pub proof fn lemma_flow_ends(flow: FlowView, event: LocalEvent)
    ensures
        flow.after(event) == flow || steps_left(flow.after(event).phase) < steps_left(flow.phase),
{
}

/// A workspace whose canonical path lies inside that of the root is looked at next, and any other one
/// is given up.
pub proof fn lemma_containment_is_checked(
    flow: FlowView,
    canonical: String,
    root: String,
    error: SymphonyError,
)
    requires
        flow.phase == LocalPhase::Resolve,
    ensures
        path::inside(canonical@, root@) ==> {
            let next = flow.after(LocalEvent::Resolved(Ok((canonical, root))));
            next.phase == LocalPhase::Inspect && next.contained && next.fault == flow.fault
                && next.path == flow.path
        },
        !path::inside(canonical@, root@) ==> {
            let next = flow.after(LocalEvent::Resolved(Ok((canonical, root))));
            next.phase == LocalPhase::Finished && next.fault == Some(
                ErrorView::Workspace("path outside workspace root: "@ + flow.path),
            )
        },
        flow.after(LocalEvent::Resolved(Err(error))).phase == LocalPhase::Finished,
        flow.after(LocalEvent::Resolved(Err(error))).fault == Some(error@),
{
}

/// A workspace that is wanted is made where nothing is and used where a directory is; one that is not
/// wanted is removed, after its script, where a directory is, and left where nothing is.
pub proof fn lemma_inspection_decides(flow: FlowView, source: String)
    requires
        flow.phase == LocalPhase::Inspect,
    ensures
        ({
            let missing = flow.after(LocalEvent::Inspected(PathState::Missing));
            let directory = flow.after(LocalEvent::Inspected(PathState::Directory));
            let other = flow.after(LocalEvent::Inspected(PathState::NotADirectory));
            let failed = flow.after(LocalEvent::Inspected(PathState::Failed(source)));
            &&& flow.goal == LocalGoal::Ensure ==> missing.phase == LocalPhase::Create
                && directory.phase == LocalPhase::Verify
            &&& flow.goal == LocalGoal::Cleanup ==> missing.phase == LocalPhase::Finished
                && directory.phase == LocalPhase::Hook
            &&& missing.fault == flow.fault && directory.fault == flow.fault
            &&& other.phase == LocalPhase::Finished && other.fault == Some(
                ErrorView::Workspace("workspace path is not a directory: "@ + flow.path),
            )
            &&& failed.phase == LocalPhase::Finished && failed.fault is Some
        }),
{
}

/// A directory that was made counts as new and is then verified; a script is followed by the removal;
/// and what cannot be made or removed is an error.
pub proof fn lemma_work_is_followed(flow: FlowView, source: String)
    ensures
        flow.phase == LocalPhase::Create ==> {
            let made = flow.after(LocalEvent::Created(Ok(())));
            made.phase == LocalPhase::Verify && made.created_now && made.fault == flow.fault
        },
        flow.phase == LocalPhase::Create ==> {
            let failed = flow.after(LocalEvent::Created(Err(source)));
            failed.phase == LocalPhase::Finished && failed.fault == Some(
                ErrorView::Workspace(
                    "create workspace"@ + " failed for "@ + flow.path + ": "@ + source@,
                ),
            ) && failed.created_now == flow.created_now
        },
        flow.phase == LocalPhase::Hook ==> flow.after(LocalEvent::HookRan).phase
            == LocalPhase::Remove,
        flow.phase == LocalPhase::Remove ==> {
            let removed = flow.after(LocalEvent::Removed(Ok(())));
            removed.phase == LocalPhase::Finished && removed.fault == flow.fault
        },
        flow.phase == LocalPhase::Remove ==> {
            let failed = flow.after(LocalEvent::Removed(Err(source)));
            failed.phase == LocalPhase::Finished && failed.fault == Some(
                ErrorView::Workspace(
                    "remove workspace"@ + " failed for "@ + flow.path + ": "@ + source@,
                ),
            )
        },
{
}

/// A workspace that is there is accepted only where its canonical path lies inside that of the root.
pub proof fn lemma_escape_is_refused(
    flow: FlowView,
    canonical: String,
    root: String,
    error: SymphonyError,
)
    requires
        flow.phase == LocalPhase::Verify,
    ensures
        ({
            let next = flow.after(LocalEvent::Verified(Some(Ok((canonical, root)))));
            &&& next.phase == LocalPhase::Finished
            &&& path::inside(canonical@, root@) ==> next.fault == flow.fault
            &&& !path::inside(canonical@, root@) ==> next.fault == Some(
                ErrorView::Workspace(
                    "symlink escape detected: "@ + flow.path + " resolves to "@ + canonical@
                        + " which is outside workspace root "@ + root@,
                ),
            )
            &&& next.created_now == flow.created_now
            &&& next.path == flow.path
        }),
        flow.after(LocalEvent::Verified(None)).phase == LocalPhase::Finished,
        flow.after(LocalEvent::Verified(None)).fault == flow.fault,
        flow.after(LocalEvent::Verified(Some(Err(error)))).fault == Some(error@),
{
}

/// No event changes what is wanted, or where.
pub proof fn lemma_goal_is_kept(flow: FlowView, event: LocalEvent)
    ensures
        flow.after(event).goal == flow.goal,
        flow.after(event).path == flow.path,
        flow.phase == LocalPhase::Finished ==> flow.after(event) == flow,
        flow.after(event).created_now && !flow.created_now ==> flow.phase == LocalPhase::Create,
{
}

/// The model of a workspace that is made or removed has what it has.
pub proof fn lemma_flow_is_modelled(flow: LocalWorkspace)
    ensures
        flow@.goal == flow.goal,
        flow@.path == flow.path@,
        flow@.phase == flow.phase,
        flow@.contained == flow.contained,
        flow@.created_now == flow.created_now,
        flow.fault is Some ==> flow@.fault == Some(flow.fault->0@),
        flow.fault is None ==> flow@.fault is None,
{
}

} // verus!
