//! Taking over a workflow that has changed while the program runs.

use vstd::prelude::*;
use vstd::string::*;

use crate::config::SymphonyConfig;
use crate::error::SymphonyError;

verus! {

/// What the orchestrator works with: the configuration, the prompt template, the tracker and the
/// workspaces.
#[derive(Debug)]
pub struct Setup<T, W> {
    pub config: SymphonyConfig,
    pub prompt_template: String,
    pub tracker: T,
    pub workspaces: W,
}

/// The part of a set-up that could not be made.
#[derive(Debug, Clone, Copy, PartialEq, Eq)]
pub enum ReloadPart {
    Config,
    Tracker,
    Workspaces,
}

impl ReloadPart {
    /// What is said where the part could not be made.
    pub fn message(self) -> (r: &'static str)
        ensures
            r@ == match self {
                ReloadPart::Config => "failed to parse reloaded workflow config"@,
                ReloadPart::Tracker => "failed to rebuild tracker after reload"@,
                ReloadPart::Workspaces => "failed to rebuild workspace manager after reload"@,
            },
    {
        match self {
            ReloadPart::Config => "failed to parse reloaded workflow config",
            ReloadPart::Tracker => "failed to rebuild tracker after reload",
            ReloadPart::Workspaces => "failed to rebuild workspace manager after reload",
        }
    }
}

/// Why a workflow that has changed is not taken over.
#[derive(Debug)]
pub struct ReloadFault {
    pub part: ReloadPart,
    pub error: SymphonyError,
}

/// The set-up that a changed workflow asks for, given what reading its configuration gave, and where
/// it could be read what making the tracker and the workspaces gave. All of it is taken over, or
/// nothing: the first part that failed is reported.
pub fn reload<T, W>(
    read: Result<
        (SymphonyConfig, Result<T, SymphonyError>, Result<W, SymphonyError>),
        SymphonyError,
    >,
    prompt_template: String,
) -> (r: Result<Setup<T, W>, ReloadFault>)
    ensures
        match read {
            Err(error) => r == Err::<Setup<T, W>, ReloadFault>(
                ReloadFault { part: ReloadPart::Config, error },
            ),
            Ok((_, Err(error), _)) => r == Err::<Setup<T, W>, ReloadFault>(
                ReloadFault { part: ReloadPart::Tracker, error },
            ),
            Ok((_, Ok(_), Err(error))) => r == Err::<Setup<T, W>, ReloadFault>(
                ReloadFault { part: ReloadPart::Workspaces, error },
            ),
            Ok((config, Ok(tracker), Ok(workspaces))) => r == Ok::<Setup<T, W>, ReloadFault>(
                Setup { config, prompt_template, tracker, workspaces },
            ),
        },
{
    match read {
        Err(error) => Err(ReloadFault { part: ReloadPart::Config, error }),
        Ok((_, Err(error), _)) => Err(ReloadFault { part: ReloadPart::Tracker, error }),
        Ok((_, Ok(_), Err(error))) => Err(ReloadFault { part: ReloadPart::Workspaces, error }),
        Ok((config, Ok(tracker), Ok(workspaces))) => Ok(
            Setup { config, prompt_template, tracker, workspaces },
        ),
    }
}

} // verus!
