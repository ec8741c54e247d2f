//! Which tracker a configuration asks for.

use vstd::prelude::*;

use crate::config::TrackerConfig;
use crate::error::{ErrorView, SymphonyError};
use crate::linear::client;
use crate::linear::client::LinearClient;
use crate::text;

verus! {

/// The trackers that there are.
#[derive(Debug)]
pub enum TrackerKind {
    Linear(LinearClient),
    Memory,
}

/// The tracker that a configuration asks for: Linear, which needs an API key, or the one in memory.
pub fn build_tracker(config: &TrackerConfig) -> (r: Result<TrackerKind, SymphonyError>)
    ensures
        match text::filled(text::opt_text(config.kind)) {
            None => r matches Err(e) && e@ == ErrorView::ConfigValidation(
                "tracker.kind is required"@,
            ),
            Some(kind) => if kind == "linear"@ {
                match text::filled(text::opt_text(config.api_key)) {
                    None => r matches Err(e) && e@ == ErrorView::ConfigValidation(
                        "tracker.api_key is required"@,
                    ),
                    Some(key) => r matches Ok(TrackerKind::Linear(client)) && client.api_key@ == key
                        && client.endpoint@ == match text::filled(text::opt_text(config.endpoint)) {
                        Some(endpoint) => endpoint,
                        None => client::DEFAULT_ENDPOINT@,
                    },
                }
            } else if kind == "memory"@ {
                r matches Ok(TrackerKind::Memory)
            } else {
                r matches Err(e) && e@ == ErrorView::ConfigValidation(
                    "tracker.kind must equal \"linear\" or \"memory\""@,
                )
            },
        },
{
    let kind = match text::filled_value(&config.kind) {
        Some(kind) => kind,
        None => {
            return Err(SymphonyError::ConfigValidation("tracker.kind is required".to_owned()));
        },
    };
    if text::same(kind, "linear") {
        return match LinearClient::from_config(config) {
            Ok(client) => Ok(TrackerKind::Linear(client)),
            Err(error) => Err(error),
        };
    }
    if text::same(kind, "memory") {
        return Ok(TrackerKind::Memory);
    }
    Err(
        SymphonyError::ConfigValidation(
            "tracker.kind must equal \"linear\" or \"memory\"".to_owned(),
        ),
    )
}

} // verus!
