//! Events produced by the supervisor for its observers: structured log
//! records, full status snapshots, and detected service URLs.

use vstd::prelude::*;

verus! {

/// One structured, colorized log line.
#[derive(Debug, Clone)]
pub struct LogEvent {
    /// Lowercased service name, or `system` for supervisor messages.
    pub source: String,
    /// `normal` for standard output, `error` for standard error.
    pub level: String,
    /// The formatted text, color-escape prefix included.
    pub text: String,
    /// Wall-clock time the record was made, `HH:MM:SS.mmm`.
    pub timestamp: String,
    /// The project the originating service belongs to.
    pub project_id: String,
}

/// The externally visible state of one process slot.
#[derive(Debug, Clone)]
pub struct ServiceStatus {
    pub running: bool,
    pub url: Option<String>,
}

impl ServiceStatus {
    /// The abstract value of this status: the running flag and the
    /// characters of the URL, if any.
    pub open spec fn view_of(self) -> (bool, Option<Seq<char>>) {
        (
            self.running,
            match self.url {
                Some(u) => Some(u@),
                None => None,
            },
        )
    }
}

/// A full snapshot of every known process slot, keyed by composite id.
#[derive(Debug, Clone)]
pub struct StatusEvent {
    pub services: Vec<(String, ServiceStatus)>,
}

/// The snapshot entries folded into a map from composite id to status.
pub open spec fn services_map(s: Seq<(String, ServiceStatus)>) -> Map<
    Seq<char>,
    (bool, Option<Seq<char>>),
>
    decreases s.len(),
{
    if s.len() == 0 {
        Map::empty()
    } else {
        services_map(s.drop_last()).insert(s.last().0@, s.last().1.view_of())
    }
}

impl StatusEvent {
    /// The snapshot as a map from composite id to (running, url).
    pub open spec fn as_map(self) -> Map<Seq<char>, (bool, Option<Seq<char>>)> {
        services_map(self.services@)
    }
}

/// Everything the supervisor can hand to the event aggregator.
#[derive(Debug, Clone)]
pub enum ManagerEvent {
    Log(LogEvent),
    Status(StatusEvent),
    ServiceUrl { service_id: String, url: String },
}

} // verus!
