//! Error taxonomy for the supervisor's synchronous operations.
//!
//! Failures detected inside background work (pump loops, liveness
//! polling, teardown signalling) are never returned to a caller; they
//! surface as system-sourced log records instead.

use vstd::prelude::*;

verus! {

/// One error per way a synchronous supervisor or configuration call
/// can fail.  Everything else is reported through the log stream.
#[derive(Debug, Clone)]
pub enum AppError {
    NoConfigLoaded,
    ServiceNotFound { service_id: String },
    ProjectNotFound { project_id: String },
    ServiceAlreadyRunning { service_id: String },
    EmptyCommand,
    ProcessStartFailed { service_name: String, message: String },
    SaveConfig { message: String },
    OpenBrowser { message: String },
}

/// The human-readable rendering of an error, as a sequence of
/// characters.
pub open spec fn error_message(e: AppError) -> Seq<char> {
    match e {
        AppError::NoConfigLoaded => "No config loaded"@,
        AppError::ServiceNotFound { service_id } => "Service not found: "@ + service_id@,
        AppError::ProjectNotFound { project_id } => "Project not found: "@ + project_id@,
        AppError::ServiceAlreadyRunning { service_id } => "Service already running: "@
            + service_id@,
        AppError::EmptyCommand => "Empty command"@,
        AppError::ProcessStartFailed { service_name, message } => "Failed to start "@
            + service_name@ + ": "@ + message@,
        AppError::SaveConfig { message } => "Failed to save config: "@ + message@,
        AppError::OpenBrowser { message } => "Failed to open browser: "@ + message@,
    }
}

impl AppError {
    /// Renders the error as one human-readable line.
    pub fn message(&self) -> (r: String)
        ensures
            r@ == error_message(*self),
    {
        match self {
            AppError::NoConfigLoaded => String::from_str("No config loaded"),
            AppError::ServiceNotFound { service_id } => {
                let mut s = String::from_str("Service not found: ");
                s.append(service_id.as_str());
                s
            },
            AppError::ProjectNotFound { project_id } => {
                let mut s = String::from_str("Project not found: ");
                s.append(project_id.as_str());
                s
            },
            AppError::ServiceAlreadyRunning { service_id } => {
                let mut s = String::from_str("Service already running: ");
                s.append(service_id.as_str());
                s
            },
            AppError::EmptyCommand => String::from_str("Empty command"),
            AppError::ProcessStartFailed { service_name, message } => {
                let mut s = String::from_str("Failed to start ");
                s.append(service_name.as_str());
                s.append(": ");
                s.append(message.as_str());
                s
            },
            AppError::SaveConfig { message } => {
                let mut s = String::from_str("Failed to save config: ");
                s.append(message.as_str());
                s
            },
            AppError::OpenBrowser { message } => {
                let mut s = String::from_str("Failed to open browser: ");
                s.append(message.as_str());
                s
            },
        }
    }
}

} // verus!
