//! Installing the process-wide trace dispatcher, once.

use vstd::prelude::*;

verus! {

/// `tracing`'s handle to a subscriber.
#[verifier::external_type_specification]
#[verifier::external_body]
pub struct ExDispatch(tracing::Dispatch);

/// `tracing`'s error for a second installation.
#[verifier::external_type_specification]
#[verifier::external_body]
pub struct ExSetGlobalDefaultError(tracing::dispatcher::SetGlobalDefaultError);

/// `tracing::dispatcher::set_global_default` installs the dispatcher for the
/// whole process if none was installed before and fails otherwise. Which of
/// the two happens depends on what the process did earlier, so nothing is
/// claimed of the result.
pub assume_specification[ tracing::dispatcher::set_global_default ](
    dispatcher: tracing::Dispatch,
) -> (r: Result<(), tracing::dispatcher::SetGlobalDefaultError>)
;

/// Why a dispatcher could not be installed.
#[derive(Clone, Copy, Debug, PartialEq, Eq, Structural)]
pub enum TelemetryError {
    /// The process already has a global dispatcher.
    AlreadyInstalled,
}

/// What an installation attempt that ended in `outcome` reports.
pub fn installation_report(outcome: Result<(), tracing::dispatcher::SetGlobalDefaultError>) -> (r:
    Result<(), TelemetryError>)
    ensures
        r is Ok <==> outcome is Ok,
        r is Err ==> r == Err::<(), TelemetryError>(TelemetryError::AlreadyInstalled),
{
    match outcome {
        Ok(()) => Ok(()),
        Err(_) => Err(TelemetryError::AlreadyInstalled),
    }
}

/// Installs `subscriber` as the dispatcher of the whole process. Only the first
/// installation in a process succeeds; every later one is refused and leaves
/// the installed dispatcher in place.
pub fn init_subscriber(subscriber: tracing::Dispatch) -> (r: Result<(), TelemetryError>)
    ensures
        r is Err ==> r == Err::<(), TelemetryError>(TelemetryError::AlreadyInstalled),
{
    installation_report(tracing::dispatcher::set_global_default(subscriber))
}

} // verus!
