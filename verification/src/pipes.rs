//! Named-pipe endpoints for the transport variant that exchanges the
//! payload over FIFOs. Creating an endpoint that already exists is not
//! an error: both roles run the same setup and the second one simply
//! joins.
use vstd::prelude::*;
use crate::errors::SetupError;

verus! {

/// What creating a FIFO came to.
enum FifoOutcome {
    Created,
    AlreadyExists,
    Failed,
}

/// Relies on nix::unistd::mkfifo with user and group read/write mode:
/// it creates the named pipe, or fails with `EEXIST` when a file of
/// that name already exists.
#[verifier::external_body]
fn mkfifo_user_rw(path: &str) -> (r: FifoOutcome) {
    let mode = nix::sys::stat::Mode::S_IRUSR | nix::sys::stat::Mode::S_IWUSR
        | nix::sys::stat::Mode::S_IRGRP | nix::sys::stat::Mode::S_IWGRP;
    match nix::unistd::mkfifo(path, mode) {
        Ok(()) => FifoOutcome::Created,
        Err(nix::errno::Errno::EEXIST) => FifoOutcome::AlreadyExists,
        Err(_) => FifoOutcome::Failed,
    }
}

/// Create the named pipe, or join it if it already exists — the peer
/// may have set it up first, which is the normal course, not an error.
pub fn create_pipe(pipe_path: &str) -> (r: Result<(), SetupError>)
    ensures
        r matches Err(e) ==> e == SetupError::EndpointUnavailable,
{
    match mkfifo_user_rw(pipe_path) {
        FifoOutcome::Created => Ok(()),
        FifoOutcome::AlreadyExists => Ok(()),
        FifoOutcome::Failed => Err(SetupError::EndpointUnavailable),
    }
}

/// Create both pipe endpoints of an exchange: one to carry requests,
/// one to carry responses.
pub fn setup_pipes(request_path: &str, response_path: &str) -> (r: Result<(), SetupError>)
    ensures
        r matches Err(e) ==> e == SetupError::EndpointUnavailable,
{
    match create_pipe(request_path) {
        Ok(()) => create_pipe(response_path),
        Err(e) => Err(e),
    }
}

} // verus!
