//! The sidecar process that runs the vector store.

use vstd::prelude::*;
use crate::text::concat;

verus! {

/// The port on which the sidecar listens.
pub const CHROMA_PORT: u16 = 8000;

/// How often the sidecar is started again before it is given up.
pub const MAX_RESTART_ATTEMPTS: u32 = 3;

/// The wait before the first restart, in milliseconds. Each restart doubles
/// it.
pub const BASE_BACKOFF_MS: u64 = 1000;

/// An error of the sidecar.
#[derive(Debug, Clone)]
pub enum SidecarError {
    NotFound(String),
    StartFailed(String),
    NotRunning,
    HealthCheckFailed(String),
    /// An error of the operating system, by its text.
    Io(String),
    MaxRestartsExceeded,
}

impl SidecarError {
    /// The text of the error.
    pub open spec fn message_of(&self) -> Seq<char> {
        match *self {
            SidecarError::NotFound(path) => "Sidecar not found at: "@ + path@,
            SidecarError::StartFailed(detail) => "Sidecar failed to start: "@ + detail@,
            SidecarError::NotRunning => "Sidecar not running"@,
            SidecarError::HealthCheckFailed(detail) => "Health check failed: "@ + detail@,
            SidecarError::Io(detail) => "IO error: "@ + detail@,
            SidecarError::MaxRestartsExceeded => "Max restart attempts exceeded"@,
        }
    }

    /// The text of the error.
    pub fn message(&self) -> (text: String)
        ensures
            text@ == self.message_of(),
    {
        match self {
            SidecarError::NotFound(path) => concat("Sidecar not found at: ", path.as_str()),
            SidecarError::StartFailed(detail) => concat("Sidecar failed to start: ", detail.as_str()),
            SidecarError::NotRunning => "Sidecar not running".to_owned(),
            SidecarError::HealthCheckFailed(detail) => concat("Health check failed: ", detail.as_str()),
            SidecarError::Io(detail) => concat("IO error: ", detail.as_str()),
            SidecarError::MaxRestartsExceeded => "Max restart attempts exceeded".to_owned(),
        }
    }
}

/// The health of the sidecar.
#[derive(Debug, Clone)]
pub struct SidecarStatus {
    pub running: bool,
    pub port: u16,
    pub pid: Option<u32>,
    pub uptime_seconds: Option<u64>,
    pub restart_count: u32,
    pub persist_directory: String,
}

/// The status of a sidecar that was never started.
pub fn idle_status(persist_directory: String) -> (status: SidecarStatus)
    ensures
        !status.running,
        status.port == CHROMA_PORT,
        status.pid is None,
        status.uptime_seconds is None,
        status.restart_count == 0,
        status.persist_directory == persist_directory,
{
    SidecarStatus {
        running: false,
        port: CHROMA_PORT,
        pid: None,
        uptime_seconds: None,
        restart_count: 0,
        persist_directory,
    }
}

/// Two to the power of `exponent`.
pub open spec fn pow2(exponent: nat) -> nat
    decreases exponent,
{
    if exponent == 0 {
        1
    } else {
        2 * pow2((exponent - 1) as nat)
    }
}

/// The wait before the restart that follows `restart_count` earlier ones, in
/// milliseconds: the base wait, doubled with each earlier restart. No wait is
/// due once the attempts are used up.
pub fn restart_backoff(restart_count: u32) -> (wait: Result<u64, SidecarError>)
    ensures
        restart_count >= MAX_RESTART_ATTEMPTS <==> wait is Err,
        wait is Err ==> wait matches Err(SidecarError::MaxRestartsExceeded),
        wait matches Ok(millis) ==> millis == BASE_BACKOFF_MS * pow2(restart_count as nat),
{
    if restart_count >= MAX_RESTART_ATTEMPTS {
        return Err(SidecarError::MaxRestartsExceeded);
    }
    let mut wait: u64 = BASE_BACKOFF_MS;
    let mut doubled: u32 = 0;
    while doubled < restart_count
        invariant
            doubled <= restart_count < MAX_RESTART_ATTEMPTS,
            wait == BASE_BACKOFF_MS * pow2(doubled as nat),
            wait <= 4000,
        decreases restart_count - doubled,
    {
        proof {
            assert(pow2((doubled + 1) as nat) == 2 * pow2(doubled as nat));
            assert(BASE_BACKOFF_MS * (2 * pow2(doubled as nat)) == 2 * (BASE_BACKOFF_MS * pow2(
                doubled as nat,
            ))) by (nonlinear_arith);
            assert(pow2(0) == 1);
            assert(pow2(1) == 2);
            assert(pow2(2) == 4);
        }
        wait = wait * 2;
        doubled += 1;
    }
    Ok(wait)
}

} // verus!
