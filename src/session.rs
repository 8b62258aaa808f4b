//! What a port session is opened with, and the checks made before opening.

use vstd::prelude::*;
use crate::args::ArgError;
use crate::args::PortChoice;
use crate::args::same_text;

verus! {

/// How long a single read or write on the port may wait, in milliseconds.
pub const RESPONSE_TIMEOUT_MS: u64 = 100;

/// Settings of a port session: the device, a nonzero baud rate and the
/// fixed response timeout.
pub struct SessionConfig {
    port: String,
    baud_rate: u32,
}

impl SessionConfig {
    pub closed spec fn port_spec(&self) -> Seq<char> {
        self.port@
    }

    pub closed spec fn baud_rate_spec(&self) -> u32 {
        self.baud_rate
    }

    pub closed spec fn wf(&self) -> bool {
        self.baud_rate > 0
    }

    /// Settings for `port` at `baud_rate`; a zero baud rate is refused.
    pub fn new(port: String, baud_rate: u32) -> (r: Result<SessionConfig, ArgError>)
        ensures
            baud_rate == 0 <==> r == Err::<SessionConfig, ArgError>(ArgError::InvalidBaudRate),
            baud_rate > 0 <==> r is Ok,
            r matches Ok(c) ==> c.wf() && c.port_spec() == port@ && c.baud_rate_spec() == baud_rate,
    {
        if baud_rate == 0 {
            Err(ArgError::InvalidBaudRate)
        } else {
            Ok(SessionConfig { port, baud_rate })
        }
    }

    pub fn port(&self) -> (r: &str)
        ensures
            r@ == self.port_spec(),
    {
        self.port.as_str()
    }

    pub fn baud_rate(&self) -> (r: u32)
        requires
            self.wf(),
        ensures
            r == self.baud_rate_spec(),
            r > 0,
    {
        self.baud_rate
    }

    pub fn timeout_ms(&self) -> (r: u64)
        ensures
            r == RESPONSE_TIMEOUT_MS,
    {
        RESPONSE_TIMEOUT_MS
    }
}

/// Whether `port` is among the listed ports.
pub open spec fn is_listed(port: Seq<char>, available: Seq<String>) -> bool {
    exists|i: int| 0 <= i < available.len() && (#[trigger] available[i])@ == port
}

/// Checks a request: the baud rate must not be zero, then the port must be
/// among the ports that the system lists.
pub fn validate_args(port: &str, baud_rate: u32, available: &Vec<String>) -> (r: Result<(), ArgError>)
    ensures
        baud_rate == 0 ==> r == Err::<(), ArgError>(ArgError::InvalidBaudRate),
        baud_rate > 0 && !is_listed(port@, available@) ==> r == Err::<(), ArgError>(ArgError::PortNotFound),
        baud_rate > 0 && is_listed(port@, available@) ==> r is Ok,
{
    if baud_rate == 0 {
        return Err(ArgError::InvalidBaudRate);
    }
    let mut i: usize = 0;
    let mut found = false;
    while i < available.len()
        invariant
            i <= available@.len(),
            found ==> is_listed(port@, available@),
            !found ==> forall|j: int| 0 <= j < i ==> (#[trigger] available@[j])@ != port@,
        decreases available@.len() - i,
    {
        if same_text(available[i].as_str(), port) {
            found = true;
        }
        i = i + 1;
    }
    if !found {
        return Err(ArgError::PortNotFound);
    }
    Ok(())
}

/// The device to open: the named one, or for `auto` the first listed.
pub fn resolve_port(choice: &PortChoice, available: &Vec<String>) -> (r: Result<String, ArgError>)
    ensures
        match choice {
            PortChoice::Named(p) => r matches Ok(s) && s@ == p@,
            PortChoice::Auto => if available@.len() == 0 {
                r == Err::<String, ArgError>(ArgError::NoPorts)
            } else {
                r matches Ok(s) && s@ == available@[0]@
            },
        },
{
    match choice {
        PortChoice::Named(p) => Ok(p.clone()),
        PortChoice::Auto => {
            if available.len() == 0 {
                Err(ArgError::NoPorts)
            } else {
                Ok(available[0].clone())
            }
        },
    }
}

} // verus!
