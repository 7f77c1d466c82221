//! Connecting to the drivers that run beside the server.
use crate::text::{concat, concat3};
use vstd::pervasive::unreached;
use vstd::prelude::*;

verus! {

/// What kind of thing went wrong.
#[derive(Debug, Clone, Copy, PartialEq, Eq, Structural)]
pub enum ErrorKind {
    /// Something could not be carried out.
    Execution,
    /// Something is set up wrong.
    Config,
}

#[derive(Debug)]
pub struct DriverError {
    pub kind: ErrorKind,
    pub message: String,
}

/// A driver that runs beside the server.
#[derive(Debug, Clone, Copy, PartialEq, Eq, Structural)]
pub enum Driver {
    Compute,
    Credentials,
}

impl Driver {
    /// What messages call the driver.
    pub open spec fn label(self) -> Seq<char> {
        match self {
            Driver::Compute => "external compute driver"@,
            Driver::Credentials => "credentials driver"@,
        }
    }

    pub fn name(&self) -> (r: &'static str)
        ensures
            r@ == self.label(),
    {
        match self {
            Driver::Compute => "external compute driver",
            Driver::Credentials => "credentials driver",
        }
    }

    /// The error on a system that has no Unix sockets.
    pub fn unsupported(&self) -> (r: DriverError)
        ensures
            r.kind == ErrorKind::Config,
            r.message@ == self.label() + " is only supported on Unix"@,
    {
        DriverError {
            kind: ErrorKind::Config,
            message: concat(self.name(), " is only supported on Unix"),
        }
    }
}

/// How often a connection is tried.
pub const MAX_ATTEMPTS: u32 = 100;

/// How long to wait after a try that failed.
pub const RETRY_INTERVAL_MS: u64 = 100;

/// Work that connecting asks for.
#[derive(Debug, Clone, Copy, PartialEq, Eq, Structural)]
pub enum ConnectEffect {
    /// Try to connect to the socket.
    Attempt,
    /// Wait for this many milliseconds.
    Sleep(u64),
}

/// What came of the work that connecting asked for.
#[derive(Debug)]
pub enum ConnectReply {
    Connected,
    Failed(String),
    Slept,
}

/// Connecting to a driver, which may not have started yet.
pub enum Connect {
    Attempt { failures: u32 },
    Pause { failures: u32, error: String },
    /// The number of tries it took, or the error of the last one.
    Done(Result<u32, DriverError>),
}

impl Connect {
    /// There are never more failures than tries.
    pub open spec fn valid(&self) -> bool {
        match self {
            Connect::Attempt { failures } => *failures < MAX_ATTEMPTS,
            Connect::Pause { failures, .. } => 0 < *failures <= MAX_ATTEMPTS,
            Connect::Done(_) => true,
        }
    }

    pub fn begin() -> (r: Self)
        ensures
            r == (Connect::Attempt { failures: 0 }),
            r.valid(),
    {
        Connect::Attempt { failures: 0 }
    }

    /// The work that comes next; `None` once it is settled.
    pub open spec fn asks(&self) -> Option<ConnectEffect> {
        match self {
            Connect::Attempt { .. } => Some(ConnectEffect::Attempt),
            Connect::Pause { .. } => Some(ConnectEffect::Sleep(RETRY_INTERVAL_MS)),
            Connect::Done(_) => None,
        }
    }

    /// Connecting can go on from `reply`.
    pub open spec fn takes(&self, reply: ConnectReply) -> bool {
        match self {
            Connect::Attempt { .. } => reply !is Slept,
            Connect::Pause { .. } => reply is Slept,
            Connect::Done(_) => false,
        }
    }

    /// Whether connecting can go on from `reply`.
    pub fn can_take(&self, reply: &ConnectReply) -> (r: bool)
        ensures
            r == self.takes(*reply),
    {
        match (self, reply) {
            (Connect::Attempt { .. }, ConnectReply::Connected) => true,
            (Connect::Attempt { .. }, ConnectReply::Failed(_)) => true,
            (Connect::Pause { .. }, ConnectReply::Slept) => true,
            _ => false,
        }
    }

    /// For the driver `driver` at the socket `path`, `reply` leads from here to `next`.
    pub open spec fn follows(
        &self,
        driver: Driver,
        path: Seq<char>,
        reply: ConnectReply,
        next: Self,
    ) -> bool {
        match (*self, reply) {
            (Connect::Attempt { failures }, ConnectReply::Connected) => next == Connect::Done(
                Ok((failures + 1) as u32),
            ),
            (Connect::Attempt { failures }, ConnectReply::Failed(error)) => next == (
            Connect::Pause { failures: (failures + 1) as u32, error }),
            (Connect::Pause { failures, error }, ConnectReply::Slept) => if failures
                < MAX_ATTEMPTS {
                next == (Connect::Attempt { failures })
            } else {
                next matches Connect::Done(Err(e)) && e.kind == ErrorKind::Execution && e.message@
                    == "failed to connect to "@ + driver.label() + " socket '"@ + path
                    + "' after 10s: "@ + error@
            },
            _ => false,
        }
    }

    /// The work that comes next; `None` once it is settled.
    pub fn effect(&self) -> (r: Option<ConnectEffect>)
        ensures
            r == self.asks(),
    {
        match self {
            Connect::Attempt { .. } => Some(ConnectEffect::Attempt),
            Connect::Pause { .. } => Some(ConnectEffect::Sleep(RETRY_INTERVAL_MS)),
            Connect::Done(_) => None,
        }
    }

    /// Goes on from what came of the work.
    pub fn resume(self, driver: Driver, path: &str, reply: ConnectReply) -> (next: Self)
        requires
            self.valid(),
            self.takes(reply),
        ensures
            self.follows(driver, path@, reply, next),
            next.valid(),
    {
        match (self, reply) {
            (Connect::Attempt { failures }, ConnectReply::Connected) => Connect::Done(
                Ok(failures + 1),
            ),
            (Connect::Attempt { failures }, ConnectReply::Failed(error)) => Connect::Pause {
                failures: failures + 1,
                error,
            },
            (Connect::Pause { failures, error }, ConnectReply::Slept) => {
                if failures < MAX_ATTEMPTS {
                    return Connect::Attempt { failures };
                }
                let mut message = concat3("failed to connect to ", driver.name(), " socket '");
                message.append(path);
                message.append("' after 10s: ");
                message.append(error.as_str());
                Connect::Done(Err(DriverError { kind: ErrorKind::Execution, message }))
            },
            _ => unreached(),
        }
    }

    /// The number of tries it took, or the error, once it is settled.
    pub fn finish(self) -> (r: Result<u32, DriverError>)
        requires
            self.asks() is None,
        ensures
            r == self->Done_0,
    {
        match self {
            Connect::Done(r) => r,
            _ => unreached(),
        }
    }

    /// How many more steps connecting can take at most.
    pub open spec fn steps_left(self) -> int {
        match self {
            Connect::Attempt { failures } => 2 * (MAX_ATTEMPTS - failures),
            Connect::Pause { failures, .. } => 2 * (MAX_ATTEMPTS - failures) + 1,
            Connect::Done(_) => 0,
        }
    }
}

/// Connecting always comes to an end: every step brings it nearer, and from the start a
/// hundred tries with a wait of a tenth of a second after each are the most there can be.
pub proof fn connecting_ends(
    at: Connect,
    driver: Driver,
    path: Seq<char>,
    reply: ConnectReply,
    next: Connect,
)
    requires
        at.valid(),
        at.follows(driver, path, reply, next),
    ensures
        0 <= next.steps_left() < at.steps_left(),
        (Connect::Attempt { failures: 0 }).steps_left() == 2 * MAX_ATTEMPTS,
        MAX_ATTEMPTS * RETRY_INTERVAL_MS == 10_000,
{
}

/// It is given up only after the last try has failed, and the error tells of that try.
pub proof fn given_up_after_last_attempt(
    at: Connect,
    driver: Driver,
    path: Seq<char>,
    reply: ConnectReply,
    next: Connect,
)
    requires
        at.valid(),
        at.follows(driver, path, reply, next),
        next matches Connect::Done(Err(_)),
    ensures
        at matches Connect::Pause { failures, error } && failures == MAX_ATTEMPTS
            && next->Done_0->Err_0.message@ == "failed to connect to "@ + driver.label()
            + " socket '"@ + path + "' after 10s: "@ + error@,
{
}

/// The answer of the credentials driver, with what it reports as an error made one of the
/// server's own.
pub fn credentials_reply<T>(reply: Result<T, String>) -> (r: Result<T, DriverError>)
    ensures
        match reply {
            Ok(value) => r == Ok::<T, DriverError>(value),
            Err(e) => r matches Err(error) && error.kind == ErrorKind::Execution && error.message@
                == "credentials driver RPC failed: "@ + e@,
        },
{
    match reply {
        Ok(value) => Ok(value),
        Err(e) => Err(
            DriverError {
                kind: ErrorKind::Execution,
                message: concat("credentials driver RPC failed: ", e.as_str()),
            },
        ),
    }
}

/// A try that succeeds settles it, with the number of tries it took.
pub proof fn success_settles_it(at: Connect, driver: Driver, path: Seq<char>, next: Connect)
    requires
        at.valid(),
        at.follows(driver, path, ConnectReply::Connected, next),
    ensures
        next.asks() is None,
        next matches Connect::Done(Ok(tries)) && (at matches Connect::Attempt { failures } && tries
            == failures + 1),
{
}

/// After a try that fails there is a wait of a tenth of a second, and then another try, as long
/// as there were fewer than a hundred.
pub proof fn failed_tries_are_repeated(
    at: Connect,
    driver: Driver,
    path: Seq<char>,
    error: String,
    waiting: Connect,
    then: Connect,
)
    requires
        at.valid(),
        at.follows(driver, path, ConnectReply::Failed(error), waiting),
        waiting.follows(driver, path, ConnectReply::Slept, then),
    ensures
        at.asks() == Some(ConnectEffect::Attempt),
        waiting.asks() == Some(ConnectEffect::Sleep(100)),
        at matches Connect::Attempt { failures } && if failures < 99 {
            then == (Connect::Attempt { failures: (failures + 1) as u32 })
        } else {
            then.asks() is None
        },
{
}

} // verus!
