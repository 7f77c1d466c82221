//! What the kernel and the supervisor say to each other.
use crate::text::{concat3, decimal, decimal_text};
use vstd::prelude::*;

verus! {

/// What is known of an intercepted system call.
#[derive(Debug, Clone, Copy)]
pub struct SeccompData {
    pub nr: i32,
    pub arch: u32,
    pub instruction_pointer: u64,
    pub args: [u64; 6],
}

/// A notification from the kernel.
#[derive(Debug, Clone, Copy)]
pub struct SeccompNotif {
    pub id: u64,
    pub pid: u32,
    pub flags: u32,
    pub data: SeccompData,
}

/// The answer to a notification.
#[derive(Debug, Clone, Copy)]
pub struct SeccompNotifResp {
    pub id: u64,
    pub val: i64,
    pub error: i32,
    pub flags: u32,
}

/// The error number for an operation that is not permitted.
pub const EPERM: i32 = 1;

/// The flag that would let the kernel go on with the intercepted call. No answer
/// carries it: a call is judged by what was read of it once.
pub const SECCOMP_USER_NOTIF_FLAG_CONTINUE: u32 = 1;

/// The answer that denies a call with `EPERM`.
pub fn deny(id: u64) -> (r: SeccompNotifResp)
    ensures
        r == (SeccompNotifResp { id, val: 0, error: -EPERM as i32, flags: 0 }),
        r.flags & SECCOMP_USER_NOTIF_FLAG_CONTINUE == 0,
{
    assert(0u32 & SECCOMP_USER_NOTIF_FLAG_CONTINUE == 0) by (bit_vector);
    SeccompNotifResp { id, val: 0, error: -EPERM, flags: 0 }
}

/// The answer that has a `connect` call return success. The calls that send data
/// return a count of bytes instead.
pub fn allow_connect(id: u64) -> (r: SeccompNotifResp)
    ensures
        r == (SeccompNotifResp { id, val: 0, error: 0, flags: 0 }),
        r.flags & SECCOMP_USER_NOTIF_FLAG_CONTINUE == 0,
{
    assert(0u32 & SECCOMP_USER_NOTIF_FLAG_CONTINUE == 0) by (bit_vector);
    SeccompNotifResp { id, val: 0, error: 0, flags: 0 }
}

/// The bits of a file's mode that hold its type.
pub const S_IFMT: u32 = 0o170000;

/// The type of a socket.
pub const S_IFSOCK: u32 = 0o140000;

/// Whether a file with the mode `st_mode` is a socket.
pub fn verify_socket_fd(st_mode: u32) -> (r: bool)
    ensures
        r == (st_mode & S_IFMT == S_IFSOCK),
{
    st_mode & S_IFMT == S_IFSOCK
}

/// The file that holds the memory of the process `pid`.
pub fn process_memory_path(pid: u32) -> (r: String)
    ensures
        r@ == "/proc/"@ + decimal_text(pid as nat) + "/mem"@,
{
    let digits = decimal(pid as u64);
    concat3("/proc/", digits.as_str(), "/mem")
}

} // verus!
