//! The job-local error register and the error value built from it.

use vstd::prelude::*;

verus! {

/// Classification the host uses for a failed transfer.
pub const EIO: i32 = 5;

/// Classification the host uses for an argument it cannot represent.
pub const EINVAL: i32 = 22;

/// A snapshot of the error register, taken when an operation failed.
#[derive(Copy, Clone, Debug, PartialEq, Eq, Structural)]
pub struct Error {
    pub errno: i32,
}

/// What the register reads as: its content, or zero where the host exposes
/// no register at all.
pub open spec fn register_value(register: Option<i32>) -> i32 {
    match register {
        Some(code) => code,
        None => 0,
    }
}

/// Reads a register snapshot. `None` stands for a host that has no register.
pub fn errno(register: Option<i32>) -> (code: i32)
    ensures
        code == register_value(register),
{
    match register {
        Some(code) => code,
        None => 0,
    }
}

impl Error {
    /// The error that the register snapshot describes.
    pub fn last(register: Option<i32>) -> (e: Error)
        ensures
            e.errno == register_value(register),
    {
        Error { errno: errno(register) }
    }
}

/// Turns the status that a host call returned into a `Result`: a negative
/// status is a failure and carries the register snapshot taken right after
/// the call, anything else is handed on unchanged.
pub fn check_status(status: isize, register: Option<i32>) -> (r: Result<usize, Error>)
    ensures
        status < 0 ==> r == Err::<usize, Error>(Error { errno: register_value(register) }),
        status >= 0 ==> r == Ok::<usize, Error>(status as usize),
{
    if status < 0 {
        Err(Error::last(register))
    } else {
        Ok(status as usize)
    }
}

} // verus!
