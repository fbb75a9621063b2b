//! An owned file descriptor.
//!
//! A `File` comes from a successful open and gives its descriptor up exactly
//! once. Each operation is in two parts: what to ask of the host, and what
//! the host's status means. A failure carries the error register as it was
//! read right after the failing call.

use crate::errno::{check_status, register_value, Error, EINVAL};
use crate::io::WriteAll;
use vstd::prelude::*;
use vstd::string::StringSliceAdditionalSpecFns;

verus! {

/// The descriptor value of a handle that has given its descriptor up.
pub const RELEASED: i32 = -1;

/// Whether a path holds the byte that ends a string for the host.
pub open spec fn has_terminator(path: Seq<u8>) -> bool {
    exists|i: int| 0 <= i < path.len() && path[i] == 0u8
}

/// What preparing a path comes to: the path with a terminator after it, or
/// an invalid-argument error where the path holds a terminator itself.
pub open spec fn terminated(path: Seq<u8>) -> Result<Seq<u8>, Error> {
    if has_terminator(path) {
        Err(Error { errno: EINVAL })
    } else {
        Ok(path.push(0u8))
    }
}

/// Makes a path ready for the host. A path that holds a terminator cannot be
/// handed over whole and is refused.
pub fn c_path(path: &[u8]) -> (r: Result<Vec<u8>, Error>)
    ensures
        match r {
            Ok(bytes) => terminated(path@) == Ok::<Seq<u8>, Error>(bytes@),
            Err(e) => terminated(path@) == Err::<Seq<u8>, Error>(e),
        },
{
    let mut bytes: Vec<u8> = Vec::new();
    let mut i: usize = 0;
    while i < path.len()
        invariant
            i <= path@.len(),
            bytes@ == path@.take(i as int),
            forall|j: int| 0 <= j < i ==> path@[j] != 0u8,
        decreases path@.len() - i,
    {
        if path[i] == 0 {
            return Err(Error { errno: EINVAL });
        }
        bytes.push(path[i]);
        assert(path@.take(i as int).push(path@[i as int]) =~= path@.take(i + 1));
        i = i + 1;
    }
    assert(path@.take(i as int) =~= path@);
    bytes.push(0);
    Ok(bytes)
}

/// What giving up descriptor `fd` comes to: the descriptor to close, if the
/// handle held one, and the descriptor value that the handle is left with.
pub open spec fn release_of(fd: i32) -> (Option<i32>, i32) {
    if fd >= 0 {
        (Some(fd), RELEASED)
    } else {
        (None, fd)
    }
}

/// An open to ask of the host: the terminated path, the flags and the mode.
pub struct OpenCall {
    pub path: Vec<u8>,
    pub flags: i32,
    pub mode: u32,
}

/// An owned descriptor.
#[derive(Debug)]
pub struct File {
    fd: i32,
}

impl File {
    /// A handle holds a descriptor, which is never negative, or `RELEASED`.
    #[verifier::type_invariant]
    spec fn inv(&self) -> bool {
        self.fd >= 0 || self.fd == RELEASED
    }

    /// The descriptor held, or `RELEASED`.
    pub closed spec fn descriptor(&self) -> i32 {
        self.fd
    }


    /// Whether the handle still owns a descriptor.
    pub open spec fn is_open(&self) -> bool {
        self.descriptor() >= 0
    }

    /// Prepares an open of a path given as bytes. Flags and mode pass through
    /// untouched.
    pub fn open_cstr(path: &[u8], flags: i32, mode: u32) -> (r: Result<OpenCall, Error>)
        ensures
            match r {
                Ok(call) => terminated(path@) == Ok::<Seq<u8>, Error>(call.path@) && call.flags
                    == flags && call.mode == mode,
                Err(e) => terminated(path@) == Err::<Seq<u8>, Error>(e),
            },
    {
        match c_path(path) {
            Ok(bytes) => Ok(OpenCall { path: bytes, flags, mode }),
            Err(e) => Err(e),
        }
    }

    /// Prepares an open of a path given as text.
    pub fn open(path: &str, flags: i32, mode: u32) -> (r: Result<OpenCall, Error>)
        ensures
            match r {
                Ok(call) => terminated(path.spec_bytes()) == Ok::<Seq<u8>, Error>(call.path@)
                    && call.flags == flags && call.mode == mode,
                Err(e) => terminated(path.spec_bytes()) == Err::<Seq<u8>, Error>(e),
            },
    {
        File::open_cstr(path.as_bytes(), flags, mode)
    }

    /// The descriptor held, or `RELEASED` once it has been given up.
    pub fn fd(&self) -> (fd: i32)
        ensures
            fd == self.descriptor(),
            fd >= 0 || fd == RELEASED,
    {
        proof {
            use_type_invariant(self);
        }
        self.fd
    }

    /// What the host's status for a read means: the number of bytes read, or
    /// the register's code where the status is negative.
    pub fn read(&self, status: isize, register: Option<i32>) -> (r: Result<usize, Error>)
        ensures
            status < 0 ==> r == Err::<usize, Error>(Error { errno: register_value(register) }),
            status >= 0 ==> r == Ok::<usize, Error>(status as usize),
    {
        check_status(status, register)
    }

    /// What the host's status for a write means: the number of bytes
    /// written, or the register's code where the status is negative.
    pub fn write(&self, status: isize, register: Option<i32>) -> (r: Result<usize, Error>)
        ensures
            status < 0 ==> r == Err::<usize, Error>(Error { errno: register_value(register) }),
            status >= 0 ==> r == Ok::<usize, Error>(status as usize),
    {
        check_status(status, register)
    }

    /// Starts a run that writes all of `buf` to this file.
    pub fn write_all(&self, buf: &[u8]) -> (run: WriteAll)
        ensures
            run == (WriteAll { fd: self.descriptor(), len: buf@.len() as usize, done: 0 }),
            run.wf(),
    {
        crate::io::write_all(self.fd, buf)
    }

    /// Gives the descriptor up. The descriptor returned is to be closed by
    /// the caller; a handle that holds none returns nothing, so a descriptor
    /// is never closed twice.
    pub fn release(&mut self) -> (closing: Option<i32>)
        ensures
            (closing, final(self).descriptor()) == release_of(old(self).descriptor()),
            final(self).descriptor() == RELEASED,
    {
        proof {
            use_type_invariant(&*self);
        }
        if self.fd >= 0 {
            let fd: i32 = self.fd;
            self.fd = RELEASED;
            Some(fd)
        } else {
            None
        }
    }
}

impl OpenCall {
    /// What the host's status for this open means: a handle that owns the
    /// descriptor, or the register's code where the status is negative.
    pub fn complete(self, status: i32, register: Option<i32>) -> (r: Result<File, Error>)
        ensures
            match r {
                Ok(file) => status >= 0 && file.descriptor() == status,
                Err(e) => status < 0 && e.errno == register_value(register),
            },
    {
        if status < 0 {
            return Err(Error::last(register));
        }
        Ok(File { fd: status })
    }
}

/// Prepares the removal of a path: the terminated path to hand to the host.
pub fn unlink(path: &str) -> (r: Result<Vec<u8>, Error>)
    ensures
        match r {
            Ok(bytes) => terminated(path.spec_bytes()) == Ok::<Seq<u8>, Error>(bytes@),
            Err(e) => terminated(path.spec_bytes()) == Err::<Seq<u8>, Error>(e),
        },
{
    c_path(path.as_bytes())
}

/// What the host's status for a removal means: anything but zero is a
/// failure and carries the register's code.
pub fn unlink_status(status: i32, register: Option<i32>) -> (r: Result<(), Error>)
    ensures
        status == 0 ==> r is Ok,
        status != 0 ==> r == Err::<(), Error>(Error { errno: register_value(register) }),
{
    if status != 0 {
        return Err(Error::last(register));
    }
    Ok(())
}

/// Releasing is safe to repeat: the first release of an open handle hands
/// its descriptor out, and every later one hands out nothing and changes
/// nothing. So a descriptor is closed once, by whichever path gets there
/// first.
pub proof fn lemma_release_once(fd: i32)
    ensures
        fd >= 0 ==> release_of(fd) == (Some(fd), RELEASED),
        release_of(release_of(fd).1).0 is None,
        release_of(release_of(fd).1).1 == release_of(fd).1,
{
}

} // verus!
