//! Writing a whole buffer to a descriptor, and the two standard streams.
//!
//! The host may accept fewer bytes than it was offered, so a buffer is
//! written by asking again for what is left until nothing is. `WriteAll`
//! holds how far such a run has come; the embedding program performs each
//! write and reports the host's status back.

use crate::errno::{register_value, Error, EIO};
use crate::sys::{STDERR_FILENO, STDOUT_FILENO};
use vstd::prelude::*;
use vstd::string::StringSliceAdditionalSpecFns;

verus! {

/// A run of writes that is to consume a buffer of `len` bytes, of which the
/// first `done` have been accepted by the host.
#[derive(Copy, Clone, Debug, PartialEq, Eq, Structural)]
pub struct WriteAll {
    pub fd: i32,
    pub len: usize,
    pub done: usize,
}

/// One write to ask of the host: `count` bytes of the buffer from `offset`
/// on, to descriptor `fd`.
#[derive(Copy, Clone, Debug, PartialEq, Eq, Structural)]
pub struct WriteCall {
    pub fd: i32,
    pub offset: usize,
    pub count: usize,
}

/// What one reply of the host does to a run that stands at `run`: the run
/// after it, or the error that ends it.
pub open spec fn step(run: WriteAll, status: int, register: Option<i32>) -> Result<WriteAll, Error> {
    if status < 0 {
        Err(Error { errno: register_value(register) })
    } else if status == 0 {
        Err(Error { errno: EIO })
    } else {
        Ok(WriteAll { fd: run.fd, len: run.len, done: (run.done + status) as usize })
    }
}

/// How a run ends when the host answers with `replies` in turn: `None` while
/// bytes are left and the replies have run out. Replies past the end of the
/// run are never asked for.
pub open spec fn outcome(run: WriteAll, replies: Seq<(isize, Option<i32>)>) -> Option<
    Result<(), Error>,
>
    decreases replies.len(),
{
    if run.done >= run.len {
        Some(Ok(()))
    } else if replies.len() == 0 {
        None
    } else {
        match step(run, replies[0].0 as int, replies[0].1) {
            Ok(next) => outcome(next, replies.drop_first()),
            Err(e) => Some(Err(e)),
        }
    }
}

/// Whether no reply that the run gets to claims more bytes than it was
/// offered.
pub open spec fn fits(run: WriteAll, replies: Seq<(isize, Option<i32>)>) -> bool
    decreases replies.len(),
{
    if run.done >= run.len || replies.len() == 0 {
        true
    } else {
        &&& replies[0].0 <= run.len - run.done
        &&& match step(run, replies[0].0 as int, replies[0].1) {
            Ok(next) => fits(next, replies.drop_first()),
            Err(_) => true,
        }
    }
}

impl WriteAll {
    pub open spec fn wf(&self) -> bool {
        self.done <= self.len
    }

    /// Whether the whole buffer has been accepted.
    pub open spec fn finished(&self) -> bool {
        self.done == self.len
    }

    /// The write to ask of the host next: all that is left of the buffer.
    /// There is none once the buffer is consumed.
    pub fn pending(&self) -> (call: Option<WriteCall>)
        requires
            self.wf(),
        ensures
            self.finished() <==> call is None,
            !self.finished() ==> call == Some(
                (WriteCall { fd: self.fd, offset: self.done, count: (self.len - self.done) as usize }),
            ),
    {
        if self.done == self.len {
            None
        } else {
            Some(WriteCall { fd: self.fd, offset: self.done, count: self.len - self.done })
        }
    }

    /// Takes the host's reply to the pending write. A negative status ends
    /// the run with the register's code, captured with the reply; a status of
    /// zero ends it as a failed transfer; a positive one moves the run on by
    /// that many bytes.
    pub fn advance(&mut self, status: isize, register: Option<i32>) -> (r: Result<(), Error>)
        requires
            old(self).wf(),
            !old(self).finished(),
            status <= old(self).len - old(self).done,
        ensures
            match step(*old(self), status as int, register) {
                Ok(next) => r is Ok && *final(self) == next,
                Err(e) => r == Err::<(), Error>(e) && *final(self) == *old(self),
            },
            final(self).wf(),
            r is Ok ==> final(self).len - final(self).done < old(self).len - old(self).done,
    {
        if status < 0 {
            return Err(Error::last(register));
        }
        if status == 0 {
            return Err(Error { errno: EIO });
        }
        self.done = self.done + status as usize;
        Ok(())
    }
}

impl WriteAll {
    /// Carries the run through with the host's replies given in advance, and
    /// says how it ends: `None` where the replies run out before the buffer
    /// does.
    pub fn replay(self, replies: &[(isize, Option<i32>)]) -> (end: Option<Result<(), Error>>)
        requires
            self.wf(),
            fits(self, replies@),
        ensures
            end == outcome(self, replies@),
    {
        let mut run = self;
        let mut i: usize = 0;
        assert(replies@.skip(0) =~= replies@);
        while i < replies.len()
            invariant
                i <= replies@.len(),
                run.wf(),
                fits(run, replies@.skip(i as int)),
                outcome(run, replies@.skip(i as int)) == outcome(self, replies@),
            decreases replies@.len() - i,
        {
            if run.pending().is_none() {
                return Some(Ok(()));
            }
            let reply = replies[i];
            assert(replies@.skip(i as int)[0] == reply);
            assert(replies@.skip(i as int).drop_first() =~= replies@.skip(i + 1));
            match run.advance(reply.0, reply.1) {
                Ok(()) => {},
                Err(e) => {
                    return Some(Err(e));
                },
            }
            i = i + 1;
        }
        if run.pending().is_none() {
            Some(Ok(()))
        } else {
            None
        }
    }
}

/// Starts a run that writes all of `buf` to `fd`.
pub fn write_all(fd: i32, buf: &[u8]) -> (run: WriteAll)
    ensures
        run == (WriteAll { fd, len: buf@.len() as usize, done: 0 }),
        run.wf(),
{
    WriteAll { fd, len: buf.len(), done: 0 }
}

/// The job's standard output.
#[derive(Copy, Clone, Debug)]
pub struct Stdout;

/// The job's error output.
#[derive(Copy, Clone, Debug)]
pub struct Stderr;

impl Stdout {
    /// Starts a run that writes the bytes of `s` to standard output.
    pub fn write_str(&self, s: &str) -> (run: WriteAll)
        ensures
            run == (WriteAll { fd: STDOUT_FILENO, len: s.spec_bytes().len() as usize, done: 0 }),
    {
        write_all(STDOUT_FILENO, s.as_bytes())
    }
}

impl Stderr {
    /// Starts a run that writes the bytes of `s` to the error output.
    pub fn write_str(&self, s: &str) -> (run: WriteAll)
        ensures
            run == (WriteAll { fd: STDERR_FILENO, len: s.spec_bytes().len() as usize, done: 0 }),
    {
        write_all(STDERR_FILENO, s.as_bytes())
    }
}

} // verus!
