//! Host-defined numbers: standard descriptors, seek origins and open flags.
//!
//! The flag values are those of the host's C library, not the usual POSIX
//! ones.

use vstd::prelude::*;

verus! {

pub const STDIN_FILENO: i32 = 0;
pub const STDOUT_FILENO: i32 = 1;
pub const STDERR_FILENO: i32 = 2;

pub const SEEK_SET: i32 = 0;
pub const SEEK_CUR: i32 = 1;
pub const SEEK_END: i32 = 2;

pub const O_RDONLY: i32 = 0;
pub const O_WRONLY: i32 = 1;
pub const O_RDWR: i32 = 2;
pub const O_APPEND: i32 = 0x0008;
pub const O_CREAT: i32 = 0x0200;
pub const O_TRUNC: i32 = 0x0400;
pub const O_EXCL: i32 = 0x0800;
pub const O_NONBLOCK: i32 = 0x4000;
pub const O_CLOEXEC: i32 = 0x40000;

} // verus!
