//! The entry trampoline: the one step between the host's invocation and the
//! job's own entry function.

use crate::args::{raw_view, Args};
use vstd::prelude::*;

verus! {

/// Runs a job: builds the argument vector from what the host supplied, calls
/// the job's entry function with it once, and returns the status that the
/// function returned, unchanged. The caller vouches that a present array
/// holds at least `argc` entries.
pub fn app_main<F: FnOnce(Args) -> i32>(
    argc: i32,
    argv: Option<Vec<Option<Vec<u8>>>>,
    main: F,
) -> (status: i32)
    requires
        argv is Some && argc > 0 ==> argc <= argv->Some_0@.len(),
        forall|args: Args| args@ == raw_view(argc, argv) ==> main.requires((args,)),
    ensures
        exists|args: Args| args@ == raw_view(argc, argv) && main.ensures((args,), status),
{
    let args = Args::from_raw(argc, argv);
    main(args)
}

} // verus!
