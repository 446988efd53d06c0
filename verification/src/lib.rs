//! Materialization layer of a package manager: given a resolved dependency
//! graph, compute where every package lives on disk (isolated or hoisted
//! layout), which directories an extraction must create and a prune must
//! remove, which executable entry points to link, and how lifecycle scripts
//! for the graph's packages are sequenced, with fault isolation for optional
//! dependencies.
//!
//! The decisions are verified here over a plain model of the on-disk tree;
//! the surrounding process (filesystem calls, child processes) supplies the
//! outcomes these functions consume.

use vstd::prelude::*;

pub mod graph;
pub mod layout;
pub mod disk;
pub mod bins;
pub mod scripts;
pub mod linker;

verus! {

/// Verdict of the copy-on-write capability probe, given the outcome of each
/// of its steps: creating a temp file in the source directory, writing a byte
/// to it, creating a temp directory in the destination, and cloning the file
/// into it. The probe reports support only when every step succeeded; any
/// failure downgrades to "unsupported" and never surfaces as an error.
pub fn reflink_probe_verdict(
    temp_file_created: bool,
    wrote_byte: bool,
    temp_dir_created: bool,
    clone_succeeded: bool,
) -> (supported: bool)
    ensures
        supported == (temp_file_created && wrote_byte && temp_dir_created && clone_succeeded),
{
    temp_file_created && wrote_byte && temp_dir_created && clone_succeeded
}

} // verus!
