//! The compact signature of a file that the comparisons decide on.

use vstd::prelude::*;

use crate::os::StatResult;
use crate::stat::{ifmt_of, S_IFMT};

verus! {

/// File type bits, size and modification time of a file. The time is the bit
/// pattern of the float that the stat call reported, so two signatures are equal
/// exactly when all three fields agree bit for bit.
#[derive(Clone, Copy, Debug, PartialEq, Eq, Structural, Hash)]
pub struct Signature {
    pub s_ifmt: u32,
    pub st_size: u64,
    pub st_mtime: u64,
}

/// The signature of a stat record.
pub open spec fn signature_of(st: StatResult) -> Signature {
    Signature { s_ifmt: ifmt_of(st.st_mode), st_size: st.st_size, st_mtime: st.st_mtime }
}

/// The signature of a stat record: its type bits, its size and its modification time.
pub fn sig(st: &StatResult) -> (r: Signature)
    ensures
        r == signature_of(*st),
{
    Signature { s_ifmt: S_IFMT(st.st_mode), st_size: st.st_size, st_mtime: st.st_mtime }
}

} // verus!
