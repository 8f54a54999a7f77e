//! The stat record that the comparisons read, and the mapping of Windows file
//! attributes to Unix-style mode bits.

use vstd::prelude::*;

use crate::stat::{FILE_ATTRIBUTE_DIRECTORY, FILE_ATTRIBUTE_READONLY, S_IFDIR, S_IFREG};

verus! {

/// What a stat call reports of one file. Times are seconds since the Unix epoch,
/// held as the IEEE-754 bit pattern of a 64-bit float, so that two records agree on
/// a time exactly when the floats have the same bits.
#[derive(Clone, Copy, Debug, PartialEq, Eq)]
pub struct StatResult {
    pub st_mode: u32,
    pub st_ino: u64,
    pub st_dev: u64,
    pub st_nlink: u64,
    pub st_uid: u32,
    pub st_gid: u32,
    pub st_size: u64,
    pub st_atime: u64,
    pub st_mtime: u64,
    pub st_ctime: u64,
}

/// The mode bits synthesised from Windows file attributes: a directory is
/// `S_IFDIR` with execute permission for all, anything else `S_IFREG`; a
/// read-only entry is readable by all, any other entry readable and writable by all.
pub open spec fn mode_of_attributes(attr: u32) -> u32 {
    let kind: u32 = if attr & FILE_ATTRIBUTE_DIRECTORY == FILE_ATTRIBUTE_DIRECTORY {
        S_IFDIR | 0o111
    } else {
        S_IFREG
    };
    let perm: u32 = if attr & FILE_ATTRIBUTE_READONLY == FILE_ATTRIBUTE_READONLY {
        0o444
    } else {
        0o666
    };
    kind | perm
}

/// Convert Windows file attributes to Unix-style mode bits.
pub fn attributes_to_mode(attr: u32) -> (r: u32)
    ensures
        r == mode_of_attributes(attr),
{
    let kind: u32 = if attr & FILE_ATTRIBUTE_DIRECTORY == FILE_ATTRIBUTE_DIRECTORY {
        S_IFDIR | 0o111  // execute for user, group and other
    } else {
        S_IFREG
    };
    let perm: u32 = if attr & FILE_ATTRIBUTE_READONLY == FILE_ATTRIBUTE_READONLY {
        0o444
    } else {
        0o666
    };
    kind | perm
}

} // verus!
