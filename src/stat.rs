//! Constants and functions for interpreting the mode bits of a stat record.
#![allow(non_snake_case)]

use vstd::prelude::*;

verus! {

// Positions of the members of a stat record, in the order of the classic stat tuple.
pub const ST_MODE: usize = 0;
pub const ST_INO: usize = 1;
pub const ST_DEV: usize = 2;
pub const ST_NLINK: usize = 3;
pub const ST_UID: usize = 4;
pub const ST_GID: usize = 5;
pub const ST_SIZE: usize = 6;
pub const ST_ATIME: usize = 7;
pub const ST_MTIME: usize = 8;
pub const ST_CTIME: usize = 9;

// File-type values of `S_IFMT(mode)` (not every one occurs on every system).
/// Directory.
pub const S_IFDIR: u32 = 0o040000;
/// Character device.
pub const S_IFCHR: u32 = 0o020000;
/// Block device.
pub const S_IFBLK: u32 = 0o060000;
/// Regular file.
pub const S_IFREG: u32 = 0o100000;
/// FIFO (named pipe).
pub const S_IFIFO: u32 = 0o010000;
/// Symbolic link.
pub const S_IFLNK: u32 = 0o120000;
/// Socket.
pub const S_IFSOCK: u32 = 0o140000;
/// Door (no such file type here).
pub const S_IFDOOR: u32 = 0;
/// Event port (no such file type here).
pub const S_IFPORT: u32 = 0;
/// Whiteout (no such file type here).
pub const S_IFWHT: u32 = 0;

// Permission bits.
/// Set-UID bit.
pub const S_ISUID: u32 = 0o4000;
/// Set-GID bit.
pub const S_ISGID: u32 = 0o2000;
/// File locking enforcement.
pub const S_ENFMT: u32 = S_ISGID;
/// Sticky bit.
pub const S_ISVTX: u32 = 0o1000;
/// Unix V7 synonym for `S_IRUSR`.
pub const S_IREAD: u32 = 0o0400;
/// Unix V7 synonym for `S_IWUSR`.
pub const S_IWRITE: u32 = 0o0200;
/// Unix V7 synonym for `S_IXUSR`.
pub const S_IEXEC: u32 = 0o0100;
/// Mask for owner permissions.
pub const S_IRWXU: u32 = 0o0700;
/// Read by owner.
pub const S_IRUSR: u32 = 0o0400;
/// Write by owner.
pub const S_IWUSR: u32 = 0o0200;
/// Execute by owner.
pub const S_IXUSR: u32 = 0o0100;
/// Mask for group permissions.
pub const S_IRWXG: u32 = 0o0070;
/// Read by group.
pub const S_IRGRP: u32 = 0o0040;
/// Write by group.
pub const S_IWGRP: u32 = 0o0020;
/// Execute by group.
pub const S_IXGRP: u32 = 0o0010;
/// Mask for others' permissions.
pub const S_IRWXO: u32 = 0o0007;
/// Read by others.
pub const S_IROTH: u32 = 0o0004;
/// Write by others.
pub const S_IWOTH: u32 = 0o0002;
/// Execute by others.
pub const S_IXOTH: u32 = 0o0001;

// File flags.
/// Do not dump the file.
pub const UF_NODUMP: u32 = 0x00000001;
/// The file may not be changed.
pub const UF_IMMUTABLE: u32 = 0x00000002;
/// The file may only be appended to.
pub const UF_APPEND: u32 = 0x00000004;
/// The directory is opaque when viewed through a union stack.
pub const UF_OPAQUE: u32 = 0x00000008;
/// The file may not be renamed or deleted.
pub const UF_NOUNLINK: u32 = 0x00000010;
/// The file is compressed (macOS).
pub const UF_COMPRESSED: u32 = 0x00000020;
/// The file should not be displayed (macOS).
pub const UF_HIDDEN: u32 = 0x00008000;
/// The file may be archived.
pub const SF_ARCHIVED: u32 = 0x00010000;
/// The file may not be changed.
pub const SF_IMMUTABLE: u32 = 0x00020000;
/// The file may only be appended to.
pub const SF_APPEND: u32 = 0x00040000;
/// The file may not be renamed or deleted.
pub const SF_NOUNLINK: u32 = 0x00100000;
/// The file is a snapshot file.
pub const SF_SNAPSHOT: u32 = 0x00200000;

// Windows file attribute bits.
pub const FILE_ATTRIBUTE_ARCHIVE: u32 = 32;
pub const FILE_ATTRIBUTE_COMPRESSED: u32 = 2048;
pub const FILE_ATTRIBUTE_DEVICE: u32 = 64;
/// The entry is a directory.
pub const FILE_ATTRIBUTE_DIRECTORY: u32 = 16;
pub const FILE_ATTRIBUTE_ENCRYPTED: u32 = 16384;
pub const FILE_ATTRIBUTE_HIDDEN: u32 = 2;
pub const FILE_ATTRIBUTE_INTEGRITY_STREAM: u32 = 32768;
pub const FILE_ATTRIBUTE_NORMAL: u32 = 128;
pub const FILE_ATTRIBUTE_NOT_CONTENT_INDEXED: u32 = 8192;
pub const FILE_ATTRIBUTE_NO_SCRUB_DATA: u32 = 131072;
pub const FILE_ATTRIBUTE_OFFLINE: u32 = 4096;
/// The entry is read-only.
pub const FILE_ATTRIBUTE_READONLY: u32 = 1;
pub const FILE_ATTRIBUTE_REPARSE_POINT: u32 = 1024;
pub const FILE_ATTRIBUTE_SPARSE_FILE: u32 = 512;
pub const FILE_ATTRIBUTE_SYSTEM: u32 = 4;
pub const FILE_ATTRIBUTE_TEMPORARY: u32 = 256;
pub const FILE_ATTRIBUTE_VIRTUAL: u32 = 65536;

/// Permission and special bits that `chmod` can set.
pub open spec fn imode_of(mode: u32) -> u32 {
    mode & 0o7777
}

/// The file-type bits of a mode.
pub open spec fn ifmt_of(mode: u32) -> u32 {
    mode & 0o170000
}

/// Return the portion of the file's mode that can be set by `chmod`.
pub fn S_IMODE(mode: u32) -> (r: u32)
    ensures
        r == imode_of(mode),
{
    mode & 0o7777
}

/// Return the portion of the file's mode that describes the file type.
pub fn S_IFMT(mode: u32) -> (r: u32)
    ensures
        r == ifmt_of(mode),
{
    mode & 0o170000
}

/// Return true if mode is from a directory.
pub fn S_ISDIR(mode: u32) -> (r: bool)
    ensures
        r == (ifmt_of(mode) == S_IFDIR),
{
    S_IFMT(mode) == S_IFDIR
}

/// Return true if mode is from a character special device file.
pub fn S_ISCHR(mode: u32) -> (r: bool)
    ensures
        r == (ifmt_of(mode) == S_IFCHR),
{
    S_IFMT(mode) == S_IFCHR
}

/// Return true if mode is from a block special device file.
pub fn S_ISBLK(mode: u32) -> (r: bool)
    ensures
        r == (ifmt_of(mode) == S_IFBLK),
{
    S_IFMT(mode) == S_IFBLK
}

/// Return true if mode is from a regular file.
pub fn S_ISREG(mode: u32) -> (r: bool)
    ensures
        r == (ifmt_of(mode) == S_IFREG),
{
    S_IFMT(mode) == S_IFREG
}

/// Return true if mode is from a FIFO (named pipe).
pub fn S_ISFIFO(mode: u32) -> (r: bool)
    ensures
        r == (ifmt_of(mode) == S_IFIFO),
{
    S_IFMT(mode) == S_IFIFO
}

/// Return true if mode is from a symbolic link.
pub fn S_ISLNK(mode: u32) -> (r: bool)
    ensures
        r == (ifmt_of(mode) == S_IFLNK),
{
    S_IFMT(mode) == S_IFLNK
}

/// Return true if mode is from a socket.
pub fn S_ISSOCK(mode: u32) -> (r: bool)
    ensures
        r == (ifmt_of(mode) == S_IFSOCK),
{
    S_IFMT(mode) == S_IFSOCK
}

/// Return true if mode is from a door; doors do not exist here.
pub fn S_ISDOOR(_mode: u32) -> (r: bool)
    ensures
        !r,
{
    false
}

/// Return true if mode is from an event port; event ports do not exist here.
pub fn S_ISPORT(_mode: u32) -> (r: bool)
    ensures
        !r,
{
    false
}

/// Return true if mode is from a whiteout; whiteouts do not exist here.
pub fn S_ISWHT(_mode: u32) -> (r: bool)
    ensures
        !r,
{
    false
}

/// The character that one column group of `filemode` gives, looking from entry `j`
/// on: that of the first entry whose bits are all set in `mode`, or `'-'` when no
/// entry matches.
pub open spec fn group_char(group: Seq<(u32, char)>, mode: u32, j: int) -> char
    decreases group.len() - j,
{
    if j < 0 || j >= group.len() {
        '-'
    } else if mode & group[j].0 == group[j].0 {
        group[j].1
    } else {
        group_char(group, mode, j + 1)
    }
}

/// The file-type column group. `S_IFSOCK` stands before `S_IFREG` and `S_IFDIR`,
/// whose bits it contains.
pub open spec fn type_group() -> Seq<(u32, char)> {
    seq![
        (S_IFLNK, 'l'),
        (S_IFSOCK, 's'),
        (S_IFREG, '-'),
        (S_IFBLK, 'b'),
        (S_IFDIR, 'd'),
        (S_IFCHR, 'c'),
        (S_IFIFO, 'p'),
    ]
}

/// The text of `filemode(mode)`, ten characters: the file type, then the read,
/// write and execute columns of owner, group and others. An execute column shows
/// the set-UID, set-GID or sticky bit too: lower case with execute permission,
/// upper case without.
pub open spec fn filemode_text(mode: u32) -> Seq<char> {
    seq![
        group_char(type_group(), mode, 0),
        group_char(seq![(S_IRUSR, 'r')], mode, 0),
        group_char(seq![(S_IWUSR, 'w')], mode, 0),
        group_char(seq![(S_IXUSR | S_ISUID, 's'), (S_ISUID, 'S'), (S_IXUSR, 'x')], mode, 0),
        group_char(seq![(S_IRGRP, 'r')], mode, 0),
        group_char(seq![(S_IWGRP, 'w')], mode, 0),
        group_char(seq![(S_IXGRP | S_ISGID, 's'), (S_ISGID, 'S'), (S_IXGRP, 'x')], mode, 0),
        group_char(seq![(S_IROTH, 'r')], mode, 0),
        group_char(seq![(S_IWOTH, 'w')], mode, 0),
        group_char(seq![(S_IXOTH | S_ISVTX, 't'), (S_ISVTX, 'T'), (S_IXOTH, 'x')], mode, 0),
    ]
}

/// The first character of `filemode(mode)` names the file type that `S_IFMT(mode)`
/// gives: a socket, whose bits contain those of a regular file and of a directory,
/// is never taken for either.
pub proof fn lemma_filemode_type_char(mode: u32)
    ensures
        ifmt_of(mode) == S_IFLNK ==> filemode_text(mode)[0] == 'l',
        ifmt_of(mode) == S_IFSOCK ==> filemode_text(mode)[0] == 's',
        ifmt_of(mode) == S_IFREG ==> filemode_text(mode)[0] == '-',
        ifmt_of(mode) == S_IFBLK ==> filemode_text(mode)[0] == 'b',
        ifmt_of(mode) == S_IFDIR ==> filemode_text(mode)[0] == 'd',
        ifmt_of(mode) == S_IFCHR ==> filemode_text(mode)[0] == 'c',
        ifmt_of(mode) == S_IFIFO ==> filemode_text(mode)[0] == 'p',
{
    reveal_with_fuel(group_char, 8);
    if ifmt_of(mode) == S_IFLNK {
        assert(mode & 0o120000u32 == 0o120000u32) by (bit_vector)
            requires
                mode & 0o170000u32 == 0o120000u32,
        ;
    }
    if ifmt_of(mode) == S_IFSOCK {
        assert(mode & 0o120000u32 != 0o120000u32 && mode & 0o140000u32 == 0o140000u32) by (bit_vector)
            requires
                mode & 0o170000u32 == 0o140000u32,
        ;
    }
    if ifmt_of(mode) == S_IFREG {
        assert(mode & 0o120000u32 != 0o120000u32 && mode & 0o140000u32 != 0o140000u32 && mode & 0o100000u32 == 0o100000u32) by (bit_vector)
            requires
                mode & 0o170000u32 == 0o100000u32,
        ;
    }
    if ifmt_of(mode) == S_IFBLK {
        assert(mode & 0o120000u32 != 0o120000u32 && mode & 0o140000u32 != 0o140000u32 && mode & 0o100000u32 != 0o100000u32 && mode & 0o060000u32 == 0o060000u32) by (bit_vector)
            requires
                mode & 0o170000u32 == 0o060000u32,
        ;
    }
    if ifmt_of(mode) == S_IFDIR {
        assert(mode & 0o120000u32 != 0o120000u32 && mode & 0o140000u32 != 0o140000u32 && mode & 0o100000u32 != 0o100000u32 && mode & 0o060000u32 != 0o060000u32 && mode & 0o040000u32 == 0o040000u32) by (bit_vector)
            requires
                mode & 0o170000u32 == 0o040000u32,
        ;
    }
    if ifmt_of(mode) == S_IFCHR {
        assert(mode & 0o120000u32 != 0o120000u32 && mode & 0o140000u32 != 0o140000u32 && mode & 0o100000u32 != 0o100000u32 && mode & 0o060000u32 != 0o060000u32 && mode & 0o040000u32 != 0o040000u32 && mode & 0o020000u32 == 0o020000u32) by (bit_vector)
            requires
                mode & 0o170000u32 == 0o020000u32,
        ;
    }
    if ifmt_of(mode) == S_IFIFO {
        assert(mode & 0o120000u32 != 0o120000u32 && mode & 0o140000u32 != 0o140000u32 && mode & 0o100000u32 != 0o100000u32 && mode & 0o060000u32 != 0o060000u32 && mode & 0o040000u32 != 0o040000u32 && mode & 0o020000u32 != 0o020000u32 && mode & 0o010000u32 == 0o010000u32) by (bit_vector)
            requires
                mode & 0o170000u32 == 0o010000u32,
        ;
    }
}

/// The character of one column group.
fn column_char(group: &Vec<(u32, char)>, mode: u32) -> (c: char)
    ensures
        c == group_char(group@, mode, 0),
{
    let mut j: usize = 0;
    while j < group.len()
        invariant
            j <= group@.len(),
            group_char(group@, mode, 0) == group_char(group@, mode, j as int),
        decreases group@.len() - j,
    {
        let (bit, c) = group[j];
        if mode & bit == bit {
            return c;
        }
        j = j + 1;
    }
    '-'
}

/// Relies on `String`'s `FromIterator<&char>`: the string holds the characters in order.
#[verifier::external_body]
fn chars_to_string(chars: &Vec<char>) -> (r: String)
    ensures
        r@ == chars@,
{
    chars.iter().collect()
}

/// Convert a file's mode to a string of the form `-rwxrwxrwx`, as `ls -l` shows it.
pub fn filemode(mode: u32) -> (r: String)
    ensures
        r@ == filemode_text(mode),
        r@.len() == 10,
{
    let mut perm: Vec<char> = Vec::new();
    let kind = vec![
        (S_IFLNK, 'l'),
        (S_IFSOCK, 's'),
        (S_IFREG, '-'),
        (S_IFBLK, 'b'),
        (S_IFDIR, 'd'),
        (S_IFCHR, 'c'),
        (S_IFIFO, 'p'),
    ];
    assert(kind@ == type_group());
    perm.push(column_char(&kind, mode));
    let g = vec![(S_IRUSR, 'r')];
    assert(g@ == seq![(S_IRUSR, 'r')]);
    perm.push(column_char(&g, mode));
    let g = vec![(S_IWUSR, 'w')];
    assert(g@ == seq![(S_IWUSR, 'w')]);
    perm.push(column_char(&g, mode));
    let g = vec![(S_IXUSR | S_ISUID, 's'), (S_ISUID, 'S'), (S_IXUSR, 'x')];
    assert(g@ == seq![(S_IXUSR | S_ISUID, 's'), (S_ISUID, 'S'), (S_IXUSR, 'x')]);
    perm.push(column_char(&g, mode));
    let g = vec![(S_IRGRP, 'r')];
    assert(g@ == seq![(S_IRGRP, 'r')]);
    perm.push(column_char(&g, mode));
    let g = vec![(S_IWGRP, 'w')];
    assert(g@ == seq![(S_IWGRP, 'w')]);
    perm.push(column_char(&g, mode));
    let g = vec![(S_IXGRP | S_ISGID, 's'), (S_ISGID, 'S'), (S_IXGRP, 'x')];
    assert(g@ == seq![(S_IXGRP | S_ISGID, 's'), (S_ISGID, 'S'), (S_IXGRP, 'x')]);
    perm.push(column_char(&g, mode));
    let g = vec![(S_IROTH, 'r')];
    assert(g@ == seq![(S_IROTH, 'r')]);
    perm.push(column_char(&g, mode));
    let g = vec![(S_IWOTH, 'w')];
    assert(g@ == seq![(S_IWOTH, 'w')]);
    perm.push(column_char(&g, mode));
    let g = vec![(S_IXOTH | S_ISVTX, 't'), (S_ISVTX, 'T'), (S_IXOTH, 'x')];
    assert(g@ == seq![(S_IXOTH | S_ISVTX, 't'), (S_ISVTX, 'T'), (S_IXOTH, 'x')]);
    perm.push(column_char(&g, mode));
    assert(perm@ =~= filemode_text(mode));
    chars_to_string(&perm)
}

} // verus!
