//! File permission bits: the individual tests and the `ls -l` style rendering,
//! and the rendering of Windows file attributes.

use vstd::prelude::*;

use crate::strings::{join_with, push_char, push_str};

verus! {

pub const S_IRUSR: u32 = 0o400;
pub const S_IWUSR: u32 = 0o200;
pub const S_IXUSR: u32 = 0o100;
pub const S_IRGRP: u32 = 0o40;
pub const S_IWGRP: u32 = 0o20;
pub const S_IXGRP: u32 = 0o10;
pub const S_IROTH: u32 = 0o4;
pub const S_IWOTH: u32 = 0o2;
pub const S_IXOTH: u32 = 0o1;
pub const S_ISUID: u32 = 0o4000;
pub const S_ISGID: u32 = 0o2000;
pub const S_ISVTX: u32 = 0o1000;
pub const S_IFIFO: u32 = 0o10000;
pub const S_IFCHR: u32 = 0o20000;
pub const S_IFBLK: u32 = 0o60000;
pub const S_IFDIR: u32 = 0o40000;
pub const S_IFLNK: u32 = 0o120000;
pub const S_IFSOCK: u32 = 0o140000;

/// Whether every bit of `flag` is set in `mode`.
#[verifier::opaque]
pub open spec fn has_bits(mode: u32, flag: u32) -> bool {
    mode & flag == flag
}

/// Whether the owner may read.
pub fn mode_user_read(mode: u32) -> (r: bool)
    ensures
        r == has_bits(mode, S_IRUSR),
{
    reveal(has_bits);
    mode & S_IRUSR == S_IRUSR
}

/// Whether the owner may write.
pub fn mode_user_write(mode: u32) -> (r: bool)
    ensures
        r == has_bits(mode, S_IWUSR),
{
    reveal(has_bits);
    mode & S_IWUSR == S_IWUSR
}

/// Whether the owner may execute.
pub fn mode_user_exec(mode: u32) -> (r: bool)
    ensures
        r == has_bits(mode, S_IXUSR),
{
    reveal(has_bits);
    mode & S_IXUSR == S_IXUSR
}

/// Whether the group may read.
pub fn mode_group_read(mode: u32) -> (r: bool)
    ensures
        r == has_bits(mode, S_IRGRP),
{
    reveal(has_bits);
    mode & S_IRGRP == S_IRGRP
}

/// Whether the group may write.
pub fn mode_group_write(mode: u32) -> (r: bool)
    ensures
        r == has_bits(mode, S_IWGRP),
{
    reveal(has_bits);
    mode & S_IWGRP == S_IWGRP
}

/// Whether the group may execute.
pub fn mode_group_exec(mode: u32) -> (r: bool)
    ensures
        r == has_bits(mode, S_IXGRP),
{
    reveal(has_bits);
    mode & S_IXGRP == S_IXGRP
}

/// Whether others may read.
pub fn mode_other_read(mode: u32) -> (r: bool)
    ensures
        r == has_bits(mode, S_IROTH),
{
    reveal(has_bits);
    mode & S_IROTH == S_IROTH
}

/// Whether others may write.
pub fn mode_other_write(mode: u32) -> (r: bool)
    ensures
        r == has_bits(mode, S_IWOTH),
{
    reveal(has_bits);
    mode & S_IWOTH == S_IWOTH
}

/// Whether others may execute.
pub fn mode_other_exec(mode: u32) -> (r: bool)
    ensures
        r == has_bits(mode, S_IXOTH),
{
    reveal(has_bits);
    mode & S_IXOTH == S_IXOTH
}

/// Whether the set-user-id bit is set.
pub fn mode_suid(mode: u32) -> (r: bool)
    ensures
        r == has_bits(mode, S_ISUID),
{
    reveal(has_bits);
    mode & S_ISUID == S_ISUID
}

/// Whether the set-group-id bit is set.
pub fn mode_sgid(mode: u32) -> (r: bool)
    ensures
        r == has_bits(mode, S_ISGID),
{
    reveal(has_bits);
    mode & S_ISGID == S_ISGID
}

/// Whether the sticky bit is set.
pub fn mode_sticky(mode: u32) -> (r: bool)
    ensures
        r == has_bits(mode, S_ISVTX),
{
    reveal(has_bits);
    mode & S_ISVTX == S_ISVTX
}

/// Whether the type bits include those of a FIFO.
pub fn mode_is_pipe(mode: u32) -> (r: bool)
    ensures
        r == has_bits(mode, S_IFIFO),
{
    reveal(has_bits);
    mode & S_IFIFO == S_IFIFO
}

/// Whether the type bits include those of a character device.
pub fn mode_is_char_device(mode: u32) -> (r: bool)
    ensures
        r == has_bits(mode, S_IFCHR),
{
    reveal(has_bits);
    mode & S_IFCHR == S_IFCHR
}

/// Whether the type bits include those of a block device.
pub fn mode_is_block_device(mode: u32) -> (r: bool)
    ensures
        r == has_bits(mode, S_IFBLK),
{
    reveal(has_bits);
    mode & S_IFBLK == S_IFBLK
}

/// Whether the type bits include those of a directory.
pub fn mode_is_directory(mode: u32) -> (r: bool)
    ensures
        r == has_bits(mode, S_IFDIR),
{
    reveal(has_bits);
    mode & S_IFDIR == S_IFDIR
}

/// Whether the type bits include those of a symbolic link.
pub fn mode_is_link(mode: u32) -> (r: bool)
    ensures
        r == has_bits(mode, S_IFLNK),
{
    reveal(has_bits);
    mode & S_IFLNK == S_IFLNK
}

/// Whether the type bits include those of a socket.
pub fn mode_is_socket(mode: u32) -> (r: bool)
    ensures
        r == has_bits(mode, S_IFSOCK),
{
    reveal(has_bits);
    mode & S_IFSOCK == S_IFSOCK
}

/// Whether read, write and execute are all granted.
pub fn mode_user_all(mode: u32) -> (r: bool)
    ensures
        r == (has_bits(mode, S_IRUSR) && has_bits(mode, S_IWUSR) && has_bits(mode, S_IXUSR)),
{
    mode_user_read(mode) && mode_user_write(mode) && mode_user_exec(mode)
}

/// Whether read, write and execute are all granted.
pub fn mode_group_all(mode: u32) -> (r: bool)
    ensures
        r == (has_bits(mode, S_IRGRP) && has_bits(mode, S_IWGRP) && has_bits(mode, S_IXGRP)),
{
    mode_group_read(mode) && mode_group_write(mode) && mode_group_exec(mode)
}

/// Whether read, write and execute are all granted.
pub fn mode_other_all(mode: u32) -> (r: bool)
    ensures
        r == (has_bits(mode, S_IROTH) && has_bits(mode, S_IWOTH) && has_bits(mode, S_IXOTH)),
{
    mode_other_read(mode) && mode_other_write(mode) && mode_other_exec(mode)
}
/// The file-type letter: `l`, `b`, `c`, `s`, `p`, `d`, tested in that
/// order, else `-`.
pub open spec fn type_char(mode: u32) -> char {
    if has_bits(mode, S_IFLNK) {
        'l'
    } else if has_bits(mode, S_IFBLK) {
        'b'
    } else if has_bits(mode, S_IFCHR) {
        'c'
    } else if has_bits(mode, S_IFSOCK) {
        's'
    } else if has_bits(mode, S_IFIFO) {
        'p'
    } else if has_bits(mode, S_IFDIR) {
        'd'
    } else {
        '-'
    }
}

pub open spec fn flag_char(mode: u32, flag: u32, c: char) -> char {
    if has_bits(mode, flag) {
        c
    } else {
        '-'
    }
}

/// The execute position: `x` or `-`, replaced by `special` (lower case)
/// when the special bit is set as well, or by its upper case form when only
/// the special bit is set.
pub open spec fn exec_char(mode: u32, exec: u32, special_bit: u32, special: char, special_upper: char) -> char {
    if has_bits(mode, exec) {
        if has_bits(mode, special_bit) {
            special
        } else {
            'x'
        }
    } else if has_bits(mode, special_bit) {
        special_upper
    } else {
        '-'
    }
}

/// The ten-character `ls -l` rendering of a mode.
pub open spec fn spec_format_mode(mode: u32) -> Seq<char> {
    seq![
        type_char(mode),
        flag_char(mode, S_IRUSR, 'r'),
        flag_char(mode, S_IWUSR, 'w'),
        exec_char(mode, S_IXUSR, S_ISUID, 's', 'S'),
        flag_char(mode, S_IRGRP, 'r'),
        flag_char(mode, S_IWGRP, 'w'),
        exec_char(mode, S_IXGRP, S_ISGID, 's', 'S'),
        flag_char(mode, S_IROTH, 'r'),
        flag_char(mode, S_IWOTH, 'w'),
        exec_char(mode, S_IXOTH, S_ISVTX, 't', 'T'),
    ]
}

fn flag_letter(set: bool, c: char) -> (r: char)
    ensures
        r == (if set { c } else { '-' }),
{
    if set {
        c
    } else {
        '-'
    }
}

fn exec_letter(exec: bool, special: bool, lower: char, upper: char) -> (r: char)
    ensures
        r == (if exec {
            if special {
                lower
            } else {
                'x'
            }
        } else if special {
            upper
        } else {
            '-'
        }),
{
    if exec {
        if special {
            lower
        } else {
            'x'
        }
    } else if special {
        upper
    } else {
        '-'
    }
}

fn type_letter(mode: u32) -> (r: char)
    ensures
        r == type_char(mode),
{
    if mode_is_link(mode) {
        'l'
    } else if mode_is_block_device(mode) {
        'b'
    } else if mode_is_char_device(mode) {
        'c'
    } else if mode_is_socket(mode) {
        's'
    } else if mode_is_pipe(mode) {
        'p'
    } else if mode_is_directory(mode) {
        'd'
    } else {
        '-'
    }
}

/// Renders a Unix mode the way `ls -l` prints it, e.g. `drwxr-xr-x`.
pub fn format_mode(mode: u32) -> (r: String)
    ensures
        r@ == spec_format_mode(mode),
{
    get_mode_unix(mode)
}

fn get_mode_unix(mode: u32) -> (r: String)
    ensures
        r@ == spec_format_mode(mode),
{
    let c0 = type_letter(mode);
    let c1 = flag_letter(mode_user_read(mode), 'r');
    let c2 = flag_letter(mode_user_write(mode), 'w');
    let c3 = exec_letter(mode_user_exec(mode), mode_suid(mode), 's', 'S');
    let c4 = flag_letter(mode_group_read(mode), 'r');
    let c5 = flag_letter(mode_group_write(mode), 'w');
    let c6 = exec_letter(mode_group_exec(mode), mode_sgid(mode), 's', 'S');
    let c7 = flag_letter(mode_other_read(mode), 'r');
    let c8 = flag_letter(mode_other_write(mode), 'w');
    let c9 = exec_letter(mode_other_exec(mode), mode_sticky(mode), 't', 'T');
    let mut s = String::new();
    push_char(&mut s, c0);
    push_char(&mut s, c1);
    push_char(&mut s, c2);
    push_char(&mut s, c3);
    push_char(&mut s, c4);
    push_char(&mut s, c5);
    push_char(&mut s, c6);
    push_char(&mut s, c7);
    push_char(&mut s, c8);
    push_char(&mut s, c9);
    assert(s@ =~= seq![c0, c1, c2, c3, c4, c5, c6, c7, c8, c9]);
    s
}

/// The number of Windows file attributes that are rendered.
pub open spec fn windows_attribute_count() -> int {
    19
}

/// The Windows file attribute at position `i` of the rendering: its bit and
/// its name.
pub open spec fn windows_attribute(i: int) -> (u32, Seq<char>) {
    if i == 0 {
        (0x20u32, "Archive"@)
    } else if i == 1 {
        (0x800u32, "Compressed"@)
    } else if i == 2 {
        (0x40u32, "Device"@)
    } else if i == 3 {
        (0x10u32, "Directory"@)
    } else if i == 4 {
        (0x4000u32, "Encrypted"@)
    } else if i == 5 {
        (0x2u32, "Hidden"@)
    } else if i == 6 {
        (0x8000u32, "Integrity Stream"@)
    } else if i == 7 {
        (0x80u32, "Normal"@)
    } else if i == 8 {
        (0x2000u32, "Not indexed"@)
    } else if i == 9 {
        (0x20000u32, "No scrub data"@)
    } else if i == 10 {
        (0x1000u32, "Offline"@)
    } else if i == 11 {
        (0x1u32, "Readonly"@)
    } else if i == 12 {
        (0x400000u32, "Recall on data access"@)
    } else if i == 13 {
        (0x40000u32, "Recall on open"@)
    } else if i == 14 {
        (0x400u32, "Reparse point"@)
    } else if i == 15 {
        (0x200u32, "Sparse"@)
    } else if i == 16 {
        (0x4u32, "System"@)
    } else if i == 17 {
        (0x100u32, "Temporary"@)
    } else {
        (0x10000u32, "Virtual"@)
    }
}

/// The names of those of the first `n` attributes whose bits `mode` has, in
/// order.
pub open spec fn windows_attribute_names(mode: u32, n: int) -> Seq<Seq<char>>
    decreases n,
{
    if n <= 0 {
        Seq::empty()
    } else {
        let before = windows_attribute_names(mode, n - 1);
        if has_bits(mode, windows_attribute(n - 1).0) {
            before.push(windows_attribute(n - 1).1)
        } else {
            before
        }
    }
}

/// Windows file attributes rendered as their names, separated by a comma and
/// a space.
pub open spec fn spec_windows_mode(mode: u32) -> Seq<char> {
    join_with(windows_attribute_names(mode, windows_attribute_count()), ", "@)
}

fn windows_attribute_at(i: usize) -> (r: (u32, &'static str))
    requires
        i < windows_attribute_count(),
    ensures
        r.0 == windows_attribute(i as int).0,
        r.1@ == windows_attribute(i as int).1,
{
    if i == 0 {
        (0x20, "Archive")
    } else if i == 1 {
        (0x800, "Compressed")
    } else if i == 2 {
        (0x40, "Device")
    } else if i == 3 {
        (0x10, "Directory")
    } else if i == 4 {
        (0x4000, "Encrypted")
    } else if i == 5 {
        (0x2, "Hidden")
    } else if i == 6 {
        (0x8000, "Integrity Stream")
    } else if i == 7 {
        (0x80, "Normal")
    } else if i == 8 {
        (0x2000, "Not indexed")
    } else if i == 9 {
        (0x20000, "No scrub data")
    } else if i == 10 {
        (0x1000, "Offline")
    } else if i == 11 {
        (0x1, "Readonly")
    } else if i == 12 {
        (0x400000, "Recall on data access")
    } else if i == 13 {
        (0x40000, "Recall on open")
    } else if i == 14 {
        (0x400, "Reparse point")
    } else if i == 15 {
        (0x200, "Sparse")
    } else if i == 16 {
        (0x4, "System")
    } else if i == 17 {
        (0x100, "Temporary")
    } else {
        (0x10000, "Virtual")
    }
}

/// Renders Windows file attributes as the names of those set, in a fixed
/// order, separated by `, `.
pub fn get_mode_windows(mode: u32) -> (r: String)
    ensures
        r@ == spec_windows_mode(mode),
{
    let mut s = String::new();
    let mut count: usize = 0;
    let mut i: usize = 0;
    while i < 19
        invariant
            i <= windows_attribute_count(),
            s@ == join_with(windows_attribute_names(mode, i as int), ", "@),
            count == windows_attribute_names(mode, i as int).len(),
            count <= i,
        decreases 19 - i,
    {
        let (flag, name) = windows_attribute_at(i);
        let ghost before = windows_attribute_names(mode, i as int);
        let set = mode & flag == flag;
        assert(set == has_bits(mode, flag)) by {
            reveal(has_bits);
        }
        if set {
            let ghost after = before.push(name@);
            assert(after.drop_last() =~= before);
            if count > 0 {
                push_str(&mut s, ", ");
            }
            push_str(&mut s, name);
            count = count + 1;
            assert(count == 1 ==> s@ =~= after[0]);
        }
        i = i + 1;
    }
    s
}

/// The rendering is always ten characters long, and its permission
/// positions show exactly the permission bits.
pub proof fn lemma_format_mode_shape(mode: u32)
    ensures
        spec_format_mode(mode).len() == 10,
        (spec_format_mode(mode)[1] == 'r') == has_bits(mode, S_IRUSR),
        (spec_format_mode(mode)[2] == 'w') == has_bits(mode, S_IWUSR),
        (spec_format_mode(mode)[4] == 'r') == has_bits(mode, S_IRGRP),
        (spec_format_mode(mode)[5] == 'w') == has_bits(mode, S_IWGRP),
        (spec_format_mode(mode)[7] == 'r') == has_bits(mode, S_IROTH),
        (spec_format_mode(mode)[8] == 'w') == has_bits(mode, S_IWOTH),
        (spec_format_mode(mode)[3] == 'x' || spec_format_mode(mode)[3] == 's') == has_bits(mode, S_IXUSR),
        (spec_format_mode(mode)[6] == 'x' || spec_format_mode(mode)[6] == 's') == has_bits(mode, S_IXGRP),
        (spec_format_mode(mode)[9] == 'x' || spec_format_mode(mode)[9] == 't') == has_bits(mode, S_IXOTH),
{
}

} // verus!
