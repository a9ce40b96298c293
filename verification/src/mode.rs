//! Rendering of a POSIX `st_mode` bitmask as the ten-character permission
//! column of a long directory listing.

use vstd::prelude::*;
use vstd::string::*;

verus! {

/// Mask that selects the file-type bits.
pub const S_IFMT: u32 = 0o170000;

/// File type: socket.
pub const S_IFSOCK: u32 = 0o140000;

/// File type: symbolic link.
pub const S_IFLNK: u32 = 0o120000;

/// File type: regular file.
pub const S_IFREG: u32 = 0o100000;

/// File type: block device.
pub const S_IFBLK: u32 = 0o060000;

/// File type: directory.
pub const S_IFDIR: u32 = 0o040000;

/// File type: character device.
pub const S_IFCHR: u32 = 0o020000;

/// File type: FIFO.
pub const S_IFIFO: u32 = 0o010000;

/// Set-user-id on execution.
pub const S_ISUID: u32 = 0o4000;

/// Set-group-id on execution.
pub const S_ISGID: u32 = 0o2000;

/// Sticky bit.
pub const S_ISVTX: u32 = 0o1000;

/// Owner may read.
pub const S_IRUSR: u32 = 0o400;

/// Owner may write.
pub const S_IWUSR: u32 = 0o200;

/// Owner may execute.
pub const S_IXUSR: u32 = 0o100;

/// Group may read.
pub const S_IRGRP: u32 = 0o040;

/// Group may write.
pub const S_IWGRP: u32 = 0o020;

/// Group may execute.
pub const S_IXGRP: u32 = 0o010;

/// Others may read.
pub const S_IROTH: u32 = 0o004;

/// Others may write.
pub const S_IWOTH: u32 = 0o002;

/// Others may execute.
pub const S_IXOTH: u32 = 0o001;

/// The bits of a mode that a 16-bit `mode_t` keeps.
pub const NARROW_MASK: u32 = 0xffff;

/// The glyph of the file type that the type bits of `mode` select.
/// Anything that is not one of the six special types shows as a regular file.
pub open spec fn type_glyph(mode: u32) -> char {
    let kind = mode & S_IFMT;
    if kind == S_IFBLK {
        'b'
    } else if kind == S_IFCHR {
        'c'
    } else if kind == S_IFDIR {
        'd'
    } else if kind == S_IFIFO {
        'p'
    } else if kind == S_IFLNK {
        'l'
    } else if kind == S_IFSOCK {
        's'
    } else {
        '-'
    }
}

/// The glyph of a read or write permission: `on` where `bit` is set in
/// `mode`, a dash where it is not.
pub open spec fn access_glyph(mode: u32, bit: u32, on: char) -> char {
    if mode & bit != 0 {
        on
    } else {
        '-'
    }
}

/// The glyph of an execute permission combined with the special bit of its
/// triad: `both` where execute and special are set, `x` for execute alone,
/// `alone` for the special bit without execute, a dash for neither.
pub open spec fn execute_glyph(mode: u32, exec: u32, special: u32, both: char, alone: char) -> char {
    if mode & exec != 0 {
        if mode & special != 0 {
            both
        } else {
            'x'
        }
    } else {
        if mode & special != 0 {
            alone
        } else {
            '-'
        }
    }
}

/// The permission string of `mode`: the type glyph, then the triads of the
/// owner, the group and the others.
pub open spec fn mode_string(mode: u32) -> Seq<char> {
    seq![
        type_glyph(mode),
        access_glyph(mode, S_IRUSR, 'r'),
        access_glyph(mode, S_IWUSR, 'w'),
        execute_glyph(mode, S_IXUSR, S_ISUID, 's', 'S'),
        access_glyph(mode, S_IRGRP, 'r'),
        access_glyph(mode, S_IWGRP, 'w'),
        execute_glyph(mode, S_IXGRP, S_ISGID, 's', 'S'),
        access_glyph(mode, S_IROTH, 'r'),
        access_glyph(mode, S_IWOTH, 'w'),
        execute_glyph(mode, S_IXOTH, S_ISVTX, 't', 'T'),
    ]
}

/// Whether `c` is one of the glyphs that a permission string is made of.
pub open spec fn is_mode_glyph(c: char) -> bool {
    c == '-' || c == 'b' || c == 'c' || c == 'd' || c == 'p' || c == 'l' || c == 's' || c == 'S'
        || c == 't' || c == 'T' || c == 'r' || c == 'w' || c == 'x'
}

fn type_text(mode: u32) -> (text: &'static str)
    ensures
        text@ == seq![type_glyph(mode)],
{
    proof {
        reveal_strlit("b");
        reveal_strlit("c");
        reveal_strlit("d");
        reveal_strlit("p");
        reveal_strlit("l");
        reveal_strlit("s");
        reveal_strlit("-");
    }
    let kind: u32 = mode & S_IFMT;
    let text = if kind == S_IFBLK {
        "b"
    } else if kind == S_IFCHR {
        "c"
    } else if kind == S_IFDIR {
        "d"
    } else if kind == S_IFIFO {
        "p"
    } else if kind == S_IFLNK {
        "l"
    } else if kind == S_IFSOCK {
        "s"
    } else {
        "-"
    };
    assert(text@ =~= seq![type_glyph(mode)]);
    text
}

fn read_text(mode: u32, bit: u32) -> (text: &'static str)
    ensures
        text@ == seq![access_glyph(mode, bit, 'r')],
{
    proof {
        reveal_strlit("r");
        reveal_strlit("-");
    }
    let text = if mode & bit != 0 {
        "r"
    } else {
        "-"
    };
    assert(text@ =~= seq![access_glyph(mode, bit, 'r')]);
    text
}

fn write_text(mode: u32, bit: u32) -> (text: &'static str)
    ensures
        text@ == seq![access_glyph(mode, bit, 'w')],
{
    proof {
        reveal_strlit("w");
        reveal_strlit("-");
    }
    let text = if mode & bit != 0 {
        "w"
    } else {
        "-"
    };
    assert(text@ =~= seq![access_glyph(mode, bit, 'w')]);
    text
}

fn setid_text(mode: u32, exec: u32, special: u32) -> (text: &'static str)
    ensures
        text@ == seq![execute_glyph(mode, exec, special, 's', 'S')],
{
    proof {
        reveal_strlit("s");
        reveal_strlit("S");
        reveal_strlit("x");
        reveal_strlit("-");
    }
    let text = if mode & exec != 0 {
        if mode & special != 0 {
            "s"
        } else {
            "x"
        }
    } else {
        if mode & special != 0 {
            "S"
        } else {
            "-"
        }
    };
    assert(text@ =~= seq![execute_glyph(mode, exec, special, 's', 'S')]);
    text
}

fn sticky_text(mode: u32) -> (text: &'static str)
    ensures
        text@ == seq![execute_glyph(mode, S_IXOTH, S_ISVTX, 't', 'T')],
{
    proof {
        reveal_strlit("t");
        reveal_strlit("T");
        reveal_strlit("x");
        reveal_strlit("-");
    }
    let text = if mode & S_IXOTH != 0 {
        if mode & S_ISVTX != 0 {
            "t"
        } else {
            "x"
        }
    } else {
        if mode & S_ISVTX != 0 {
            "T"
        } else {
            "-"
        }
    };
    assert(text@ =~= seq![execute_glyph(mode, S_IXOTH, S_ISVTX, 't', 'T')]);
    text
}

/// Renders `mode`, read at its full 32-bit width, as a permission string.
///
/// The result is a function of `mode` alone and always has ten characters.
pub fn file_mode(mode: u32) -> (s: String)
    ensures
        s@ == mode_string(mode),
        s@.len() == 10,
{
    let mut s = String::new();
    s.append(type_text(mode));
    s.append(read_text(mode, S_IRUSR));
    s.append(write_text(mode, S_IWUSR));
    s.append(setid_text(mode, S_IXUSR, S_ISUID));
    s.append(read_text(mode, S_IRGRP));
    s.append(write_text(mode, S_IWGRP));
    s.append(setid_text(mode, S_IXGRP, S_ISGID));
    s.append(read_text(mode, S_IROTH));
    s.append(write_text(mode, S_IWOTH));
    s.append(sticky_text(mode));
    assert(s@ =~= mode_string(mode));
    s
}

/// Renders `mode` as a platform with a 16-bit `mode_t` reads it: the value is
/// cut down to its low 16 bits before any bit is tested.
///
/// Every bit that the rendering tests lies in those 16 bits, so the result
/// is that of [`file_mode`].
pub fn file_mode_narrow(mode: u32) -> (s: String)
    ensures
        s@ == mode_string(mode & NARROW_MASK),
        s@ == mode_string(mode),
        s@.len() == 10,
{
    let narrow: u16 = #[verifier::truncate] (mode as u16);
    assert(narrow as u32 == mode & NARROW_MASK) by (bit_vector)
        requires
            narrow == mode as u16,
    ;
    proof {
        lemma_mode_string_low_bits(mode);
    }
    file_mode(narrow as u32)
}

/// The permission string depends only on the low 16 bits of the mode, so a
/// platform that keeps the mode in 16 bits and one that keeps it in 32 bits
/// render the same string.
pub proof fn lemma_mode_string_low_bits(mode: u32)
    ensures
        mode_string(mode & NARROW_MASK) == mode_string(mode),
{
    let low = mode & NARROW_MASK;
    assert(low & S_IFMT == mode & S_IFMT && low & S_ISUID == mode & S_ISUID && low & S_ISGID == mode
        & S_ISGID && low & S_ISVTX == mode & S_ISVTX && low & S_IRUSR == mode & S_IRUSR && low
        & S_IWUSR == mode & S_IWUSR && low & S_IXUSR == mode & S_IXUSR && low & S_IRGRP == mode
        & S_IRGRP && low & S_IWGRP == mode & S_IWGRP && low & S_IXGRP == mode & S_IXGRP && low
        & S_IROTH == mode & S_IROTH && low & S_IWOTH == mode & S_IWOTH && low & S_IXOTH == mode
        & S_IXOTH) by (bit_vector)
        requires
            low == mode & NARROW_MASK,
    ;
    assert(mode_string(low) =~= mode_string(mode));
}

/// Every character of a permission string is one of the thirteen glyphs of
/// the format, and there are always ten of them.
pub proof fn lemma_mode_string_shape(mode: u32)
    ensures
        mode_string(mode).len() == 10,
        forall|i: int| 0 <= i < 10 ==> is_mode_glyph(#[trigger] mode_string(mode)[i]),
{
}

/// Where set-user-id and owner-execute are both set, the owner triad ends in
/// `s`; where set-user-id is set without owner-execute, it ends in `S`.
pub proof fn lemma_setuid_glyph(mode: u32)
    requires
        mode & S_ISUID != 0,
    ensures
        mode & S_IXUSR != 0 ==> mode_string(mode)[3] == 's',
        mode & S_IXUSR == 0 ==> mode_string(mode)[3] == 'S',
{
}

/// Where set-group-id and group-execute are both set, the group triad ends
/// in `s`; where set-group-id is set without group-execute, it ends in `S`.
pub proof fn lemma_setgid_glyph(mode: u32)
    requires
        mode & S_ISGID != 0,
    ensures
        mode & S_IXGRP != 0 ==> mode_string(mode)[6] == 's',
        mode & S_IXGRP == 0 ==> mode_string(mode)[6] == 'S',
{
}

/// Where the sticky bit is set without other-execute, the last triad ends in
/// `T`; where both are set, it ends in `t`.
pub proof fn lemma_sticky_glyph(mode: u32)
    requires
        mode & S_ISVTX != 0,
    ensures
        mode & S_IXOTH == 0 ==> mode_string(mode)[9] == 'T',
        mode & S_IXOTH != 0 ==> mode_string(mode)[9] == 't',
{
}

} // verus!
