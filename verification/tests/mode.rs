use fileops::file_mode;
use fileops::file_mode_narrow;
use fileops::mode::{
    S_IFBLK, S_IFCHR, S_IFDIR, S_IFIFO, S_IFLNK, S_IFMT, S_IFREG, S_IFSOCK, S_IRGRP, S_IROTH,
    S_IRUSR, S_ISGID, S_ISUID, S_ISVTX, S_IWGRP, S_IWOTH, S_IWUSR, S_IXGRP, S_IXOTH, S_IXUSR,
};

#[test]
fn directory_with_755() {
    assert_eq!(file_mode(0o040755), "drwxr-xr-x");
}

#[test]
fn regular_file_with_644() {
    assert_eq!(file_mode(0o100644), "-rw-r--r--");
}

#[test]
fn setuid_with_owner_execute_shows_lower_s() {
    let s = file_mode(0o104755);
    assert_eq!(s, "-rwsr-xr-x");
    assert_eq!(s.chars().nth(3), Some('s'));
}

#[test]
fn setuid_without_owner_execute_shows_upper_s() {
    assert_eq!(file_mode(0o104644), "-rwSr--r--");
}

#[test]
fn setgid_with_and_without_group_execute() {
    assert_eq!(file_mode(0o102755), "-rwxr-sr-x");
    assert_eq!(file_mode(0o102745), "-rwxr-Sr-x");
}

#[test]
fn sticky_without_other_execute_shows_upper_t() {
    let s = file_mode(0o041776);
    assert_eq!(s, "drwxrwxrwT");
    assert_eq!(s.chars().nth(9), Some('T'));
}

#[test]
fn sticky_with_other_execute_shows_lower_t() {
    assert_eq!(file_mode(0o041777), "drwxrwxrwt");
}

#[test]
fn every_file_type_has_its_glyph() {
    assert_eq!(file_mode(S_IFBLK | 0o660), "brw-rw----");
    assert_eq!(file_mode(S_IFCHR | 0o620), "crw--w----");
    assert_eq!(file_mode(S_IFDIR | 0o700), "drwx------");
    assert_eq!(file_mode(S_IFIFO | 0o644), "prw-r--r--");
    assert_eq!(file_mode(S_IFLNK | 0o777), "lrwxrwxrwx");
    assert_eq!(file_mode(S_IFSOCK | 0o755), "srwxr-xr-x");
    assert_eq!(file_mode(S_IFREG | 0o600), "-rw-------");
}

#[test]
fn unknown_type_bits_show_as_regular() {
    assert_eq!(file_mode(0), "----------");
    assert_eq!(file_mode(0o170000), "----------");
    assert_eq!(file_mode(0o050000 | 0o777), "-rwxrwxrwx");
}

#[test]
fn all_bits_set() {
    assert_eq!(file_mode(0o7777), "-rwsrwsrwt");
    assert_eq!(file_mode(0o7000), "---S--S--T");
    assert_eq!(file_mode(u32::MAX), "-rwsrwsrwt");
}

#[test]
fn each_permission_bit_alone() {
    assert_eq!(file_mode(S_IRUSR), "-r--------");
    assert_eq!(file_mode(S_IWUSR), "--w-------");
    assert_eq!(file_mode(S_IXUSR), "---x------");
    assert_eq!(file_mode(S_IRGRP), "----r-----");
    assert_eq!(file_mode(S_IWGRP), "-----w----");
    assert_eq!(file_mode(S_IXGRP), "------x---");
    assert_eq!(file_mode(S_IROTH), "-------r--");
    assert_eq!(file_mode(S_IWOTH), "--------w-");
    assert_eq!(file_mode(S_IXOTH), "---------x");
    assert_eq!(file_mode(S_ISUID), "---S------");
    assert_eq!(file_mode(S_ISGID), "------S---");
    assert_eq!(file_mode(S_ISVTX), "---------T");
}

#[test]
fn same_input_same_output_of_ten_characters() {
    let mut mode: u32 = 0;
    while mode <= 0o177777 {
        let first = file_mode(mode);
        let second = file_mode(mode);
        assert_eq!(first, second);
        assert_eq!(first.chars().count(), 10);
        assert_eq!(first.len(), 10);
        mode += 0o1231;
    }
}

#[test]
fn bits_above_the_low_sixteen_change_nothing() {
    assert_eq!(file_mode(0x0001_0000 | 0o040755), "drwxr-xr-x");
    assert_eq!(file_mode(0xffff_0000 | 0o100644), "-rw-r--r--");
    assert_eq!(file_mode(0x8000_0000), "----------");
}

#[test]
fn narrow_reading_agrees_with_wide_reading() {
    let modes = [
        0u32,
        0o040755,
        0o100644,
        0o104755,
        0o041776,
        0o120777,
        0o140755,
        0x0001_0000 | 0o060660,
        0xdead_beef,
        u32::MAX,
    ];
    for mode in modes {
        assert_eq!(file_mode_narrow(mode), file_mode(mode));
        assert_eq!(file_mode_narrow(mode), file_mode(mode & 0xffff));
    }
    assert_eq!(file_mode_narrow(0xffff_0000 | 0o040755), "drwxr-xr-x");
}

#[test]
fn constants_are_those_of_the_platform() {
    assert_eq!(S_IFMT, libc::S_IFMT as u32);
    assert_eq!(S_IFSOCK, libc::S_IFSOCK as u32);
    assert_eq!(S_IFLNK, libc::S_IFLNK as u32);
    assert_eq!(S_IFREG, libc::S_IFREG as u32);
    assert_eq!(S_IFBLK, libc::S_IFBLK as u32);
    assert_eq!(S_IFDIR, libc::S_IFDIR as u32);
    assert_eq!(S_IFCHR, libc::S_IFCHR as u32);
    assert_eq!(S_IFIFO, libc::S_IFIFO as u32);
    assert_eq!(S_ISUID, libc::S_ISUID as u32);
    assert_eq!(S_ISGID, libc::S_ISGID as u32);
    assert_eq!(S_ISVTX, libc::S_ISVTX as u32);
    assert_eq!(S_IRUSR, libc::S_IRUSR as u32);
    assert_eq!(S_IWUSR, libc::S_IWUSR as u32);
    assert_eq!(S_IXUSR, libc::S_IXUSR as u32);
    assert_eq!(S_IRGRP, libc::S_IRGRP as u32);
    assert_eq!(S_IWGRP, libc::S_IWGRP as u32);
    assert_eq!(S_IXGRP, libc::S_IXGRP as u32);
    assert_eq!(S_IROTH, libc::S_IROTH as u32);
    assert_eq!(S_IWOTH, libc::S_IWOTH as u32);
    assert_eq!(S_IXOTH, libc::S_IXOTH as u32);
}
